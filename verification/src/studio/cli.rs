//! Command-line helpers: the source named by the options, the gradient list, and the
//! report of the server's sources.
use vstd::prelude::*;
use crate::studio::audio::{AppStream, InputEntry, SinkEntry, Status};
use crate::text::{self, decimal, trim};

verus! {

/// The source option text the command line selects: `--app` before `--sink` before
/// `--source` before `--all`; none of them leaves the configured source.
pub open spec fn source_option(
    app: Option<Seq<char>>,
    sink: Option<Seq<char>>,
    source: Option<Seq<char>>,
    all: bool,
) -> Option<Seq<char>> {
    match app {
        Some(a) => Some("app:"@ + a),
        None => match sink {
            Some(s) => Some("sink:"@ + s),
            None => match source {
                Some(s) => Some("source:"@ + s),
                None => if all {
                    Some("all"@)
                } else {
                    None
                },
            },
        },
    }
}

pub open spec fn opt_text(o: Option<&str>) -> Option<Seq<char>> {
    match o {
        Some(s) => Some(s@),
        None => None,
    }
}

pub fn source_spec(app: Option<&str>, sink: Option<&str>, source: Option<&str>, all: bool) -> (r: Option<String>)
    ensures
        (match r {
            Some(s) => Some(s@),
            None => None,
        }) == source_option(opt_text(app), opt_text(sink), opt_text(source), all),
{
    match app {
        Some(a) => Some(text::concat("app:", a)),
        None => match sink {
            Some(s) => Some(text::concat("sink:", s)),
            None => match source {
                Some(s) => Some(text::concat("source:", s)),
                None => if all {
                    Some(text::owned("all"))
                } else {
                    None
                },
            },
        },
    }
}

/// The pieces of `s` between commas (one piece when there is no comma).
pub open spec fn split_commas(s: Seq<char>) -> Seq<Seq<char>>
    decreases s.len(),
{
    if s.len() == 0 {
        seq![seq![]]
    } else {
        let p = split_commas(s.drop_last());
        if s.last() == ',' {
            p.push(seq![])
        } else {
            p.update(p.len() - 1, p.last().push(s.last()))
        }
    }
}

proof fn lemma_split_nonempty(s: Seq<char>)
    ensures
        split_commas(s).len() >= 1,
    decreases s.len(),
{
    if s.len() > 0 {
        lemma_split_nonempty(s.drop_last());
    }
}

/// The gradient a `--gradient` option lists: the comma-separated pieces, trimmed, with
/// the empty ones dropped.
pub open spec fn gradient_list(s: Seq<char>) -> Seq<Seq<char>> {
    split_commas(s).map_values(|p: Seq<char>| trim(p)).filter(|p: Seq<char>| p.len() > 0)
}

pub fn split_gradient(g: &str) -> (r: Vec<String>)
    ensures
        r@.map_values(|s: String| s@) == gradient_list(g@),
{
    let v = text::chars_of(g);
    let ghost keep = |p: Seq<char>| p.len() > 0;
    let ghost tr = |p: Seq<char>| trim(p);
    let mut out: Vec<String> = Vec::new();
    let mut cur: Vec<char> = Vec::new();
    let mut i: usize = 0;
    assert(v@.take(0) =~= Seq::<char>::empty());
    while i < v.len()
        invariant
            i <= v.len(),
            v@ == g@,
            keep == (|p: Seq<char>| p.len() > 0),
            tr == (|p: Seq<char>| trim(p)),
            split_commas(v@.take(i as int)).len() >= 1,
            cur@ == split_commas(v@.take(i as int)).last(),
            out@.map_values(|s: String| s@) == split_commas(v@.take(i as int)).drop_last().map_values(tr).filter(keep),
        decreases v.len() - i,
    {
        let ghost p = split_commas(v@.take(i as int));
        assert(v@.take(i + 1).drop_last() =~= v@.take(i as int));
        assert(v@.take(i + 1).last() == v@[i as int]);
        proof {
            lemma_split_nonempty(v@.take(i + 1));
        }
        if v[i] == ',' {
            let piece = text::string_of(&cur);
            let t = text::trim_str(piece.as_str());
            let ghost before = out@;
            proof {
                assert(p.push(seq![]).drop_last() =~= p);
                assert(p =~= p.drop_last().push(p.last()));
                crate::seqs::lemma_map_push(p.drop_last(), p.last(), tr);
                crate::seqs::lemma_filter_push(p.drop_last().map_values(tr), tr(p.last()), keep);
            }
            if !t.as_str().is_empty() {
                out.push(t);
                proof {
                    crate::seqs::lemma_map_push(before, out@.last(), |s: String| s@);
                    assert(out@ == before.push(out@.last()));
                }
            }
            cur = Vec::new();
        } else {
            let ghost before = cur@;
            cur.push(v[i]);
            proof {
                assert(p.update(p.len() - 1, p.last().push(v@[i as int])).drop_last() =~= p.drop_last());
            }
        }
        i = i + 1;
    }
    let piece = text::string_of(&cur);
    let t = text::trim_str(piece.as_str());
    let ghost p = split_commas(v@.take(i as int));
    let ghost before = out@;
    proof {
        assert(v@.take(i as int) =~= v@);
        assert(p =~= p.drop_last().push(p.last()));
        crate::seqs::lemma_map_push(p.drop_last(), p.last(), tr);
        crate::seqs::lemma_filter_push(p.drop_last().map_values(tr), tr(p.last()), keep);
    }
    if !t.as_str().is_empty() {
        out.push(t);
        proof {
            crate::seqs::lemma_map_push(before, out@.last(), |s: String| s@);
            assert(out@ == before.push(out@.last()));
        }
    }
    out
}

/// `k` spaces.
pub open spec fn spaces(k: nat) -> Seq<char> {
    Seq::new(k, |i: int| ' ')
}

/// The decimal notation of `n`, padded with spaces on the right to four characters.
pub open spec fn pad4(n: nat) -> Seq<char> {
    let d = decimal(n);
    if d.len() < 4 {
        d + spaces((4 - d.len()) as nat)
    } else {
        d
    }
}

/// The texts of `s` one after the other.
pub open spec fn concat_all(s: Seq<Seq<char>>) -> Seq<char>
    decreases s.len(),
{
    if s.len() == 0 {
        seq![]
    } else {
        concat_all(s.drop_last()) + s.last()
    }
}

/// `a` when it is not empty, else `b`.
pub open spec fn shown_name(a: Seq<char>, b: Seq<char>) -> Seq<char> {
    if a.len() == 0 {
        b
    } else {
        a
    }
}

pub open spec fn default_mark(name: Seq<char>, default: Seq<char>) -> Seq<char> {
    if name == default {
        "  [default]"@
    } else {
        ""@
    }
}

/// The two lines listing an output or an input.
pub open spec fn device_lines(index: u32, name: Seq<char>, description: Seq<char>, default: Seq<char>) -> Seq<char> {
    "  "@ + pad4(index as nat) + " "@ + shown_name(description, name) + default_mark(name, default) + "\n"@
        + "       name: "@ + name + "\n"@
}

/// The lines listing a playback stream.
pub open spec fn app_lines(a: AppStream) -> Seq<char> {
    let state = if a.corked {
        " (paused)"@
    } else if a.muted {
        " (muted)"@
    } else {
        ""@
    };
    "  "@ + pad4(a.index as nat) + " "@ + a.app_name@ + state + "\n"@ + (if a.media_name@.len() > 0
        && a.media_name@ != a.app_name@ {
        "       title: "@ + a.media_name@ + "\n"@
    } else {
        ""@
    }) + (if a.binary@.len() > 0 {
        "       binary: "@ + a.binary@ + "   sink: "@ + decimal(a.sink as nat) + "\n"@
    } else {
        ""@
    })
}

pub open spec fn sink_block(st: Status) -> Seq<char> {
    concat_all(
        st.sinks@.map_values(
            |s: SinkEntry| device_lines(s.index, s.name@, s.description@, st.default_sink@),
        ),
    )
}

pub open spec fn input_block(st: Status) -> Seq<char> {
    concat_all(
        st.inputs@.filter(|i: InputEntry| !i.is_monitor).map_values(
            |i: InputEntry| device_lines(i.index, i.name@, i.description@, st.default_source@),
        ),
    )
}

pub open spec fn app_block(st: Status) -> Seq<char> {
    concat_all(st.apps@.map_values(|a: AppStream| app_lines(a)))
}

/// The report of the server's outputs, inputs (monitors left out) and playback
/// streams.
pub open spec fn sources_report_text(st: Status) -> Seq<char> {
    (if st.server_name@.len() > 0 {
        "Server: "@ + st.server_name@ + "\n"@
    } else {
        ""@
    }) + "Outputs (sinks):\n"@ + sink_block(st) + "Inputs (sources):\n"@ + input_block(st)
        + "Applications (sink inputs):\n"@ + (if st.apps@.len() == 0 {
        "  (none playing)\n"@
    } else {
        ""@
    }) + app_block(st) + "\n"@
        + "Use --app NAME to follow one application, --sink NAME for one output, --source NAME for an input, --all for everything.\n"@
}

/// Whether the listing has everything it waits for: the streams and inputs loaded,
/// some output and a default output.
pub open spec fn listing_ready(st: Status) -> bool {
    st.apps_loaded && st.inputs_loaded && st.sinks@.len() > 0 && st.default_sink@.len() > 0
}

pub fn listing_complete(st: &Status) -> (r: bool)
    ensures
        r == listing_ready(*st),
{
    st.apps_loaded && st.inputs_loaded && st.sinks.len() > 0 && !st.default_sink.as_str().is_empty()
}

fn padded_index(n: u32) -> (r: String)
    ensures
        r@ == pad4(n as nat),
{
    let mut out = text::decimal_text(n as u64);
    let len = text::chars_of(out.as_str()).len();
    let mut k: usize = len;
    assert(out@ =~= decimal(n as nat) + spaces(0));
    while k < 4
        invariant
            len == decimal(n as nat).len(),
            len <= k,
            k <= 4 || k == len,
            out@ == decimal(n as nat) + spaces((k - len) as nat),
        decreases 4 - k,
    {
        let ghost before = out@;
        out.append(" ");
        proof {
            reveal_strlit(" ");
            assert(spaces((k + 1 - len) as nat) =~= spaces((k - len) as nat).push(' '));
        }
        assert(out@ =~= decimal(n as nat) + spaces((k + 1 - len) as nat));
        k = k + 1;
    }
    assert(len >= 4 ==> spaces(0) =~= Seq::<char>::empty());
    assert(len >= 4 ==> out@ =~= decimal(n as nat));
    out
}

fn device_text(index: u32, name: &String, description: &String, default: &String) -> (r: String)
    ensures
        r@ == device_lines(index, name@, description@, default@),
{
    let mut out = text::owned("  ");
    out.append(padded_index(index).as_str());
    out.append(" ");
    if description.as_str().is_empty() {
        out.append(name.as_str());
    } else {
        out.append(description.as_str());
    }
    if text::same_text(name.as_str(), default.as_str()) {
        out.append("  [default]");
    }
    out.append("\n");
    out.append("       name: ");
    out.append(name.as_str());
    out.append("\n");
    proof {
        reveal_strlit("");
    }
    assert(out@ =~= device_lines(index, name@, description@, default@));
    out
}

fn app_text(a: &AppStream) -> (r: String)
    ensures
        r@ == app_lines(*a),
{
    let mut out = text::owned("  ");
    out.append(padded_index(a.index).as_str());
    out.append(" ");
    out.append(a.app_name.as_str());
    if a.corked {
        out.append(" (paused)");
    } else if a.muted {
        out.append(" (muted)");
    }
    out.append("\n");
    if !a.media_name.as_str().is_empty() && !text::same_text(a.media_name.as_str(), a.app_name.as_str()) {
        out.append("       title: ");
        out.append(a.media_name.as_str());
        out.append("\n");
    }
    if !a.binary.as_str().is_empty() {
        out.append("       binary: ");
        out.append(a.binary.as_str());
        out.append("   sink: ");
        out.append(text::decimal_text(a.sink as u64).as_str());
        out.append("\n");
    }
    proof {
        reveal_strlit("");
    }
    assert(out@ =~= app_lines(*a));
    out
}

/// The report that `--list` prints.
pub fn sources_report(st: &Status) -> (r: String)
    ensures
        r@ == sources_report_text(*st),
{
    let mut out = String::new();
    if !st.server_name.as_str().is_empty() {
        out.append("Server: ");
        out.append(st.server_name.as_str());
        out.append("\n");
    }
    let ghost head = out@;
    proof {
        reveal_strlit("");
        assert(head =~= (if st.server_name@.len() > 0 {
            "Server: "@ + st.server_name@ + "\n"@
        } else {
            ""@
        }));
    }
    out.append("Outputs (sinks):\n");
    let ghost f = |s: SinkEntry| device_lines(s.index, s.name@, s.description@, st.default_sink@);
    let ghost h1 = out@;
    let mut k: usize = 0;
    while k < st.sinks.len()
        invariant
            k <= st.sinks.len(),
            f == (|s: SinkEntry| device_lines(s.index, s.name@, s.description@, st.default_sink@)),
            out@ == h1 + concat_all(st.sinks@.take(k as int).map_values(f)),
        decreases st.sinks.len() - k,
    {
        let s = &st.sinks[k];
        out.append(device_text(s.index, &s.name, &s.description, &st.default_sink).as_str());
        proof {
            crate::seqs::lemma_take_push(st.sinks@, k as int);
            crate::seqs::lemma_map_push(st.sinks@.take(k as int), st.sinks@[k as int], f);
            assert(st.sinks@.take(k + 1).map_values(f).drop_last() =~= st.sinks@.take(k as int).map_values(f));
        }
        k = k + 1;
    }
    assert(st.sinks@.take(k as int) =~= st.sinks@);
    out.append("Inputs (sources):\n");
    let ghost g = |i: InputEntry| device_lines(i.index, i.name@, i.description@, st.default_source@);
    let ghost keep = |i: InputEntry| !i.is_monitor;
    let ghost h2 = out@;
    let mut j: usize = 0;
    while j < st.inputs.len()
        invariant
            j <= st.inputs.len(),
            g == (|i: InputEntry| device_lines(i.index, i.name@, i.description@, st.default_source@)),
            keep == (|i: InputEntry| !i.is_monitor),
            out@ == h2 + concat_all(st.inputs@.take(j as int).filter(keep).map_values(g)),
        decreases st.inputs.len() - j,
    {
        let i = &st.inputs[j];
        proof {
            crate::seqs::lemma_take_push(st.inputs@, j as int);
            crate::seqs::lemma_filter_push(st.inputs@.take(j as int), st.inputs@[j as int], keep);
        }
        if !i.is_monitor {
            out.append(device_text(i.index, &i.name, &i.description, &st.default_source).as_str());
            proof {
                crate::seqs::lemma_map_push(st.inputs@.take(j as int).filter(keep), *i, g);
                assert(st.inputs@.take(j + 1).filter(keep).map_values(g).drop_last() =~= st.inputs@.take(
                    j as int,
                ).filter(keep).map_values(g));
            }
        }
        j = j + 1;
    }
    assert(st.inputs@.take(j as int) =~= st.inputs@);
    out.append("Applications (sink inputs):\n");
    if st.apps.len() == 0 {
        out.append("  (none playing)\n");
    }
    let ghost h3 = out@;
    let mut m: usize = 0;
    while m < st.apps.len()
        invariant
            m <= st.apps.len(),
            out@ == h3 + concat_all(st.apps@.take(m as int).map_values(|a: AppStream| app_lines(a))),
        decreases st.apps.len() - m,
    {
        out.append(app_text(&st.apps[m]).as_str());
        proof {
            crate::seqs::lemma_take_push(st.apps@, m as int);
            crate::seqs::lemma_map_push(st.apps@.take(m as int), st.apps@[m as int], |a: AppStream| app_lines(a));
            assert(st.apps@.take(m + 1).map_values(|a: AppStream| app_lines(a)).drop_last() =~= st.apps@.take(
                m as int,
            ).map_values(|a: AppStream| app_lines(a)));
        }
        m = m + 1;
    }
    assert(st.apps@.take(m as int) =~= st.apps@);
    out.append("\n");
    out.append(
        "Use --app NAME to follow one application, --sink NAME for one output, --source NAME for an input, --all for everything.\n",
    );
    assert(out@ =~= sources_report_text(*st));
    out
}

} // verus!
