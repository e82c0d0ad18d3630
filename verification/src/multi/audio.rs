//! Audio inventory: outputs, playback streams, and which monitors to capture.
use vstd::prelude::*;
use crate::text::{self, contains, lower_case};

verus! {

/// An output device (a PulseAudio sink) and the source that monitors it.
#[derive(Debug, Clone)]
pub struct Sink {
    pub index: u32,
    pub name: String,
    pub description: String,
    pub monitor_source: String,
}

/// A playback stream (a sink input) with its client properties, as key/value pairs in
/// the order the server listed them; where a key occurs twice, the later pair counts
/// (see `lookup`), as when the pairs are collected into a map.
#[derive(Debug, Clone)]
pub struct Input {
    pub index: u32,
    pub sink: u32,
    pub corked: bool,
    pub properties: Vec<(String, String)>,
}

/// The outputs and playback streams that the server reported.
#[derive(Debug, Clone)]
pub struct Inventory {
    pub sinks: Vec<Sink>,
    pub inputs: Vec<Input>,
}

impl Default for Inventory {
    fn default() -> (r: Self)
        ensures
            r.sinks@.len() == 0,
            r.inputs@.len() == 0,
    {
        Inventory { sinks: Vec::new(), inputs: Vec::new() }
    }
}

/// A monitor source to record, optionally narrowed to one playback stream.
#[derive(Debug, Clone, PartialEq, Eq, PartialOrd, Ord)]
pub struct Target {
    pub monitor: String,
    pub input: Option<u32>,
}

/// A target as plain values: the monitor's name and the stream index.
pub open spec fn target_view(t: Target) -> (Seq<char>, Option<u32>) {
    (t.monitor@, t.input)
}

/// Value of property `key`; where a key were listed twice, the later entry counts, as
/// when the pairs are collected into a map.
pub open spec fn lookup(props: Seq<(String, String)>, key: Seq<char>) -> Option<Seq<char>>
    decreases props.len(),
{
    if props.len() == 0 {
        None
    } else if props.last().0@ == key {
        Some(props.last().1@)
    } else {
        lookup(props.drop_last(), key)
    }
}

pub open spec fn app_name_key() -> Seq<char> {
    "application.name"@
}

pub open spec fn binary_key() -> Seq<char> {
    "application.process.binary"@
}

/// The name shown for a stream: its application name, else its binary, else a
/// placeholder.
pub open spec fn input_name(i: Input) -> Seq<char> {
    match lookup(i.properties@, app_name_key()) {
        Some(n) => n,
        None => match lookup(i.properties@, binary_key()) {
            Some(b) => b,
            None => "Unknown application"@,
        },
    }
}

/// A filter matches a stream when, ignoring case, it occurs in the stream's name or in
/// its binary's name.
pub open spec fn input_matches(i: Input, filter: Seq<char>) -> bool {
    ||| contains(lower_case(input_name(i)), lower_case(filter))
    ||| (lookup(i.properties@, binary_key()) matches Some(b) && contains(
        lower_case(b),
        lower_case(filter),
    ))
}

impl Input {
    /// The value of property `key`.
    pub fn property(&self, key: &str) -> (r: Option<&str>)
        ensures
            match lookup(self.properties@, key@) {
                Some(v) => r matches Some(s) && s@ == v,
                None => r is None,
            },
    {
        let mut i: usize = self.properties.len();
        assert(self.properties@.take(i as int) =~= self.properties@);
        while i > 0
            invariant
                i <= self.properties.len(),
                lookup(self.properties@, key@) == lookup(self.properties@.take(i as int), key@),
            decreases i,
        {
            let ghost pre = self.properties@.take(i as int);
            assert(pre.drop_last() =~= self.properties@.take(i - 1));
            if text::same_text(self.properties[i - 1].0.as_str(), key) {
                return Some(self.properties[i - 1].1.as_str());
            }
            i = i - 1;
        }
        None
    }

    pub fn name(&self) -> (r: &str)
        ensures
            r@ == input_name(*self),
    {
        proof {
            reveal_strlit("application.name");
            reveal_strlit("application.process.binary");
        }
        match self.property("application.name") {
            Some(n) => n,
            None => match self.property("application.process.binary") {
                Some(b) => b,
                None => "Unknown application",
            },
        }
    }

    pub fn matches(&self, filter: &str) -> (r: bool)
        ensures
            r == input_matches(*self, filter@),
    {
        proof {
            reveal_strlit("application.process.binary");
        }
        let filter = text::to_lowercase(filter);
        let name = text::to_lowercase(self.name());
        if text::contains_str(name.as_str(), filter.as_str()) {
            return true;
        }
        match self.property("application.process.binary") {
            Some(b) => {
                let b = text::to_lowercase(b);
                text::contains_str(b.as_str(), filter.as_str())
            },
            None => false,
        }
    }
}

/// Some filter of `apps` matches stream `i`.
pub open spec fn any_app_matches(i: Input, apps: Seq<String>) -> bool {
    exists|k: int| 0 <= k < apps.len() && input_matches(i, #[trigger] apps[k]@)
}

/// Position of the first output with index `index`.
pub open spec fn sink_position(sinks: Seq<Sink>, index: u32) -> Option<int> {
    crate::seqs::first_index(sinks, |s: Sink| s.index == index)
}

/// Whole-output targets: each output (or only the one named `sink`) is recorded
/// through its monitor.
pub open spec fn sink_targets(sinks: Seq<Sink>, sink: Option<Seq<char>>) -> Seq<(Seq<char>, Option<u32>)>
    decreases sinks.len(),
{
    if sinks.len() == 0 {
        seq![]
    } else {
        let s = sinks.last();
        let rest = sink_targets(sinks.drop_last(), sink);
        if sink matches Some(n) && s.name@ != n {
            rest
        } else {
            rest.push((s.monitor_source@, None))
        }
    }
}

/// Per-stream targets: each stream that some filter matches, recorded through the
/// monitor of the output it plays on (streams whose output is unknown are skipped).
pub open spec fn stream_targets(inputs: Seq<Input>, sinks: Seq<Sink>, apps: Seq<String>) -> Seq<
    (Seq<char>, Option<u32>),
>
    decreases inputs.len(),
{
    if inputs.len() == 0 {
        seq![]
    } else {
        let i = inputs.last();
        let rest = stream_targets(inputs.drop_last(), sinks, apps);
        if any_app_matches(i, apps) {
            match sink_position(sinks, i.sink) {
                Some(p) => rest.push((sinks[p].monitor_source@, Some(i.index))),
                None => rest,
            }
        } else {
            rest
        }
    }
}

/// What `targets` selects.
pub open spec fn selected_targets(inv: Inventory, apps: Seq<String>, sink: Option<Seq<char>>) -> Seq<
    (Seq<char>, Option<u32>),
> {
    if apps.len() == 0 {
        sink_targets(inv.sinks@, sink)
    } else {
        stream_targets(inv.inputs@, inv.sinks@, apps)
    }
}

fn any_matches(input: &Input, apps: &[String]) -> (r: bool)
    ensures
        r == any_app_matches(*input, apps@),
{
    let mut k: usize = 0;
    while k < apps.len()
        invariant
            k <= apps.len(),
            forall|j: int| 0 <= j < k ==> !input_matches(*input, #[trigger] apps@[j]@),
        decreases apps.len() - k,
    {
        if input.matches(apps[k].as_str()) {
            return true;
        }
        k = k + 1;
    }
    false
}

fn find_sink(sinks: &Vec<Sink>, index: u32) -> (r: Option<usize>)
    ensures
        match sink_position(sinks@, index) {
            Some(p) => 0 <= p < sinks@.len() && (r matches Some(k) && k == p),
            None => r is None,
        },
{
    let ghost p = |s: Sink| s.index == index;
    let mut k: usize = 0;
    while k < sinks.len()
        invariant
            k <= sinks.len(),
            p == (|s: Sink| s.index == index),
            forall|j: int| 0 <= j < k ==> !p(#[trigger] sinks@[j]),
        decreases sinks.len() - k,
    {
        if sinks[k].index == index {
            proof {
                crate::seqs::lemma_first_index(sinks@, p, k as int);
            }
            return Some(k);
        }
        k = k + 1;
    }
    proof {
        crate::seqs::lemma_first_index(sinks@, p, k as int);
    }
    None
}

/// The monitors to record: with no application filters, every output (or only the
/// one named `sink`); otherwise every matching playback stream on the output it
/// currently plays to.
pub fn targets(inv: &Inventory, apps: &[String], sink: Option<&str>) -> (r: Vec<Target>)
    ensures
        r@.map_values(|t: Target| target_view(t)) == selected_targets(
            *inv,
            apps@,
            match sink {
                Some(n) => Some(n@),
                None => None,
            },
        ),
{
    let ghost want = match sink {
        Some(n) => Some(n@),
        None => None::<Seq<char>>,
    };
    let mut out: Vec<Target> = Vec::new();
    if apps.len() == 0 {
        let mut k: usize = 0;
        while k < inv.sinks.len()
            invariant
                k <= inv.sinks.len(),
                want == (match sink {
                    Some(n) => Some(n@),
                    None => None::<Seq<char>>,
                }),
                out@.map_values(|t: Target| target_view(t)) == sink_targets(
                    inv.sinks@.take(k as int),
                    want,
                ),
            decreases inv.sinks.len() - k,
        {
            let s = &inv.sinks[k];
            assert(inv.sinks@.take(k + 1).drop_last() =~= inv.sinks@.take(k as int));
            assert(inv.sinks@.take(k + 1).last() == *s);
            let keep = match sink {
                Some(n) => text::same_text(s.name.as_str(), n),
                None => true,
            };
            if keep {
                out.push(Target { monitor: s.monitor_source.clone(), input: None });
            }
            assert(out@.map_values(|t: Target| target_view(t)) =~= sink_targets(
                inv.sinks@.take(k + 1),
                want,
            ));
            k = k + 1;
        }
        assert(inv.sinks@.take(k as int) =~= inv.sinks@);
    } else {
        let mut k: usize = 0;
        while k < inv.inputs.len()
            invariant
                k <= inv.inputs.len(),
                apps@.len() > 0,
                out@.map_values(|t: Target| target_view(t)) == stream_targets(
                    inv.inputs@.take(k as int),
                    inv.sinks@,
                    apps@,
                ),
            decreases inv.inputs.len() - k,
        {
            let i = &inv.inputs[k];
            assert(inv.inputs@.take(k + 1).drop_last() =~= inv.inputs@.take(k as int));
            assert(inv.inputs@.take(k + 1).last() == *i);
            let ghost before = out@;
            if any_matches(i, apps) {
                match find_sink(&inv.sinks, i.sink) {
                    Some(p) => {
                        let t = Target { monitor: inv.sinks[p].monitor_source.clone(), input: Some(i.index) };
                        assert(target_view(t) == (inv.sinks@[p as int].monitor_source@, Some(i.index)));
                        out.push(t);
                        assert(out@.map_values(|t: Target| target_view(t)) =~= before.map_values(
                            |t: Target| target_view(t),
                        ).push(target_view(t)));
                    },
                    None => {},
                }
            }
            assert(out@.map_values(|t: Target| target_view(t)) =~= stream_targets(
                inv.inputs@.take(k + 1),
                inv.sinks@,
                apps@,
            ));
            k = k + 1;
        }
        assert(inv.inputs@.take(k as int) =~= inv.inputs@);
    }
    out
}

/// With no application filter, one target per output (or per output with the chosen
/// name), recording its monitor; with filters, at most one target per playback stream,
/// however many filters match it.
pub proof fn lemma_target_counts(inv: Inventory, apps: Seq<String>, sink: Option<Seq<char>>)
    ensures
        apps.len() == 0 && sink is None ==> selected_targets(inv, apps, sink).len() == inv.sinks@.len(),
        apps.len() > 0 ==> selected_targets(inv, apps, sink).len() <= inv.inputs@.len(),
{
    if apps.len() == 0 && sink is None {
        lemma_sink_targets_all(inv.sinks@);
    }
    if apps.len() > 0 {
        lemma_stream_targets_len(inv.inputs@, inv.sinks@, apps);
    }
}

proof fn lemma_sink_targets_all(sinks: Seq<Sink>)
    ensures
        sink_targets(sinks, None).len() == sinks.len(),
    decreases sinks.len(),
{
    if sinks.len() > 0 {
        lemma_sink_targets_all(sinks.drop_last());
    }
}

proof fn lemma_stream_targets_len(inputs: Seq<Input>, sinks: Seq<Sink>, apps: Seq<String>)
    ensures
        stream_targets(inputs, sinks, apps).len() <= inputs.len(),
    decreases inputs.len(),
{
    if inputs.len() > 0 {
        lemma_stream_targets_len(inputs.drop_last(), sinks, apps);
    }
}

/// Equality of two targets.
pub fn same_target(a: &Target, b: &Target) -> (r: bool)
    ensures
        r == (target_view(*a) == target_view(*b)),
{
    text::same_text(a.monitor.as_str(), b.monitor.as_str()) && a.input == b.input
}

/// Position of the first target in `ts` equal to `t`.
pub open spec fn target_position(ts: Seq<Target>, t: Target) -> Option<int> {
    crate::seqs::first_index(ts, |u: Target| target_view(u) == target_view(t))
}

/// Whether some target of `ts` equals `t`.
fn has_target(ts: &[Target], t: &Target) -> (r: bool)
    ensures
        r == exists|k: int| 0 <= k < ts@.len() && target_view(#[trigger] ts@[k]) == target_view(*t),
{
    let mut k: usize = 0;
    while k < ts.len()
        invariant
            k <= ts@.len(),
            forall|j: int| 0 <= j < k ==> target_view(#[trigger] ts@[j]) != target_view(*t),
        decreases ts.len() - k,
    {
        if same_target(&ts[k], t) {
            return true;
        }
        k = k + 1;
    }
    false
}

/// The captures to keep: each running capture whose target is still wanted.
pub open spec fn kept(current: Seq<Target>, running: Seq<bool>, wanted: Seq<Target>) -> Seq<bool> {
    Seq::new(
        current.len(),
        |i: int|
            running[i] && exists|k: int| 0 <= k < wanted.len() && target_view(#[trigger] wanted[k]) == target_view(current[i]),
    )
}

/// The wanted targets to start: in the order wanted, each target that no kept capture
/// records and that is not wanted earlier in the list.
pub open spec fn to_start(current: Seq<Target>, keep: Seq<bool>, wanted: Seq<Target>) -> Seq<int> {
    Seq::new(wanted.len(), |j: int| j).filter(
        |j: int|
            (forall|i: int| 0 <= i < current.len() && keep[i] ==> target_view(#[trigger] current[i]) != target_view(wanted[j]))
            && (forall|k: int| 0 <= k < j ==> target_view(#[trigger] wanted[k]) != target_view(wanted[j])),
    )
}

/// The decision of reconciling the captures with the wanted targets. `current` holds
/// the targets of the running captures and `running` whether each capture's recorder
/// is still alive. Returns which captures to keep and the positions in `wanted` of the
/// targets to start.
pub fn reconcile_plan(current: &Vec<Target>, running: &Vec<bool>, wanted: &[Target]) -> (r: (Vec<bool>, Vec<usize>))
    requires
        running.len() == current.len(),
    ensures
        r.0@ == kept(current@, running@, wanted@),
        r.1@.map_values(|j: usize| j as int) == to_start(current@, r.0@, wanted@),
{
    let mut keep: Vec<bool> = Vec::new();
    let mut i: usize = 0;
    while i < current.len()
        invariant
            i <= current.len(),
            running.len() == current.len(),
            keep@ == kept(current@, running@, wanted@).take(i as int),
        decreases current.len() - i,
    {
        let k = running[i] && has_target(wanted, &current[i]);
        keep.push(k);
        assert(keep@ =~= kept(current@, running@, wanted@).take(i + 1));
        i = i + 1;
    }
    assert(keep@ =~= kept(current@, running@, wanted@));
    let ghost pred = |j: int|
        (forall|i: int| 0 <= i < current@.len() && keep@[i] ==> target_view(#[trigger] current@[i]) != target_view(wanted@[j]))
        && (forall|k: int| 0 <= k < j ==> target_view(#[trigger] wanted@[k]) != target_view(wanted@[j]));
    let ghost idx = Seq::new(wanted@.len(), |j: int| j);
    let mut start: Vec<usize> = Vec::new();
    let mut j: usize = 0;
    while j < wanted.len()
        invariant
            j <= wanted@.len(),
            keep@.len() == current@.len(),
            idx == Seq::new(wanted@.len(), |j: int| j),
            pred == (|j: int|
                (forall|i: int| 0 <= i < current@.len() && keep@[i] ==> target_view(#[trigger] current@[i]) != target_view(wanted@[j]))
                && (forall|k: int| 0 <= k < j ==> target_view(#[trigger] wanted@[k]) != target_view(wanted@[j]))),
            start@.map_values(|j: usize| j as int) == idx.take(j as int).filter(pred),
        decreases wanted@.len() - j,
    {
        let mut recorded = false;
        let mut i: usize = 0;
        while i < current.len()
            invariant
                i <= current@.len(),
                j < wanted@.len(),
                keep@.len() == current@.len(),
                recorded == exists|x: int| 0 <= x < i && keep@[x] && target_view(#[trigger] current@[x]) == target_view(wanted@[j as int]),
            decreases current@.len() - i,
        {
            if keep[i] && same_target(&current[i], &wanted[j]) {
                recorded = true;
            }
            i = i + 1;
        }
        let mut earlier = false;
        let mut k: usize = 0;
        while k < j
            invariant
                k <= j,
                j < wanted@.len(),
                earlier == exists|x: int| 0 <= x < k && target_view(#[trigger] wanted@[x]) == target_view(wanted@[j as int]),
            decreases j - k,
        {
            if same_target(&wanted[k], &wanted[j]) {
                earlier = true;
            }
            k = k + 1;
        }
        proof {
            reveal(Seq::filter);
            assert(idx.take(j + 1).drop_last() =~= idx.take(j as int));
            assert(idx.take(j + 1).last() == j as int);
            assert(pred(j as int) == (!recorded && !earlier));
        }
        let ghost before = start@;
        if !recorded && !earlier {
            start.push(j);
            proof {
                crate::seqs::lemma_map_push(before, j, |j: usize| j as int);
                assert(start@ == before.push(j));
            }
        }
        j = j + 1;
    }
    assert(idx.take(j as int) =~= idx);
    (keep, start)
}

} // verus!
