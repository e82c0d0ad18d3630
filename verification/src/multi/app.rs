//! Application state of the compact visualizer: the source list, the settings panel
//! and the keys.
use vstd::prelude::*;
use crate::multi::audio::{input_matches, input_name, Input, Inventory};
use crate::multi::config::{
    mode_at, next_mode, next_quality, texts, theme_names, Config, Mode, Quality,
};
use crate::seqs::{first_index, lemma_first_index, lemma_first_index_found, lemma_map_push, lemma_take_push};
use crate::order::{lemma_insert_sorted_at, sorted_by, text_le, text_le_exec};
use crate::text::{self, decimal, eq_ascii_ci, lower_case};

verus! {

/// The predicate "is the text `t`".
pub open spec fn equals_text(t: Seq<char>) -> spec_fn(Seq<char>) -> bool {
    |n: Seq<char>| n == t
}

/// Position of `t` among the theme names; an unknown name counts as the first.
pub open spec fn theme_position(t: Seq<char>) -> int {
    match first_index(theme_names(), equals_text(t)) {
        Some(i) => i,
        None => 0,
    }
}

/// The theme `direction` steps from `t`, wrapping around the list.
pub open spec fn stepped_theme(t: Seq<char>, direction: int) -> Seq<char> {
    theme_names()[(theme_position(t) + direction) % 5]
}

/// `c` with another theme.
pub open spec fn with_theme(c: Config, t: String) -> Config {
    Config { theme: t, ..c }
}

/// Which fractional setting a settings-panel step leaves to the caller.
#[derive(Debug, Clone, Copy, PartialEq, Eq, Structural)]
pub enum Adjust {
    /// The step was applied, or the line has nothing to change.
    Done,
    /// Multiply the sensitivity by 1.1 (`up`) or divide it by 1.1, then clamp to 0.05..=20.
    Sensitivity { up: bool },
    /// Add 0.05 times the direction to the smoothing, then clamp to 0..=0.98.
    Smoothing { direction: i32 },
}

/// The value `v + d` clamped to `lo..=hi`.
pub open spec fn clamped(v: int, d: int, lo: int, hi: int) -> int {
    if v + d < lo {
        lo
    } else if v + d > hi {
        hi
    } else {
        v + d
    }
}

/// Quality three steps ahead, which is one step back.
pub open spec fn prev_quality(q: Quality) -> Quality {
    next_quality(next_quality(next_quality(q)))
}

/// The configuration after a settings-panel step on line `cursor` in `direction`.
pub open spec fn setting_after(c: Config, cursor: int, direction: int) -> Config {
    if cursor == 2 {
        Config {
            quality: if direction > 0 {
                next_quality(c.quality)
            } else {
                prev_quality(c.quality)
            },
            ..c
        }
    } else if cursor == 3 {
        Config { fps: clamped(c.fps as int, 5 * direction, 10, 144) as u16, ..c }
    } else if cursor == 4 {
        Config { auto_gain: !c.auto_gain, ..c }
    } else if cursor == 6 {
        Config { bar_width: clamped(c.bar_width as int, direction, 1, 8) as u16, ..c }
    } else if cursor == 7 {
        Config { bar_gap: clamped(c.bar_gap as int, direction, 0, 4) as u16, ..c }
    } else if cursor == 8 {
        Config { show_peaks: !c.show_peaks, ..c }
    } else {
        c
    }
}

/// What a settings-panel step leaves to the caller.
pub open spec fn setting_adjust(cursor: int, direction: i32) -> Adjust {
    if cursor == 0 {
        Adjust::Sensitivity { up: direction > 0 }
    } else if cursor == 1 {
        Adjust::Smoothing { direction }
    } else {
        Adjust::Done
    }
}

fn clamp_step(v: i64, d: i64, lo: i64, hi: i64) -> (r: i64)
    requires
        i64::MIN / 2 < v < i64::MAX / 2,
        i64::MIN / 2 < d < i64::MAX / 2,
    ensures
        r == clamped(v as int, d as int, lo as int, hi as int),
{
    let s = v + d;
    if s < lo {
        lo
    } else if s > hi {
        hi
    } else {
        s
    }
}

/// The theme name at position `k`.
pub fn theme_name(k: usize) -> (r: &'static str)
    requires
        k < 5,
    ensures
        r@ == theme_names()[k as int],
{
    proof {
        reveal_strlit("aurora");
        reveal_strlit("fire");
        reveal_strlit("ocean");
        reveal_strlit("mono");
        reveal_strlit("custom");
    }
    if k == 0 {
        "aurora"
    } else if k == 1 {
        "fire"
    } else if k == 2 {
        "ocean"
    } else if k == 3 {
        "mono"
    } else {
        "custom"
    }
}

/// Position of `t` among the theme names, or 0.
pub fn theme_index(t: &str) -> (r: usize)
    ensures
        r == theme_position(t@),
        r < 5,
{
    let ghost p = equals_text(t@);
    let mut i: usize = 0;
    while i < 5
        invariant
            i <= 5,
            p == equals_text(t@),
            forall|k: int| 0 <= k < i ==> !p(#[trigger] theme_names()[k]),
        decreases 5 - i,
    {
        if text::same_text(theme_name(i), t) {
            proof {
                lemma_first_index(theme_names(), p, i as int);
            }
            return i;
        }
        i = i + 1;
    }
    proof {
        lemma_first_index(theme_names(), p, 5);
    }
    0
}

impl Config {
    /// Moves the theme `direction` steps through the list of themes (an unknown theme
    /// counts as the first).
    pub fn theme_step(&mut self, direction: i32)
        ensures
            final(self).theme@ == stepped_theme(old(self).theme@, direction as int),
            *final(self) == with_theme(*old(self), final(self).theme),
    {
        let found = theme_index(self.theme.as_str());
        let k = (found as i64 + direction as i64) % 5;
        let k: usize = if k < 0 {
            (k + 5) as usize
        } else {
            k as usize
        };
        assert(k == (theme_position(self.theme@) + direction as int) % 5);
        self.theme = text::owned(theme_name(k));
    }

    /// One step on line `cursor` of the settings panel: lines 2 to 8 change the
    /// quality, frame rate, automatic gain, theme, bar width, bar gap and peak markers;
    /// lines 0 and 1 (sensitivity, smoothing) are returned for the caller to apply.
    pub fn setting(&mut self, cursor: usize, direction: i32) -> (r: Adjust)
        ensures
            r == setting_adjust(cursor as int, direction),
            cursor == 5 ==> final(self).theme@ == stepped_theme(old(self).theme@, direction as int)
                && *final(self) == with_theme(*old(self), final(self).theme),
            cursor != 5 ==> *final(self) == setting_after(*old(self), cursor as int, direction as int),
    {
        if cursor == 0 {
            Adjust::Sensitivity { up: direction > 0 }
        } else if cursor == 1 {
            Adjust::Smoothing { direction }
        } else if cursor == 2 {
            if direction > 0 {
                self.quality = self.quality.next();
            } else {
                self.quality = self.quality.next().next().next();
            }
            Adjust::Done
        } else if cursor == 3 {
            self.fps = clamp_step(self.fps as i64, 5 * (direction as i64), 10, 144) as u16;
            Adjust::Done
        } else if cursor == 4 {
            self.auto_gain = !self.auto_gain;
            Adjust::Done
        } else if cursor == 5 {
            self.theme_step(direction);
            Adjust::Done
        } else if cursor == 6 {
            self.bar_width = clamp_step(self.bar_width as i64, direction as i64, 1, 8) as u16;
            Adjust::Done
        } else if cursor == 7 {
            self.bar_gap = clamp_step(self.bar_gap as i64, direction as i64, 0, 4) as u16;
            Adjust::Done
        } else if cursor == 8 {
            self.show_peaks = !self.show_peaks;
            Adjust::Done
        } else {
            Adjust::Done
        }
    }
}

/// Stepping the theme forwards and then back returns to a known theme.
pub proof fn lemma_theme_step_undo(t: Seq<char>)
    requires
        theme_names().contains(t),
    ensures
        stepped_theme(stepped_theme(t, 1), -1) == t,
        stepped_theme(stepped_theme(t, -1), 1) == t,
{
    let names = theme_names();
    let i = choose|i: int| 0 <= i < names.len() && names[i] == t;
    let p = equals_text(t);
    reveal_strlit("aurora");
    reveal_strlit("fire");
    reveal_strlit("ocean");
    reveal_strlit("mono");
    reveal_strlit("custom");
    assert forall|a: int, b: int| 0 <= a < 5 && 0 <= b < 5 && a != b implies names[a] != names[b] by {
        assert(names[a][0] != names[b][0] || names[a].len() != names[b].len());
    }
    assert forall|k: int| 0 <= k < i implies !p(#[trigger] names[k]) by {}
    lemma_first_index(names, p, i);
    assert(theme_position(t) == i);
    let j = (i + 1) % 5;
    let pj = equals_text(names[j]);
    assert forall|k: int| 0 <= k < j implies !pj(#[trigger] names[k]) by {}
    lemma_first_index(names, pj, j);
    let m = (i + 4) % 5;
    let pm = equals_text(names[m]);
    assert forall|k: int| 0 <= k < m implies !pm(#[trigger] names[k]) by {}
    lemma_first_index(names, pm, m);
}

/// Returning to line 2 in the other direction undoes a quality step; frame rate, bar
/// width and gap steps inside their ranges are undone likewise; the flags toggle back.
pub proof fn lemma_setting_undo(c: Config, cursor: int)
    requires
        cursor == 2 || cursor == 4 || cursor == 8 || (cursor == 3 && 15 <= c.fps <= 139) || (
        cursor == 6 && 1 <= c.bar_width <= 7) || (cursor == 7 && c.bar_gap <= 3),
    ensures
        setting_after(setting_after(c, cursor, 1), cursor, -1) == c,
{
}

/// Number of analysis bands for a frame `width` columns wide: one per bar slot in
/// spectrum mode, 96 spokes in radial mode, otherwise one per column within 32..=256.
pub open spec fn band_count_for(mode: Mode, width: int, bar_width: int, bar_gap: int) -> int {
    let inner = if width >= 2 {
        width - 2
    } else {
        0
    };
    match mode {
        Mode::Spectrum => if inner / (bar_width + bar_gap) >= 1 {
            inner / (bar_width + bar_gap)
        } else {
            1
        },
        Mode::Radial => 96,
        _ => if inner < 32 {
            32
        } else if inner > 256 {
            256
        } else {
            inner
        },
    }
}

pub fn band_count(mode: Mode, width: u16, bar_width: u16, bar_gap: u16) -> (r: usize)
    requires
        0 < bar_width + bar_gap <= u16::MAX,
    ensures
        r == band_count_for(mode, width as int, bar_width as int, bar_gap as int),
{
    let inner = width.saturating_sub(2);
    match mode {
        Mode::Spectrum => {
            let n = inner / (bar_width + bar_gap);
            if n >= 1 {
                n as usize
            } else {
                1
            }
        },
        Mode::Radial => 96,
        _ => {
            if inner < 32 {
                32
            } else if inner > 256 {
                256
            } else {
                inner as usize
            }
        },
    }
}

/// The lower-case form of a name, by which the application names are sorted.
pub open spec fn lower_key() -> spec_fn(Seq<char>) -> Seq<char> {
    |s: Seq<char>| lower_case(s)
}

/// Sorts names by their lower-case form; names whose lower-case forms are equal keep
/// their order.
pub fn sort_by_lower(names: &Vec<String>) -> (r: Vec<String>)
    ensures
        texts(r@) == sorted_by(texts(names@), lower_key()),
{
    let mut out: Vec<String> = Vec::new();
    let mut keys: Vec<String> = Vec::new();
    let mut i: usize = 0;
    assert(texts(names@).take(0) =~= Seq::<Seq<char>>::empty());
    while i < names.len()
        invariant
            i <= names.len(),
            out.len() == keys.len(),
            forall|k: int| 0 <= k < keys.len() ==> (#[trigger] keys@[k])@ == lower_case(out@[k]@),
            texts(out@) == sorted_by(texts(names@).take(i as int), lower_key()),
        decreases names.len() - i,
    {
        let x = names[i].clone();
        let kx = text::to_lowercase(x.as_str());
        let mut j: usize = out.len();
        while j > 0 && !text_le_exec(keys[j - 1].as_str(), kx.as_str())
            invariant
                j <= out.len(),
                out.len() == keys.len(),
                kx@ == lower_case(x@),
                forall|k: int| 0 <= k < keys.len() ==> (#[trigger] keys@[k])@ == lower_case(out@[k]@),
                forall|k: int|
                    j <= k < out.len() ==> !text_le(lower_case(#[trigger] out@[k]@), lower_case(x@)),
            decreases j,
        {
            j = j - 1;
        }
        proof {
            let ghost s = texts(out@);
            assert forall|k: int| j <= k < s.len() implies !text_le(
                lower_key()(#[trigger] s[k]),
                lower_key()(x@),
            ) by {
                assert(s[k] == out@[k]@);
            }
            if j > 0 {
                assert(keys@[j - 1]@ == lower_case(out@[j - 1]@));
            }
            lemma_insert_sorted_at(s, x@, lower_key(), j as int);
            assert(texts(names@).take(i + 1).drop_last() =~= texts(names@).take(i as int));
            assert(texts(names@).take(i + 1).last() == x@);
        }
        let ghost before = out@;
        let ghost keys_before = keys@;
        out.insert(j, x);
        keys.insert(j, kx);
        assert(texts(out@) =~= texts(before).insert(j as int, names@[i as int]@));
        assert forall|k: int| 0 <= k < keys.len() implies (#[trigger] keys@[k])@ == lower_case(out@[k]@) by {
            if k > j {
                assert(keys@[k] == keys_before[k - 1]);
                assert(out@[k] == before[k - 1]);
            } else if k < j {
                assert(keys@[k] == keys_before[k]);
                assert(out@[k] == before[k]);
            }
        }
        i = i + 1;
    }
    assert(texts(names@).take(i as int) =~= texts(names@));
    out
}

/// `s` with each name that equals the name kept before it, ignoring ASCII case,
/// dropped.
pub open spec fn dedup_ci(s: Seq<Seq<char>>) -> Seq<Seq<char>>
    decreases s.len(),
{
    if s.len() == 0 {
        s
    } else {
        let d = dedup_ci(s.drop_last());
        if d.len() > 0 && eq_ascii_ci(s.last(), d.last()) {
            d
        } else {
            d.push(s.last())
        }
    }
}

/// Drops each name that equals, ignoring ASCII case, the name kept just before it.
pub fn dedup_names(names: Vec<String>) -> (r: Vec<String>)
    ensures
        texts(r@) == dedup_ci(texts(names@)),
{
    let mut out: Vec<String> = Vec::new();
    let mut i: usize = 0;
    assert(texts(names@).take(0) =~= Seq::<Seq<char>>::empty());
    while i < names.len()
        invariant
            i <= names.len(),
            texts(out@) == dedup_ci(texts(names@).take(i as int)),
        decreases names.len() - i,
    {
        assert(texts(names@).take(i + 1).drop_last() =~= texts(names@).take(i as int));
        assert(texts(names@).take(i + 1).last() == names@[i as int]@);
        let n = out.len();
        let same = n > 0 && text::eq_ignore_ascii_case(names[i].as_str(), out[n - 1].as_str());
        if !same {
            let ghost before = out@;
            out.push(names[i].clone());
            assert(texts(out@) =~= texts(before).push(names@[i as int]@));
        }
        i = i + 1;
    }
    assert(texts(names@).take(i as int) =~= texts(names@));
    out
}

/// What an entry of the source list selects.
#[derive(Debug, Clone)]
pub enum SourceKind {
    All,
    Sink(String),
    App(String),
}

/// Mathematical value of a [`SourceKind`].
pub enum SourceKindView {
    All,
    Sink(Seq<char>),
    App(Seq<char>),
}

impl View for SourceKind {
    type V = SourceKindView;

    open spec fn view(&self) -> SourceKindView {
        match self {
            SourceKind::All => SourceKindView::All,
            SourceKind::Sink(s) => SourceKindView::Sink(s@),
            SourceKind::App(s) => SourceKindView::App(s@),
        }
    }
}

/// A line of the source list: its text, whether it is the current choice, and what
/// it selects.
#[derive(Debug, Clone)]
pub struct SourceOption {
    pub label: String,
    pub selected: bool,
    pub kind: SourceKind,
}

pub open spec fn option_view(o: SourceOption) -> (Seq<char>, bool, SourceKindView) {
    (o.label@, o.selected, o.kind@)
}

/// Number of streams that `name` matches, and how many of them are playing.
pub open spec fn stream_counts(inputs: Seq<Input>, name: Seq<char>) -> (nat, nat)
    decreases inputs.len(),
{
    if inputs.len() == 0 {
        (0, 0)
    } else {
        let (t, a) = stream_counts(inputs.drop_last(), name);
        let i = inputs.last();
        if input_matches(i, name) {
            (t + 1, if i.corked {
                a
            } else {
                a + 1
            })
        } else {
            (t, a)
        }
    }
}

/// The application names of the list: every stream's name and every filter, sorted by
/// lower-case form, with neighbours equal up to ASCII case merged.
pub open spec fn app_names(c: Config, inv: Inventory) -> Seq<Seq<char>> {
    dedup_ci(sorted_by(inv.inputs@.map_values(|i: Input| input_name(i)) + texts(c.apps@), lower_key()))
}

/// The line for an application name.
pub open spec fn app_option(c: Config, inv: Inventory, n: Seq<char>) -> (Seq<char>, bool, SourceKindView) {
    let (t, a) = stream_counts(inv.inputs@, n);
    (
        "App · "@ + n + "  ("@ + decimal(t) + " streams, "@ + decimal(a) + " active)"@,
        exists|k: int| 0 <= k < c.apps.len() && eq_ascii_ci(#[trigger] c.apps@[k]@, n),
        SourceKindView::App(n),
    )
}

/// The line for an output.
pub open spec fn sink_option(c: Config, s: crate::multi::audio::Sink) -> (Seq<char>, bool, SourceKindView) {
    (
        "Output · "@ + s.description@,
        c.apps.len() == 0 && (c.sink matches Some(n) && n@ == s.name@),
        SourceKindView::Sink(s.name@),
    )
}

/// The source list: all outputs together, each output, then each application name.
pub open spec fn options_for(c: Config, inv: Inventory) -> Seq<(Seq<char>, bool, SourceKindView)> {
    seq![("All outputs / combined system audio"@, c.apps.len() == 0 && c.sink is None, SourceKindView::All)]
        + inv.sinks@.map_values(|s: crate::multi::audio::Sink| sink_option(c, s)) + app_names(c, inv).map_values(|n: Seq<char>| app_option(c, inv, n))
}

fn stream_count_exec(inputs: &Vec<Input>, name: &str) -> (r: (usize, usize))
    ensures
        r.0 as nat == stream_counts(inputs@, name@).0,
        r.1 as nat == stream_counts(inputs@, name@).1,
{
    let mut t: usize = 0;
    let mut a: usize = 0;
    let mut k: usize = 0;
    while k < inputs.len()
        invariant
            k <= inputs.len(),
            t <= k,
            a <= t,
            (t as nat, a as nat) == stream_counts(inputs@.take(k as int), name@),
        decreases inputs.len() - k,
    {
        assert(inputs@.take(k + 1).drop_last() =~= inputs@.take(k as int));
        assert(inputs@.take(k + 1).last() == inputs@[k as int]);
        if inputs[k].matches(name) {
            t = t + 1;
            if !inputs[k].corked {
                a = a + 1;
            }
        }
        k = k + 1;
    }
    assert(inputs@.take(k as int) =~= inputs@);
    (t, a)
}

fn any_filter_is(apps: &Vec<String>, name: &str) -> (r: bool)
    ensures
        r == exists|k: int| 0 <= k < apps.len() && eq_ascii_ci(#[trigger] apps@[k]@, name@),
{
    let mut k: usize = 0;
    while k < apps.len()
        invariant
            k <= apps.len(),
            forall|j: int| 0 <= j < k ==> !eq_ascii_ci(#[trigger] apps@[j]@, name@),
        decreases apps.len() - k,
    {
        if text::eq_ignore_ascii_case(apps[k].as_str(), name) {
            return true;
        }
        k = k + 1;
    }
    false
}

/// The lines of the source list.
pub fn source_options(c: &Config, inv: &Inventory) -> (r: Vec<SourceOption>)
    ensures
        r@.map_values(|o: SourceOption| option_view(o)) == options_for(*c, *inv),
{
    let mut out: Vec<SourceOption> = Vec::new();
    out.push(
        SourceOption {
            label: text::owned("All outputs / combined system audio"),
            selected: c.apps.len() == 0 && c.sink.is_none(),
            kind: SourceKind::All,
        },
    );
    let ghost head = seq![
        ("All outputs / combined system audio"@, c.apps.len() == 0 && c.sink is None, SourceKindView::All),
    ];
    assert(out@.map_values(|o: SourceOption| option_view(o)) =~= head);
    let ghost sink_line = |s: crate::multi::audio::Sink| sink_option(*c, s);
    let mut k: usize = 0;
    while k < inv.sinks.len()
        invariant
            k <= inv.sinks.len(),
            sink_line == (|s: crate::multi::audio::Sink| sink_option(*c, s)),
            out@.map_values(|o: SourceOption| option_view(o)) == head + inv.sinks@.take(
                k as int,
            ).map_values(sink_line),
        decreases inv.sinks.len() - k,
    {
        let s = &inv.sinks[k];
        let selected = c.apps.len() == 0 && match &c.sink {
            Some(n) => text::same_text(n.as_str(), s.name.as_str()),
            None => false,
        };
        let ghost before = out@;
        out.push(
            SourceOption {
                label: text::concat("Output · ", s.description.as_str()),
                selected,
                kind: SourceKind::Sink(s.name.clone()),
            },
        );
        proof {
            lemma_take_push(inv.sinks@, k as int);
            lemma_map_push(inv.sinks@.take(k as int), inv.sinks@[k as int], sink_line);
            lemma_map_push(before, out@.last(), |o: SourceOption| option_view(o));
            assert(out@ == before.push(out@.last()));
            assert(option_view(out@.last()) == sink_line(inv.sinks@[k as int]));
        }
        assert(out@.map_values(|o: SourceOption| option_view(o)) =~= head + inv.sinks@.take(
            k + 1,
        ).map_values(sink_line));
        k = k + 1;
    }
    assert(inv.sinks@.take(k as int) =~= inv.sinks@);
    let mut names: Vec<String> = Vec::new();
    let mut j: usize = 0;
    while j < inv.inputs.len()
        invariant
            j <= inv.inputs.len(),
            texts(names@) == inv.inputs@.take(j as int).map_values(|i: Input| input_name(i)),
        decreases inv.inputs.len() - j,
    {
        let ghost before = names@;
        names.push(text::owned(inv.inputs[j].name()));
        proof {
            lemma_take_push(inv.inputs@, j as int);
            lemma_map_push(inv.inputs@.take(j as int), inv.inputs@[j as int], |i: Input| input_name(i));
            lemma_map_push(before, names@.last(), |s: String| s@);
            assert(names@ == before.push(names@.last()));
        }
        assert(texts(names@) =~= inv.inputs@.take(j + 1).map_values(|i: Input| input_name(i)));
        j = j + 1;
    }
    let mut a: usize = 0;
    let ghost stream_names = inv.inputs@.map_values(|i: Input| input_name(i));
    assert(inv.inputs@.take(j as int) =~= inv.inputs@);
    while a < c.apps.len()
        invariant
            a <= c.apps.len(),
            texts(names@) == stream_names + texts(c.apps@).take(a as int),
        decreases c.apps.len() - a,
    {
        let ghost before = names@;
        names.push(c.apps[a].clone());
        proof {
            lemma_take_push(texts(c.apps@), a as int);
            lemma_map_push(before, names@.last(), |s: String| s@);
            assert(names@ == before.push(names@.last()));
        }
        assert(texts(names@) =~= stream_names + texts(c.apps@).take(a + 1));
        a = a + 1;
    }
    assert(texts(c.apps@).take(a as int) =~= texts(c.apps@));
    let sorted = sort_by_lower(&names);
    let merged = dedup_names(sorted);
    let ghost mid = out@.map_values(|o: SourceOption| option_view(o));
    let mut m: usize = 0;
    while m < merged.len()
        invariant
            m <= merged.len(),
            texts(merged@) == app_names(*c, *inv),
            out@.map_values(|o: SourceOption| option_view(o)) == mid + texts(merged@).take(
                m as int,
            ).map_values(|n: Seq<char>| app_option(*c, *inv, n)),
        decreases merged.len() - m,
    {
        let name = merged[m].as_str();
        let (t, act) = stream_count_exec(&inv.inputs, name);
        let mut label = text::concat("App · ", name);
        label = text::concat(label.as_str(), "  (");
        label = text::concat(label.as_str(), text::decimal_text(t as u64).as_str());
        label = text::concat(label.as_str(), " streams, ");
        label = text::concat(label.as_str(), text::decimal_text(act as u64).as_str());
        label = text::concat(label.as_str(), " active)");
        let selected = any_filter_is(&c.apps, name);
        let ghost before = out@;
        out.push(SourceOption { label, selected, kind: SourceKind::App(merged[m].clone()) });
        assert(texts(merged@)[m as int] == merged@[m as int]@);
        proof {
            lemma_take_push(texts(merged@), m as int);
            lemma_map_push(
                texts(merged@).take(m as int),
                texts(merged@)[m as int],
                |n: Seq<char>| app_option(*c, *inv, n),
            );
            lemma_map_push(before, out@.last(), |o: SourceOption| option_view(o));
            assert(out@ == before.push(out@.last()));
        }
        assert(out@.map_values(|o: SourceOption| option_view(o)) =~= mid + texts(merged@).take(
            m + 1,
        ).map_values(|n: Seq<char>| app_option(*c, *inv, n)));
        m = m + 1;
    }
    assert(texts(merged@).take(m as int) =~= texts(merged@));
    out
}

/// `s` joined with `sep` between neighbours.
pub open spec fn joined(s: Seq<Seq<char>>, sep: Seq<char>) -> Seq<char>
    decreases s.len(),
{
    if s.len() == 0 {
        seq![]
    } else if s.len() == 1 {
        s[0]
    } else {
        joined(s.drop_last(), sep) + sep + s.last()
    }
}

/// Joins the texts of `v` with `sep` (`[String]::join`).
pub fn join(v: &Vec<String>, sep: &str) -> (r: String)
    ensures
        r@ == joined(texts(v@), sep@),
{
    if v.len() == 0 {
        return String::new();
    }
    let mut out = v[0].clone();
    let mut k: usize = 1;
    assert(texts(v@).take(1) =~= seq![v@[0]@]);
    while k < v.len()
        invariant
            1 <= k <= v.len(),
            out@ == joined(texts(v@).take(k as int), sep@),
        decreases v.len() - k,
    {
        assert(texts(v@).take(k + 1).drop_last() =~= texts(v@).take(k as int));
        assert(texts(v@).take(k + 1).last() == v@[k as int]@);
        out = text::concat3(out.as_str(), sep, v[k].as_str());
        k = k + 1;
    }
    assert(texts(v@).take(k as int) =~= texts(v@));
    out
}

/// The predicate "is the output named `n`".
pub open spec fn sink_called(n: Seq<char>) -> spec_fn(crate::multi::audio::Sink) -> bool {
    |s: crate::multi::audio::Sink| s.name@ == n
}

/// The line naming what is captured: the demo, the joined application filters, the
/// chosen output's description (or its name when it is not present), or all outputs.
pub open spec fn source_label_for(c: Config, inv: Inventory, demo: bool) -> Seq<char> {
    if demo {
        "Stereo demo"@
    } else if c.apps.len() > 0 {
        joined(texts(c.apps@), " + "@)
    } else {
        match c.sink {
            Some(n) => match first_index(inv.sinks@, sink_called(n@)) {
                Some(i) => inv.sinks@[i].description@,
                None => n@,
            },
            None => "All outputs"@,
        }
    }
}

pub fn source_label(c: &Config, inv: &Inventory, demo: bool) -> (r: String)
    ensures
        r@ == source_label_for(*c, *inv, demo),
{
    if demo {
        text::owned("Stereo demo")
    } else if c.apps.len() > 0 {
        join(&c.apps, " + ")
    } else {
        match &c.sink {
            Some(n) => {
                let ghost p = sink_called(n@);
                let mut k: usize = 0;
                while k < inv.sinks.len()
                    invariant
                        k <= inv.sinks.len(),
                        p == sink_called(n@),
                        c.sink == Some(*n),
                        !demo,
                        c.apps.len() == 0,
                        forall|j: int| 0 <= j < k ==> !p(#[trigger] inv.sinks@[j]),
                    decreases inv.sinks.len() - k,
                {
                    if text::same_text(inv.sinks[k].name.as_str(), n.as_str()) {
                        proof {
                            lemma_first_index(inv.sinks@, p, k as int);
                        }
                        return inv.sinks[k].description.clone();
                    }
                    k = k + 1;
                }
                proof {
                    lemma_first_index(inv.sinks@, p, k as int);
                }
                n.clone()
            },
            None => text::owned("All outputs"),
        }
    }
}

/// Every setting but the captured sources is the same in `a` and `b`.
pub open spec fn same_but_sources(a: Config, b: Config) -> bool {
    &&& a.mode == b.mode
    &&& a.quality == b.quality
    &&& a.fps == b.fps
    &&& a.auto_gain == b.auto_gain
    &&& a.bar_width == b.bar_width
    &&& a.bar_gap == b.bar_gap
    &&& a.theme == b.theme
    &&& a.background == b.background
    &&& a.foreground == b.foreground
    &&& a.gradient == b.gradient
    &&& a.show_peaks == b.show_peaks
}

/// `new` is `old` after choosing a line of the source list that selects `kind` and
/// is marked `selected`: all outputs, one output, or toggling an application filter.
pub open spec fn chosen(old: Config, new: Config, kind: SourceKindView, selected: bool) -> bool {
    &&& same_but_sources(old, new)
    &&& match kind {
        SourceKindView::All => new.apps@.len() == 0 && new.sink is None,
        SourceKindView::Sink(n) => new.apps@.len() == 0 && (new.sink matches Some(s) && s@ == n),
        SourceKindView::App(n) => new.sink is None && texts(new.apps@) == (if selected {
            texts(old.apps@).filter(|a: Seq<char>| !eq_ascii_ci(a, n))
        } else {
            texts(old.apps@).push(n)
        }),
    }
}

/// `new` is `old` after choosing line `cursor` of the source list (no change past its
/// end).
pub open spec fn chosen_at(old: Config, new: Config, inv: Inventory, cursor: int) -> bool {
    let opts = options_for(old, inv);
    if 0 <= cursor < opts.len() {
        chosen(old, new, opts[cursor].2, opts[cursor].1)
    } else {
        new == old
    }
}

fn without_filter(apps: &Vec<String>, name: &str) -> (r: Vec<String>)
    ensures
        texts(r@) == texts(apps@).filter(|a: Seq<char>| !eq_ascii_ci(a, name@)),
{
    let ghost keep = |a: Seq<char>| !eq_ascii_ci(a, name@);
    let mut out: Vec<String> = Vec::new();
    let mut k: usize = 0;
    while k < apps.len()
        invariant
            k <= apps.len(),
            keep == (|a: Seq<char>| !eq_ascii_ci(a, name@)),
            texts(out@) == texts(apps@).take(k as int).filter(keep),
        decreases apps.len() - k,
    {
        assert(texts(apps@).take(k + 1).drop_last() =~= texts(apps@).take(k as int));
        assert(texts(apps@).take(k + 1).last() == apps@[k as int]@);
        let ghost prev = texts(apps@).take(k as int).filter(keep);
        proof {
            reveal(Seq::filter);
        }
        assert(texts(apps@).take(k + 1).filter(keep) == (if keep(apps@[k as int]@) {
            prev.push(apps@[k as int]@)
        } else {
            prev
        }));
        if !text::eq_ignore_ascii_case(apps[k].as_str(), name) {
            let ghost before = out@;
            out.push(apps[k].clone());
            proof {
                lemma_map_push(before, out@.last(), |s: String| s@);
                assert(out@ == before.push(out@.last()));
            }
        }
        assert(texts(out@) =~= texts(apps@).take(k + 1).filter(keep));
        k = k + 1;
    }
    assert(texts(apps@).take(k as int) =~= texts(apps@));
    out
}

impl Config {
    /// Applies line `cursor` of the source list; past its end nothing changes.
    pub fn choose_source(&mut self, inv: &Inventory, cursor: usize)
        ensures
            chosen_at(*old(self), *final(self), *inv, cursor as int),
    {
        let options = source_options(self, inv);
        if cursor < options.len() {
            let option = &options[cursor];
            proof {
                assert(option_view(options@[cursor as int]) == options_for(*old(self), *inv)[cursor as int]);
            }
            match &option.kind {
                SourceKind::All => {
                    self.apps = Vec::new();
                    self.sink = None;
                },
                SourceKind::Sink(s) => {
                    self.apps = Vec::new();
                    self.sink = Some(s.clone());
                },
                SourceKind::App(name) => {
                    self.sink = None;
                    if option.selected {
                        self.apps = without_filter(&self.apps, name.as_str());
                    } else {
                        let ghost before = self.apps@;
                        self.apps.push(name.clone());
                        proof {
                            lemma_map_push(before, self.apps@.last(), |s: String| s@);
                            assert(self.apps@ == before.push(self.apps@.last()));
                        }
                    }
                },
            }
        }
    }
}

proof fn lemma_dedup_from(s: Seq<Seq<char>>)
    ensures
        forall|i: int| 0 <= i < dedup_ci(s).len() ==> s.contains(#[trigger] dedup_ci(s)[i]),
        dedup_ci(s).len() <= s.len(),
        s.len() > 0 ==> dedup_ci(s).len() > 0,
    decreases s.len(),
{
    if s.len() > 0 {
        let t = s.drop_last();
        lemma_dedup_from(t);
        let d = dedup_ci(t);
        assert forall|i: int| 0 <= i < dedup_ci(s).len() implies s.contains(#[trigger] dedup_ci(s)[i]) by {
            if i < d.len() {
                assert(t.contains(d[i]));
                let k = choose|k: int| 0 <= k < t.len() && t[k] == d[i];
                assert(s[k] == t[k]);
            } else {
                assert(s[s.len() - 1] == s.last());
            }
        }
    }
}

/// Merging neighbours keeps an ordered list ordered, and leaves no two neighbours
/// equal up to ASCII case.
pub proof fn lemma_dedup_ordered(s: Seq<Seq<char>>, key: spec_fn(Seq<char>) -> Seq<char>)
    requires
        crate::order::keys_ascending(s, key),
    ensures
        crate::order::keys_ascending(dedup_ci(s), key),
        forall|i: int| 0 <= i < dedup_ci(s).len() - 1 ==> !eq_ascii_ci(#[trigger] dedup_ci(s)[i], dedup_ci(s)[i + 1]),
    decreases s.len(),
{
    if s.len() > 0 {
        let t = s.drop_last();
        assert forall|i: int, j: int| 0 <= i < j < t.len() implies text_le(key(#[trigger] t[i]), key(#[trigger] t[j])) by {
            assert(t[i] == s[i] && t[j] == s[j]);
        }
        lemma_dedup_ordered(t, key);
        lemma_dedup_from(t);
        let d = dedup_ci(t);
        if !(d.len() > 0 && eq_ascii_ci(s.last(), d.last())) {
            let r = d.push(s.last());
            assert forall|i: int| 0 <= i < d.len() implies text_le(key(#[trigger] d[i]), key(s.last())) by {
                assert(t.contains(d[i]));
                let k = choose|k: int| 0 <= k < t.len() && t[k] == d[i];
                assert(s[k] == t[k]);
                assert(s[s.len() - 1] == s.last());
            }
            assert forall|i: int, j: int| 0 <= i < j < r.len() implies text_le(key(#[trigger] r[i]), key(#[trigger] r[j])) by {
                if j == d.len() {
                    assert(r[i] == d[i]);
                } else {
                    assert(r[i] == d[i] && r[j] == d[j]);
                }
            }
            assert forall|i: int| 0 <= i < r.len() - 1 implies !eq_ascii_ci(#[trigger] r[i], r[i + 1]) by {
                if i == d.len() - 1 {
                    assert(r[i] == d.last());
                    assert(r[i + 1] == s.last());
                    if eq_ascii_ci(d.last(), s.last()) {
                        assert(eq_ascii_ci(s.last(), d.last()));
                    }
                } else {
                    assert(r[i] == d[i] && r[i + 1] == d[i + 1]);
                }
            }
        }
    }
}

/// The application lines of the source list come in the order of their lower-case
/// names, and no two neighbours are equal up to ASCII case.
pub proof fn lemma_app_names_ordered(c: Config, inv: Inventory)
    ensures
        crate::order::keys_ascending(app_names(c, inv), lower_key()),
        forall|i: int|
            0 <= i < app_names(c, inv).len() - 1 ==> !eq_ascii_ci(#[trigger] app_names(c, inv)[i], app_names(c, inv)[i + 1]),
{
    let all = inv.inputs@.map_values(|i: Input| input_name(i)) + texts(c.apps@);
    crate::order::lemma_sorted_by(all, lower_key());
    lemma_dedup_ordered(sorted_by(all, lower_key()), lower_key());
}

/// Choosing an application line that is not selected adds its name to the filters, and
/// choosing it again removes it: the filters are as before.
pub proof fn lemma_app_toggle_undo(apps: Seq<Seq<char>>, n: Seq<char>)
    requires
        forall|k: int| 0 <= k < apps.len() ==> !eq_ascii_ci(#[trigger] apps[k], n),
    ensures
        apps.push(n).filter(|a: Seq<char>| !eq_ascii_ci(a, n)) == apps,
{
    let keep = |a: Seq<char>| !eq_ascii_ci(a, n);
    crate::seqs::lemma_filter_push(apps, n, keep);
    assert(eq_ascii_ci(n, n));
    lemma_filter_all(apps, keep);
}

proof fn lemma_filter_all(s: Seq<Seq<char>>, f: spec_fn(Seq<char>) -> bool)
    requires
        forall|k: int| 0 <= k < s.len() ==> f(#[trigger] s[k]),
    ensures
        s.filter(f) == s,
    decreases s.len(),
{
    if s.len() > 0 {
        let t = s.drop_last();
        assert forall|k: int| 0 <= k < t.len() implies f(#[trigger] t[k]) by {
            assert(t[k] == s[k]);
        }
        lemma_filter_all(t, f);
        assert(f(s[s.len() - 1]));
        crate::seqs::lemma_filter_push(t, s.last(), f);
        assert(t.push(s.last()) =~= s);
    }
}

/// A key as the visualizer reads it.
#[derive(Debug, Clone, Copy, PartialEq, Eq, Structural)]
pub enum KeyCode {
    Char(char),
    Up,
    Down,
    Left,
    Right,
    Enter,
    Esc,
    Tab,
    Other,
}

/// A key event: the key, whether Control was held, and whether it is a release.
#[derive(Debug, Clone, Copy, PartialEq, Eq, Structural)]
pub struct Key {
    pub code: KeyCode,
    pub ctrl: bool,
    pub release: bool,
}

/// Work that a key leaves to the caller, which holds the fractional settings, the
/// capture and the configuration file.
#[derive(Debug, Clone, Copy, PartialEq, Eq, Structural)]
pub enum Effect {
    /// The captured sources changed: restart the captures and clear the history.
    Reconcile,
    /// A settings-panel step on a fractional setting.
    Adjust(Adjust),
    /// Sensitivity times 1.1 capped at 20 (`up`), or divided by 1.1 with floor 0.05.
    Gain { up: bool },
    /// Smoothing plus 0.05 capped at 0.98 (`up`), or minus 0.05 with floor 0.
    Smooth { up: bool },
    /// Write the configuration file.
    Save,
    /// Read the configuration file again.
    Reload,
}

/// The state that keys change: the configuration, the pause flag, which popup is open
/// and the cursors in the source list and the settings panel.
#[derive(Debug, Clone)]
pub struct Controls {
    pub config: Config,
    pub paused: bool,
    pub help: bool,
    pub sources: bool,
    pub settings: bool,
    pub source_cursor: usize,
    pub settings_cursor: usize,
}

/// What a key does in the open popup, before its global meaning.
pub open spec fn popup_step(old: Controls, new: Controls, key: KeyCode, inv: Inventory, e: Option<Effect>) -> bool {
    if old.sources {
        match key {
            KeyCode::Up => new == Controls {
                source_cursor: if old.source_cursor > 0 {
                    (old.source_cursor - 1) as usize
                } else {
                    0
                },
                ..old
            } && e is None,
            KeyCode::Down => {
                let last = if options_for(old.config, inv).len() > 0 {
                    options_for(old.config, inv).len() - 1
                } else {
                    0
                };
                new == Controls {
                    source_cursor: if old.source_cursor + 1 < last {
                        (old.source_cursor + 1) as usize
                    } else {
                        last as usize
                    },
                    ..old
                } && e is None
            },
            KeyCode::Enter | KeyCode::Char(' ') => chosen_at(
                old.config,
                new.config,
                inv,
                old.source_cursor as int,
            ) && new == Controls { config: new.config, ..old } && e == Some(Effect::Reconcile),
            _ => new == old && e is None,
        }
    } else if old.settings {
        match key {
            KeyCode::Up => new == Controls {
                settings_cursor: if old.settings_cursor > 0 {
                    (old.settings_cursor - 1) as usize
                } else {
                    0
                },
                ..old
            } && e is None,
            KeyCode::Down => new == Controls {
                settings_cursor: if old.settings_cursor + 1 < 8 {
                    (old.settings_cursor + 1) as usize
                } else {
                    8
                },
                ..old
            } && e is None,
            KeyCode::Left => setting_step(old, new, -1i32, e),
            KeyCode::Right | KeyCode::Enter => setting_step(old, new, 1i32, e),
            _ => new == old && e is None,
        }
    } else {
        new == old && e is None
    }
}

/// A settings-panel step in `direction` on the line under the cursor.
pub open spec fn setting_step(old: Controls, new: Controls, direction: i32, e: Option<Effect>) -> bool {
    let cursor = old.settings_cursor as int;
    &&& new == Controls { config: new.config, ..old }
    &&& (cursor == 5 ==> new.config.theme@ == stepped_theme(old.config.theme@, direction as int)
        && new.config == with_theme(old.config, new.config.theme))
    &&& (cursor != 5 ==> new.config == setting_after(old.config, cursor, direction as int))
    &&& e == match setting_adjust(cursor, direction) {
        Adjust::Done => None,
        a => Some(Effect::Adjust(a)),
    }
}

/// The global meaning of a key, after the popup has seen it.
pub open spec fn global_step(old: Controls, new: Controls, key: KeyCode, e: Option<Effect>) -> bool {
    match key {
        KeyCode::Char(c) if '1' <= c <= '6' => new == Controls {
            config: Config { mode: mode_at(c as int - '1' as int), ..old.config },
            ..old
        } && e is None,
        KeyCode::Tab => new == Controls {
            config: Config { mode: next_mode(old.config.mode), ..old.config },
            ..old
        } && e is None,
        KeyCode::Char('a') => new == Controls {
            sources: !old.sources,
            settings: false,
            help: false,
            ..old
        } && e is None,
        KeyCode::Char('s') => new == Controls {
            settings: !old.settings,
            sources: false,
            help: false,
            ..old
        } && e is None,
        KeyCode::Char('?') => new == Controls {
            help: !old.help,
            settings: false,
            sources: false,
            ..old
        } && e is None,
        KeyCode::Char(' ') if !old.sources && !old.settings => new == Controls {
            paused: !old.paused,
            ..old
        } && e is None,
        KeyCode::Char('+') | KeyCode::Char('=') => new == old && e == Some(Effect::Gain { up: true }),
        KeyCode::Char('-') => new == old && e == Some(Effect::Gain { up: false }),
        KeyCode::Char('[') => new == old && e == Some(Effect::Smooth { up: false }),
        KeyCode::Char(']') => new == old && e == Some(Effect::Smooth { up: true }),
        KeyCode::Char('g') => new == Controls {
            config: Config { auto_gain: !old.config.auto_gain, ..old.config },
            ..old
        } && e is None,
        KeyCode::Char('p') => new.config.theme@ == stepped_theme(old.config.theme@, 1) && new
            == Controls { config: with_theme(old.config, new.config.theme), ..old } && e is None,
        KeyCode::Char('Q') => new == Controls {
            config: Config { quality: next_quality(old.config.quality), ..old.config },
            ..old
        } && e is None,
        KeyCode::Char('w') => new == old && e == Some(Effect::Save),
        KeyCode::Char('r') => new == old && e == Some(Effect::Reload),
        _ => new == old && e is None,
    }
}

/// The effects of two steps, in order.
pub open spec fn effects_of(a: Option<Effect>, b: Option<Effect>) -> Seq<Effect> {
    (match a {
        Some(x) => seq![x],
        None => seq![],
    }) + (match b {
        Some(x) => seq![x],
        None => seq![],
    })
}

/// A key that quits: `q`, or Control with `c`.
pub open spec fn is_quit(key: Key) -> bool {
    key.code == KeyCode::Char('q') || (key.ctrl && key.code == KeyCode::Char('c'))
}

impl Controls {
    fn popup_key(&mut self, key: KeyCode, inv: &Inventory) -> (e: Option<Effect>)
        ensures
            popup_step(*old(self), *final(self), key, *inv, e),
    {
        if self.sources {
            match key {
                KeyCode::Up => {
                    self.source_cursor = self.source_cursor.saturating_sub(1);
                    None
                },
                KeyCode::Down => {
                    let n = source_options(&self.config, inv).len();
                    let last = n.saturating_sub(1);
                    let next = if self.source_cursor < last {
                        self.source_cursor + 1
                    } else {
                        last
                    };
                    self.source_cursor = next;
                    None
                },
                KeyCode::Enter | KeyCode::Char(' ') => {
                    self.config.choose_source(inv, self.source_cursor);
                    Some(Effect::Reconcile)
                },
                _ => None,
            }
        } else if self.settings {
            match key {
                KeyCode::Up => {
                    self.settings_cursor = self.settings_cursor.saturating_sub(1);
                    None
                },
                KeyCode::Down => {
                    self.settings_cursor = if self.settings_cursor < 7 {
                        self.settings_cursor + 1
                    } else {
                        8
                    };
                    None
                },
                KeyCode::Left => {
                    let a = self.config.setting(self.settings_cursor, -1);
                    match a {
                        Adjust::Done => None,
                        _ => Some(Effect::Adjust(a)),
                    }
                },
                KeyCode::Right | KeyCode::Enter => {
                    let a = self.config.setting(self.settings_cursor, 1);
                    match a {
                        Adjust::Done => None,
                        _ => Some(Effect::Adjust(a)),
                    }
                },
                _ => None,
            }
        } else {
            None
        }
    }

    fn global_key(&mut self, key: KeyCode) -> (e: Option<Effect>)
        ensures
            global_step(*old(self), *final(self), key, e),
    {
        match key {
            KeyCode::Char(c) if '1' <= c && c <= '6' => {
                let k = (c as u32 - '1' as u32) as usize;
                self.config.mode = Mode::all()[k];
                None
            },
            KeyCode::Tab => {
                self.config.mode = self.config.mode.next();
                None
            },
            KeyCode::Char('a') => {
                self.sources = !self.sources;
                self.settings = false;
                self.help = false;
                None
            },
            KeyCode::Char('s') => {
                self.settings = !self.settings;
                self.sources = false;
                self.help = false;
                None
            },
            KeyCode::Char('?') => {
                self.help = !self.help;
                self.settings = false;
                self.sources = false;
                None
            },
            KeyCode::Char(' ') if !self.sources && !self.settings => {
                self.paused = !self.paused;
                None
            },
            KeyCode::Char('+') | KeyCode::Char('=') => Some(Effect::Gain { up: true }),
            KeyCode::Char('-') => Some(Effect::Gain { up: false }),
            KeyCode::Char('[') => Some(Effect::Smooth { up: false }),
            KeyCode::Char(']') => Some(Effect::Smooth { up: true }),
            KeyCode::Char('g') => {
                self.config.auto_gain = !self.config.auto_gain;
                None
            },
            KeyCode::Char('p') => {
                self.config.theme_step(1);
                None
            },
            KeyCode::Char('Q') => {
                self.config.quality = self.config.quality.next();
                None
            },
            KeyCode::Char('w') => Some(Effect::Save),
            KeyCode::Char('r') => Some(Effect::Reload),
            _ => None,
        }
    }

    /// Handles a key: a release does nothing; a quit key returns `true` and changes
    /// nothing; Esc closes every popup; otherwise the open popup sees the key first,
    /// then its global meaning applies. The effects left to the caller come back in
    /// order; the caller also clears its notice for every key that is neither a release
    /// nor a quit key.
    pub fn on_key(&mut self, key: Key, inv: &Inventory) -> (r: (bool, Vec<Effect>))
        ensures
            key.release ==> *final(self) == *old(self) && !r.0 && r.1@.len() == 0,
            !key.release && is_quit(key) ==> *final(self) == *old(self) && r.0 && r.1@.len() == 0,
            !key.release && !is_quit(key) && key.code == KeyCode::Esc ==> *final(self) == (Controls {
                help: false,
                sources: false,
                settings: false,
                ..*old(self)
            }) && !r.0 && r.1@.len() == 0,
            !key.release && !is_quit(key) && key.code != KeyCode::Esc ==> !r.0 && exists|
                mid: Controls,
                a: Option<Effect>,
                b: Option<Effect>,
            |
                #![trigger popup_step(*old(self), mid, key.code, *inv, a), global_step(mid, *final(self), key.code, b)]
                popup_step(*old(self), mid, key.code, *inv, a) && global_step(
                    mid,
                    *final(self),
                    key.code,
                    b,
                ) && r.1@ == effects_of(a, b),
    {
        if key.release {
            return (false, Vec::new());
        }
        if key.code == KeyCode::Char('q') || (key.ctrl && key.code == KeyCode::Char('c')) {
            return (true, Vec::new());
        }
        if key.code == KeyCode::Esc {
            self.help = false;
            self.sources = false;
            self.settings = false;
            return (false, Vec::new());
        }
        let a = self.popup_key(key.code, inv);
        let ghost mid = *self;
        let b = self.global_key(key.code);
        let mut fx: Vec<Effect> = Vec::new();
        match a {
            Some(x) => fx.push(x),
            None => {},
        }
        match b {
            Some(x) => fx.push(x),
            None => {},
        }
        assert(fx@ =~= effects_of(a, b));
        assert(popup_step(*old(self), mid, key.code, *inv, a) && global_step(mid, *self, key.code, b));
        (false, fx)
    }
}

} // verus!
