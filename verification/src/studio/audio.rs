//! Capture targets, the server inventory (outputs, inputs, application streams) and the
//! rules that decide which record stream a target needs.
use vstd::prelude::*;
use crate::seqs::{first_index, lemma_first_index};
use crate::text::{self, contains, eq_ascii_ci, lower_case, starts_with, trim};

verus! {

/// What to capture.
#[derive(Debug, PartialEq, Eq, Default)]
pub enum Target {
    /// Capture nothing (used for `--list`).
    Nothing,
    /// The monitor of the default sink: everything that is being played.
    #[default]
    All,
    /// The monitor of a specific sink, by name or description substring.
    Sink(String),
    /// A capture source such as a microphone, by name.
    Source(String),
    /// A single application's playback stream. `index` pins a specific stream while it
    /// exists; `name` is used to find it again after it restarts.
    App { name: String, index: Option<u32> },
}

impl Clone for Target {
    fn clone(&self) -> (r: Self)
        ensures
            r == *self,
    {
        match self {
            Target::Nothing => Target::Nothing,
            Target::All => Target::All,
            Target::Sink(n) => Target::Sink(n.clone()),
            Target::Source(n) => Target::Source(n.clone()),
            Target::App { name, index } => Target::App { name: name.clone(), index: *index },
        }
    }
}

/// Mathematical value of a [`Target`].
pub enum TargetView {
    Nothing,
    All,
    Sink(Seq<char>),
    Source(Seq<char>),
    App(Seq<char>, Option<u32>),
}

impl View for Target {
    type V = TargetView;

    open spec fn view(&self) -> TargetView {
        match self {
            Target::Nothing => TargetView::Nothing,
            Target::All => TargetView::All,
            Target::Sink(n) => TargetView::Sink(n@),
            Target::Source(n) => TargetView::Source(n@),
            Target::App { name, index } => TargetView::App(name@, *index),
        }
    }
}

/// The target that the configuration text `spec` names.
pub open spec fn parse_target(spec: Seq<char>) -> TargetView {
    let s = trim(spec);
    if s.len() == 0 || eq_ascii_ci(s, "all"@) {
        TargetView::All
    } else if starts_with(s, "app:"@) {
        TargetView::App(trim(s.skip("app:"@.len() as int)), None)
    } else if starts_with(s, "sink:"@) {
        TargetView::Sink(trim(s.skip("sink:"@.len() as int)))
    } else if starts_with(s, "source:"@) {
        TargetView::Source(trim(s.skip("source:"@.len() as int)))
    } else {
        TargetView::App(s, None)
    }
}

/// The configuration text of a target.
pub open spec fn target_text(t: TargetView) -> Seq<char> {
    match t {
        TargetView::Nothing => "all"@,
        TargetView::All => "all"@,
        TargetView::Sink(n) => "sink:"@ + n,
        TargetView::Source(n) => "source:"@ + n,
        TargetView::App(n, _) => "app:"@ + n,
    }
}

/// The short description of a target shown to the user.
pub open spec fn target_label(t: TargetView) -> Seq<char> {
    match t {
        TargetView::Nothing => "nothing"@,
        TargetView::All => "All output"@,
        TargetView::Sink(n) => "Sink "@ + n,
        TargetView::Source(n) => "Source "@ + n,
        TargetView::App(n, _) => n,
    }
}

/// Splits `s` after its prefix `p` when it has one.
fn after_prefix(s: &Vec<char>, p: &str) -> (r: Option<String>)
    ensures
        match r {
            Some(rest) => starts_with(s@, p@) && rest@ == s@.skip(p@.len() as int),
            None => !starts_with(s@, p@),
        },
{
    let pv = text::chars_of(p);
    if text::starts_with_chars(s, &pv) {
        let rest = text::string_of_range(s, pv.len(), s.len());
        assert(rest@ =~= s@.skip(p@.len() as int));
        Some(rest)
    } else {
        None
    }
}

impl Target {
    /// Parses the `audio.source` configuration string.
    pub fn parse(spec: &str) -> (t: Target)
        ensures
            t@ == parse_target(spec@),
    {
        let s = text::trim_str(spec);
        let v = text::chars_of(s.as_str());
        if v.len() == 0 || text::eq_ignore_ascii_case(s.as_str(), "all") {
            return Target::All;
        }
        if let Some(rest) = after_prefix(&v, "app:") {
            return Target::App { name: text::trim_str(rest.as_str()), index: None };
        }
        if let Some(rest) = after_prefix(&v, "sink:") {
            return Target::Sink(text::trim_str(rest.as_str()));
        }
        if let Some(rest) = after_prefix(&v, "source:") {
            return Target::Source(text::trim_str(rest.as_str()));
        }
        Target::App { name: s, index: None }
    }

    /// Inverse of [`Target::parse`], for saving the configuration.
    pub fn to_spec(&self) -> (r: String)
        ensures
            r@ == target_text(self@),
    {
        match self {
            Target::Nothing => text::owned("all"),
            Target::All => text::owned("all"),
            Target::Sink(n) => text::concat("sink:", n.as_str()),
            Target::Source(n) => text::concat("source:", n.as_str()),
            Target::App { name, .. } => text::concat("app:", name.as_str()),
        }
    }

    pub fn short_label(&self) -> (r: String)
        ensures
            r@ == target_label(self@),
    {
        match self {
            Target::Nothing => text::owned("nothing"),
            Target::All => text::owned("All output"),
            Target::Sink(n) => text::concat("Sink ", n.as_str()),
            Target::Source(n) => text::concat("Source ", n.as_str()),
            Target::App { name, .. } => text::owned(name.as_str()),
        }
    }
}

/// A text equal to its own trimmed form starts and ends with a character that is not
/// white space.
pub proof fn lemma_trimmed_ends(n: Seq<char>)
    requires
        trim(n) == n,
        n.len() > 0,
    ensures
        !text::is_white(n[0]),
        !text::is_white(n.last()),
{
    lemma_trim_start_len(n);
    lemma_trim_end_len(text::trim_start(n));
    if text::is_white(n[0]) {
        lemma_trim_start_len(n.drop_first());
    }
    if text::is_white(n.last()) {
        let u = text::trim_start(n);
        if u.len() == n.len() {
            lemma_trim_start_same(n);
            lemma_trim_end_len(u.drop_last());
        }
    }
}

proof fn lemma_trim_start_len(s: Seq<char>)
    ensures
        text::trim_start(s).len() <= s.len(),
    decreases s.len(),
{
    if s.len() > 0 && text::is_white(s[0]) {
        lemma_trim_start_len(s.drop_first());
    }
}

proof fn lemma_trim_end_len(s: Seq<char>)
    ensures
        text::trim_end(s).len() <= s.len(),
    decreases s.len(),
{
    if s.len() > 0 && text::is_white(s.last()) {
        lemma_trim_end_len(s.drop_last());
    }
}

proof fn lemma_trim_start_same(s: Seq<char>)
    requires
        text::trim_start(s).len() == s.len(),
    ensures
        text::trim_start(s) == s,
{
    if s.len() > 0 && text::is_white(s[0]) {
        lemma_trim_start_len(s.drop_first());
    }
}

/// Prefixing a trimmed name with a word that starts with a letter gives a trimmed text.
proof fn lemma_trim_prefixed(p: Seq<char>, n: Seq<char>)
    requires
        trim(n) == n,
        p.len() > 0,
        !text::is_white(p[0]),
        !text::is_white(p.last()),
    ensures
        trim(p + n) == p + n,
{
    let s = p + n;
    assert(s[0] == p[0]);
    assert(text::trim_start(s) == s);
    if n.len() > 0 {
        lemma_trimmed_ends(n);
        assert(s.last() == n.last());
    } else {
        assert(s =~= p);
    }
    assert(text::trim_end(s) == s);
}

/// Saving a target and reading it back gives the same target, as long as its name has no
/// surrounding white space. Only the pinned stream of an application target is dropped,
/// and "nothing" reads back as all output.
pub proof fn lemma_parse_to_spec(t: TargetView)
    requires
        match t {
            TargetView::Sink(n) => trim(n) == n,
            TargetView::Source(n) => trim(n) == n,
            TargetView::App(n, _) => trim(n) == n,
            _ => true,
        },
    ensures
        parse_target(target_text(t)) == (match t {
            TargetView::Nothing => TargetView::All,
            TargetView::App(n, _) => TargetView::App(n, None),
            _ => t,
        }),
{
    reveal_strlit("all");
    reveal_strlit("app:");
    reveal_strlit("sink:");
    reveal_strlit("source:");
    match t {
        TargetView::Nothing | TargetView::All => {
            assert(trim("all"@) == "all"@) by {
                reveal_with_fuel(text::trim_start, 2);
                reveal_with_fuel(text::trim_end, 2);
            }
            assert(eq_ascii_ci("all"@, "all"@));
        },
        TargetView::Sink(n) => {
            let s = "sink:"@ + n;
            lemma_trim_prefixed("sink:"@, n);
            assert(s[0] == 's');
            assert(!starts_with(s, "app:"@)) by {
                assert(s.subrange(0, 4)[0] == 's');
            }
            assert(s.subrange(0, 5) =~= "sink:"@);
            assert(s.skip(5) =~= n);
            assert(s.len() != 3);
        },
        TargetView::Source(n) => {
            let s = "source:"@ + n;
            lemma_trim_prefixed("source:"@, n);
            assert(!starts_with(s, "app:"@)) by {
                assert(s.subrange(0, 4)[0] == 's');
            }
            assert(!starts_with(s, "sink:"@)) by {
                assert(s.subrange(0, 5)[1] == 'o');
            }
            assert(s.subrange(0, 7) =~= "source:"@);
            assert(s.skip(7) =~= n);
            assert(s.len() != 3);
        },
        TargetView::App(n, _) => {
            let s = "app:"@ + n;
            lemma_trim_prefixed("app:"@, n);
            assert(s.subrange(0, 4) =~= "app:"@);
            assert(s.skip(4) =~= n);
            assert(s.len() != 3);
        },
    }
}

/// Reading a configuration text and saving it again gives the same text, for `all` and
/// for `app:`, `sink:` or `source:` followed by a name without surrounding white space.
pub proof fn lemma_spec_to_parse(p: Seq<char>, n: Seq<char>)
    requires
        p == "app:"@ || p == "sink:"@ || p == "source:"@,
        trim(n) == n,
    ensures
        target_text(parse_target(p + n)) == p + n,
        target_text(parse_target("all"@)) == "all"@,
{
    lemma_parse_to_spec(TargetView::All);
    if p == "app:"@ {
        lemma_parse_to_spec(TargetView::App(n, None));
    } else if p == "sink:"@ {
        lemma_parse_to_spec(TargetView::Sink(n));
    } else {
        lemma_parse_to_spec(TargetView::Source(n));
    }
}

#[derive(Debug, Clone, PartialEq, Eq, Default)]
pub enum Connection {
    #[default]
    Connecting,
    Ready,
    Failed(String),
}

#[derive(Debug, Clone, PartialEq, Eq, Default)]
pub enum Capture {
    #[default]
    Idle,
    Connecting(String),
    Streaming(String),
    Waiting(String),
    Error(String),
}

/// A playback stream of an application (a PulseAudio "sink input").
#[derive(Debug, Default, PartialEq, Eq)]
pub struct AppStream {
    pub index: u32,
    pub sink: u32,
    pub app_name: String,
    pub media_name: String,
    pub binary: String,
    pub corked: bool,
    pub muted: bool,
}

impl Clone for AppStream {
    fn clone(&self) -> (r: Self)
        ensures
            r == *self,
    {
        AppStream {
            index: self.index,
            sink: self.sink,
            app_name: self.app_name.clone(),
            media_name: self.media_name.clone(),
            binary: self.binary.clone(),
            corked: self.corked,
            muted: self.muted,
        }
    }
}

/// Case-insensitive substring match of `needle` against `hay`.
pub open spec fn text_matches(hay: Seq<char>, needle: Seq<char>) -> bool {
    contains(lower_case(hay), lower_case(needle))
}

/// `AppStream::matches`: a non-empty needle found, ignoring case, in the application name,
/// the binary or the stream title.
pub open spec fn app_matches(a: AppStream, needle: Seq<char>) -> bool {
    &&& lower_case(needle).len() > 0
    &&& (text_matches(a.app_name@, needle) || text_matches(a.binary@, needle) || text_matches(
        a.media_name@,
        needle,
    ))
}

/// Whether `needle` occurs in `hay` once both are lower-cased.
pub fn matches_text(hay: &str, needle: &str) -> (r: bool)
    ensures
        r == text_matches(hay@, needle@),
{
    let h = text::to_lowercase(hay);
    let n = text::to_lowercase(needle);
    text::contains_str(h.as_str(), n.as_str())
}

impl AppStream {
    /// Case-insensitive substring match against the application name, binary or stream title.
    pub fn matches(&self, needle: &str) -> (r: bool)
        ensures
            r == app_matches(*self, needle@),
    {
        let n = text::to_lowercase(needle);
        if n.as_str().is_empty() {
            return false;
        }
        matches_text(self.app_name.as_str(), needle) || matches_text(self.binary.as_str(), needle)
            || matches_text(self.media_name.as_str(), needle)
    }
}

#[derive(Debug, Default, PartialEq, Eq)]
pub struct SinkEntry {
    pub index: u32,
    pub name: String,
    pub description: String,
    pub monitor: String,
}

impl Clone for SinkEntry {
    fn clone(&self) -> (r: Self)
        ensures
            r == *self,
    {
        SinkEntry {
            index: self.index,
            name: self.name.clone(),
            description: self.description.clone(),
            monitor: self.monitor.clone(),
        }
    }
}

/// A capture source. Monitors of sinks are included (flagged) so explicit names resolve.
#[derive(Debug, Default, PartialEq, Eq)]
pub struct InputEntry {
    pub index: u32,
    pub name: String,
    pub description: String,
    pub is_monitor: bool,
}

impl Clone for InputEntry {
    fn clone(&self) -> (r: Self)
        ensures
            r == *self,
    {
        InputEntry {
            index: self.index,
            name: self.name.clone(),
            description: self.description.clone(),
            is_monitor: self.is_monitor,
        }
    }
}

/// `InputEntry::matches`: a non-empty needle found, ignoring case, in the name or the
/// description.
pub open spec fn input_matches(i: InputEntry, needle: Seq<char>) -> bool {
    &&& lower_case(needle).len() > 0
    &&& (text_matches(i.name@, needle) || text_matches(i.description@, needle))
}

impl InputEntry {
    pub fn matches(&self, needle: &str) -> (r: bool)
        ensures
            r == input_matches(*self, needle@),
    {
        let n = text::to_lowercase(needle);
        !n.as_str().is_empty() && (matches_text(self.name.as_str(), needle) || matches_text(
            self.description.as_str(),
            needle,
        ))
    }
}

/// Snapshot of the backend state for the UI.
#[derive(Debug, Clone, Default)]
pub struct Status {
    pub connection: Connection,
    pub server_name: String,
    pub default_sink: String,
    pub sinks: Vec<SinkEntry>,
    pub inputs: Vec<InputEntry>,
    pub inputs_loaded: bool,
    pub default_source: String,
    pub apps: Vec<AppStream>,
    pub apps_loaded: bool,
    pub target: Target,
    pub capture: Capture,
    pub frames: u64,
}

/// Identifies a connected record stream.
#[derive(Debug, Clone, PartialEq, Eq)]
pub struct StreamKey {
    pub source: String,
    pub sink_input: Option<u32>,
    pub label: String,
}

/// What a target resolves to on the current server.
#[derive(Debug, Clone, PartialEq, Eq)]
pub enum Resolved {
    Key(StreamKey),
    Waiting(String),
    Nothing,
}

/// Mathematical value of a [`Resolved`].
pub enum ResolvedView {
    Key(Seq<char>, Option<u32>, Seq<char>),
    Waiting(Seq<char>),
    Nothing,
}

impl View for Resolved {
    type V = ResolvedView;

    open spec fn view(&self) -> ResolvedView {
        match self {
            Resolved::Key(k) => ResolvedView::Key(k.source@, k.sink_input, k.label@),
            Resolved::Waiting(m) => ResolvedView::Waiting(m@),
            Resolved::Nothing => ResolvedView::Nothing,
        }
    }
}

/// What the capture thread knows about the server: default output, outputs, inputs and
/// application streams.
#[derive(Debug, Clone, Default)]
pub struct ServerState {
    pub default_sink: String,
    pub sinks: Vec<SinkEntry>,
    pub inputs: Vec<InputEntry>,
    pub inputs_loaded: bool,
    pub apps: Vec<AppStream>,
}

pub open spec fn sink_named(name: Seq<char>) -> spec_fn(SinkEntry) -> bool {
    |s: SinkEntry| s.name@ == name
}

pub open spec fn sink_indexed(index: u32) -> spec_fn(SinkEntry) -> bool {
    |s: SinkEntry| s.index == index
}

pub open spec fn sink_matching(name: Seq<char>) -> spec_fn(SinkEntry) -> bool {
    |s: SinkEntry| text_matches(s.name@, name) || text_matches(s.description@, name)
}

pub open spec fn input_named(name: Seq<char>) -> spec_fn(InputEntry) -> bool {
    |i: InputEntry| i.name@ == name
}

pub open spec fn device_matching(name: Seq<char>) -> spec_fn(InputEntry) -> bool {
    |i: InputEntry| !i.is_monitor && input_matches(i, name)
}

pub open spec fn any_input_matching(name: Seq<char>) -> spec_fn(InputEntry) -> bool {
    |i: InputEntry| input_matches(i, name)
}

pub open spec fn app_indexed(index: u32) -> spec_fn(AppStream) -> bool {
    |a: AppStream| a.index == index
}

pub open spec fn playing_app(name: Seq<char>) -> spec_fn(AppStream) -> bool {
    |a: AppStream| app_matches(a, name) && !a.corked
}

pub open spec fn any_app(name: Seq<char>) -> spec_fn(AppStream) -> bool {
    |a: AppStream| app_matches(a, name)
}

/// The monitor source of the sink called `sink_name`: the monitor that the server reports
/// for the first sink of that name, or `NAME.monitor` when it reports none.
pub open spec fn monitor_of(sinks: Seq<SinkEntry>, sink_name: Seq<char>) -> Seq<char> {
    match first_index(sinks, sink_named(sink_name)) {
        Some(i) => if sinks[i].monitor@.len() > 0 {
            sinks[i].monitor@
        } else {
            sink_name + ".monitor"@
        },
        None => sink_name + ".monitor"@,
    }
}

/// `d` unless it is empty, `other` then.
pub open spec fn or_else_text(d: Seq<char>, other: Seq<char>) -> Seq<char> {
    if d.len() > 0 {
        d
    } else {
        other
    }
}

/// The first input that a source target selects: an exact name, else a device (not a
/// monitor) whose name or description matches, else any matching input.
pub open spec fn source_input(inputs: Seq<InputEntry>, name: Seq<char>) -> Option<int> {
    match first_index(inputs, input_named(name)) {
        Some(i) => Some(i),
        None => match first_index(inputs, device_matching(name)) {
            Some(i) => Some(i),
            None => first_index(inputs, any_input_matching(name)),
        },
    }
}

/// The stream that an application target selects: the pinned stream while it exists, else
/// the first playing stream that matches, else the first matching one.
pub open spec fn app_stream(apps: Seq<AppStream>, name: Seq<char>, index: Option<u32>) -> Option<int> {
    let pinned = match index {
        Some(k) => first_index(apps, app_indexed(k)),
        None => None,
    };
    match pinned {
        Some(i) => Some(i),
        None => match first_index(apps, playing_app(name)) {
            Some(i) => Some(i),
            None => first_index(apps, any_app(name)),
        },
    }
}

/// The label of an application's stream: its name, followed by the title when there is a
/// different one.
pub open spec fn app_label(a: AppStream) -> Seq<char> {
    if a.media_name@.len() == 0 || a.media_name@ == a.app_name@ {
        a.app_name@
    } else {
        a.app_name@ + " \u{b7} "@ + a.media_name@
    }
}

/// How `target` resolves on a server in state `st`: the stream to record or the reason to
/// wait; the target with its pinned stream updated; whether the sink list must be
/// fetched again.
pub open spec fn resolve_target(st: ServerState, target: TargetView) -> (ResolvedView, TargetView, bool) {
    let sinks = st.sinks@;
    match target {
        TargetView::Nothing => (ResolvedView::Nothing, target, false),
        TargetView::All => {
            let d = st.default_sink@;
            if d.len() == 0 {
                (ResolvedView::Waiting("waiting for the default output"@), target, false)
            } else {
                let desc = match first_index(sinks, sink_named(d)) {
                    Some(i) => or_else_text(sinks[i].description@, d),
                    None => d,
                };
                (
                    ResolvedView::Key(monitor_of(sinks, d), None, "All output \u{b7} "@ + desc),
                    target,
                    false,
                )
            }
        },
        TargetView::Sink(name) => match first_index(sinks, sink_matching(name)) {
            Some(i) => {
                let s = sinks[i];
                (
                    ResolvedView::Key(
                        if s.monitor@.len() == 0 {
                            s.name@ + ".monitor"@
                        } else {
                            s.monitor@
                        },
                        None,
                        "Output \u{b7} "@ + or_else_text(s.description@, s.name@),
                    ),
                    target,
                    false,
                )
            },
            None => (ResolvedView::Waiting("output '"@ + name + "' not found"@), target, false),
        },
        TargetView::Source(name) => {
            if !st.inputs_loaded {
                (ResolvedView::Waiting("resolving input"@), target, false)
            } else {
                match source_input(st.inputs@, name) {
                    Some(k) => {
                        let i = st.inputs@[k];
                        (
                            ResolvedView::Key(
                                i.name@,
                                None,
                                "Input \u{b7} "@ + or_else_text(i.description@, i.name@),
                            ),
                            target,
                            false,
                        )
                    },
                    None => (
                        ResolvedView::Waiting("input '"@ + name + "' not found"@),
                        target,
                        false,
                    ),
                }
            }
        },
        TargetView::App(name, index) => match app_stream(st.apps@, name, index) {
            None => (
                ResolvedView::Waiting("waiting for '"@ + name + "' to play audio"@),
                TargetView::App(name, None),
                false,
            ),
            Some(k) => {
                let app = st.apps@[k];
                let pinned = TargetView::App(name, Some(app.index));
                match first_index(sinks, sink_indexed(app.sink)) {
                    Some(i) => if sinks[i].monitor@.len() > 0 {
                        (
                            ResolvedView::Key(sinks[i].monitor@, Some(app.index), app_label(app)),
                            pinned,
                            false,
                        )
                    } else {
                        (ResolvedView::Waiting("resolving the application's output"@), pinned, true)
                    },
                    None => (
                        ResolvedView::Waiting("resolving the application's output"@),
                        pinned,
                        true,
                    ),
                }
            },
        },
    }
}

/// An application target whose pinned stream is gone (or that pins none) records a
/// playing stream of that application whenever one plays: a paused stream is taken only
/// when no matching stream plays. The target is pinned to the stream recorded.
pub proof fn lemma_app_prefers_playing(st: ServerState, name: Seq<char>, index: Option<u32>)
    requires
        forall|j: int| 0 <= j < st.apps@.len() ==> index != Some(#[trigger] st.apps@[j].index),
        exists|j: int| 0 <= j < st.apps@.len() && app_matches(#[trigger] st.apps@[j], name) && !st.apps@[j].corked,
    ensures
        ({
            let (r, t, _) = resolve_target(st, TargetView::App(name, index));
            exists|j: int|
                0 <= j < st.apps@.len() && app_matches(#[trigger] st.apps@[j], name) && !st.apps@[j].corked
                    && t == TargetView::App(name, Some(st.apps@[j].index)) && (r matches ResolvedView::Key(
                    _,
                    si,
                    _,
                ) ==> si == Some(st.apps@[j].index))
        }),
{
    let apps = st.apps@;
    if let Some(k) = index {
        crate::seqs::lemma_first_index_found(apps, app_indexed(k));
        assert(first_index(apps, app_indexed(k)) is None) by {
            if let Some(i) = first_index(apps, app_indexed(k)) {
                assert(app_indexed(k)(apps[i]));
            }
        }
    }
    crate::seqs::lemma_first_index_found(apps, playing_app(name));
    let w = choose|j: int| 0 <= j < apps.len() && app_matches(#[trigger] apps[j], name) && !apps[j].corked;
    assert(playing_app(name)(apps[w]));
    let i = first_index(apps, playing_app(name))->0;
    assert(playing_app(name)(apps[i]));
    assert(app_stream(apps, name, index) == Some(i));
}

/// An application target whose pinned stream still exists keeps recording that stream,
/// whether it plays or not, and stays pinned to it.
pub proof fn lemma_app_keeps_pinned(st: ServerState, name: Seq<char>, k: u32)
    requires
        exists|j: int| 0 <= j < st.apps@.len() && (#[trigger] st.apps@[j]).index == k,
    ensures
        ({
            let (r, t, _) = resolve_target(st, TargetView::App(name, Some(k)));
            &&& t == TargetView::App(name, Some(k))
            &&& r matches ResolvedView::Key(_, si, _) ==> si == Some(k)
        }),
{
    crate::seqs::lemma_first_index_found(st.apps@, app_indexed(k));
    let w = choose|j: int| 0 <= j < st.apps@.len() && (#[trigger] st.apps@[j]).index == k;
    assert(app_indexed(k)(st.apps@[w]));
}

/// An output target records the monitor of an output whose name or description matches,
/// and waits exactly when no output matches.
pub proof fn lemma_sink_target(st: ServerState, name: Seq<char>)
    ensures
        ({
            let (r, t, refetch) = resolve_target(st, TargetView::Sink(name));
            &&& t == TargetView::Sink(name)
            &&& !refetch
            &&& r is Waiting <==> forall|i: int| 0 <= i < st.sinks@.len() ==> !sink_matching(name)(#[trigger] st.sinks@[i])
            &&& r matches ResolvedView::Key(src, si, _) ==> si is None && exists|i: int|
                0 <= i < st.sinks@.len() && sink_matching(name)(#[trigger] st.sinks@[i]) && src == (if st.sinks@[i].monitor@.len() == 0 {
                    st.sinks@[i].name@ + ".monitor"@
                } else {
                    st.sinks@[i].monitor@
                })
        }),
{
    crate::seqs::lemma_first_index_found(st.sinks@, sink_matching(name));
}

/// Turns a found position into the answer of a search.
pub open spec fn found_at(r: Option<usize>, f: Option<int>) -> bool {
    match r {
        Some(k) => f == Some(k as int),
        None => f is None,
    }
}

/// Position of the first sink called `name`.
pub fn find_sink_named(sinks: &Vec<SinkEntry>, name: &str) -> (r: Option<usize>)
    ensures
        r matches Some(k) ==> k < sinks.len(),
        found_at(r, first_index(sinks@, sink_named(name@))),
{
    let mut i: usize = 0;
    while i < sinks.len()
        invariant
            i <= sinks.len(),
            forall|k: int| 0 <= k < i ==> !sink_named(name@)(#[trigger] sinks@[k]),
        decreases sinks.len() - i,
    {
        if text::same_text(sinks[i].name.as_str(), name) {
            proof {
                lemma_first_index(sinks@, sink_named(name@), i as int);
            }
            return Some(i);
        }
        i = i + 1;
    }
    proof {
        lemma_first_index(sinks@, sink_named(name@), i as int);
    }
    None
}

fn find_sink_indexed(sinks: &Vec<SinkEntry>, index: u32) -> (r: Option<usize>)
    ensures
        r matches Some(k) ==> k < sinks.len(),
        found_at(r, first_index(sinks@, sink_indexed(index))),
{
    let mut i: usize = 0;
    while i < sinks.len()
        invariant
            i <= sinks.len(),
            forall|k: int| 0 <= k < i ==> !sink_indexed(index)(#[trigger] sinks@[k]),
        decreases sinks.len() - i,
    {
        if sinks[i].index == index {
            proof {
                lemma_first_index(sinks@, sink_indexed(index), i as int);
            }
            return Some(i);
        }
        i = i + 1;
    }
    proof {
        lemma_first_index(sinks@, sink_indexed(index), i as int);
    }
    None
}

fn find_sink_matching(sinks: &Vec<SinkEntry>, name: &str) -> (r: Option<usize>)
    ensures
        r matches Some(k) ==> k < sinks.len(),
        found_at(r, first_index(sinks@, sink_matching(name@))),
{
    let mut i: usize = 0;
    while i < sinks.len()
        invariant
            i <= sinks.len(),
            forall|k: int| 0 <= k < i ==> !sink_matching(name@)(#[trigger] sinks@[k]),
        decreases sinks.len() - i,
    {
        if matches_text(sinks[i].name.as_str(), name) || matches_text(
            sinks[i].description.as_str(),
            name,
        ) {
            proof {
                lemma_first_index(sinks@, sink_matching(name@), i as int);
            }
            return Some(i);
        }
        i = i + 1;
    }
    proof {
        lemma_first_index(sinks@, sink_matching(name@), i as int);
    }
    None
}

fn find_input_named(inputs: &Vec<InputEntry>, name: &str) -> (r: Option<usize>)
    ensures
        r matches Some(k) ==> k < inputs.len(),
        found_at(r, first_index(inputs@, input_named(name@))),
{
    let mut i: usize = 0;
    while i < inputs.len()
        invariant
            i <= inputs.len(),
            forall|k: int| 0 <= k < i ==> !input_named(name@)(#[trigger] inputs@[k]),
        decreases inputs.len() - i,
    {
        if text::same_text(inputs[i].name.as_str(), name) {
            proof {
                lemma_first_index(inputs@, input_named(name@), i as int);
            }
            return Some(i);
        }
        i = i + 1;
    }
    proof {
        lemma_first_index(inputs@, input_named(name@), i as int);
    }
    None
}

fn find_input_matching(inputs: &Vec<InputEntry>, name: &str, devices_only: bool) -> (r: Option<usize>)
    ensures
        r matches Some(k) ==> k < inputs.len(),
        devices_only ==> found_at(r, first_index(inputs@, device_matching(name@))),
        !devices_only ==> found_at(r, first_index(inputs@, any_input_matching(name@))),
{
    let ghost p = if devices_only {
        device_matching(name@)
    } else {
        any_input_matching(name@)
    };
    let mut i: usize = 0;
    while i < inputs.len()
        invariant
            i <= inputs.len(),
            p == (if devices_only {
                device_matching(name@)
            } else {
                any_input_matching(name@)
            }),
            forall|k: int| 0 <= k < i ==> !p(#[trigger] inputs@[k]),
        decreases inputs.len() - i,
    {
        let hit = if devices_only {
            !inputs[i].is_monitor && inputs[i].matches(name)
        } else {
            inputs[i].matches(name)
        };
        if hit {
            proof {
                lemma_first_index(inputs@, p, i as int);
            }
            return Some(i);
        }
        i = i + 1;
    }
    proof {
        lemma_first_index(inputs@, p, i as int);
    }
    None
}

fn find_app_indexed(apps: &Vec<AppStream>, index: u32) -> (r: Option<usize>)
    ensures
        r matches Some(k) ==> k < apps.len(),
        found_at(r, first_index(apps@, app_indexed(index))),
{
    let mut i: usize = 0;
    while i < apps.len()
        invariant
            i <= apps.len(),
            forall|k: int| 0 <= k < i ==> !app_indexed(index)(#[trigger] apps@[k]),
        decreases apps.len() - i,
    {
        if apps[i].index == index {
            proof {
                lemma_first_index(apps@, app_indexed(index), i as int);
            }
            return Some(i);
        }
        i = i + 1;
    }
    proof {
        lemma_first_index(apps@, app_indexed(index), i as int);
    }
    None
}

fn find_app_matching(apps: &Vec<AppStream>, name: &str, playing_only: bool) -> (r: Option<usize>)
    ensures
        r matches Some(k) ==> k < apps.len(),
        playing_only ==> found_at(r, first_index(apps@, playing_app(name@))),
        !playing_only ==> found_at(r, first_index(apps@, any_app(name@))),
{
    let ghost p = if playing_only {
        playing_app(name@)
    } else {
        any_app(name@)
    };
    let mut i: usize = 0;
    while i < apps.len()
        invariant
            i <= apps.len(),
            p == (if playing_only {
                playing_app(name@)
            } else {
                any_app(name@)
            }),
            forall|k: int| 0 <= k < i ==> !p(#[trigger] apps@[k]),
        decreases apps.len() - i,
    {
        let hit = if playing_only {
            apps[i].matches(name) && !apps[i].corked
        } else {
            apps[i].matches(name)
        };
        if hit {
            proof {
                lemma_first_index(apps@, p, i as int);
            }
            return Some(i);
        }
        i = i + 1;
    }
    proof {
        lemma_first_index(apps@, p, i as int);
    }
    None
}

/// `d` unless it is empty, `other` then.
fn or_else_string(d: &String, other: &String) -> (r: String)
    ensures
        r@ == or_else_text(d@, other@),
{
    if d.as_str().is_empty() {
        other.clone()
    } else {
        d.clone()
    }
}

impl ServerState {
    /// The monitor source of the sink called `sink_name`.
    pub fn monitor_of(&self, sink_name: &str) -> (r: String)
        ensures
            r@ == monitor_of(self.sinks@, sink_name@),
    {
        match find_sink_named(&self.sinks, sink_name) {
            Some(i) => if self.sinks[i].monitor.as_str().is_empty() {
                text::concat(sink_name, ".monitor")
            } else {
                self.sinks[i].monitor.clone()
            },
            None => text::concat(sink_name, ".monitor"),
        }
    }

    /// Decides which record stream `target` needs. Updates the pinned stream of an
    /// application target and returns, besides the decision, whether the sink list must be
    /// fetched again.
    pub fn resolve(&self, target: &mut Target) -> (r: (Resolved, bool))
        ensures
            (r.0@, final(target)@, r.1) == resolve_target(*self, old(target)@),
    {
        match target {
            Target::Nothing => (Resolved::Nothing, false),
            Target::All => {
                if self.default_sink.as_str().is_empty() {
                    return (Resolved::Waiting(text::owned("waiting for the default output")), false);
                }
                let desc = match find_sink_named(&self.sinks, self.default_sink.as_str()) {
                    Some(i) => or_else_string(&self.sinks[i].description, &self.default_sink),
                    None => self.default_sink.clone(),
                };
                let key = StreamKey {
                    source: self.monitor_of(self.default_sink.as_str()),
                    sink_input: None,
                    label: text::concat("All output \u{b7} ", desc.as_str()),
                };
                (Resolved::Key(key), false)
            },
            Target::Sink(name) => match find_sink_matching(&self.sinks, name.as_str()) {
                Some(i) => {
                    let s = &self.sinks[i];
                    let source = if s.monitor.as_str().is_empty() {
                        text::concat(s.name.as_str(), ".monitor")
                    } else {
                        s.monitor.clone()
                    };
                    let shown = or_else_string(&s.description, &s.name);
                    let key = StreamKey {
                        source,
                        sink_input: None,
                        label: text::concat("Output \u{b7} ", shown.as_str()),
                    };
                    (Resolved::Key(key), false)
                },
                None => (
                    Resolved::Waiting(text::concat3("output '", name.as_str(), "' not found")),
                    false,
                ),
            },
            Target::Source(name) => {
                if !self.inputs_loaded {
                    return (Resolved::Waiting(text::owned("resolving input")), false);
                }
                let found = match find_input_named(&self.inputs, name.as_str()) {
                    Some(i) => Some(i),
                    None => match find_input_matching(&self.inputs, name.as_str(), true) {
                        Some(i) => Some(i),
                        None => find_input_matching(&self.inputs, name.as_str(), false),
                    },
                };
                match found {
                    Some(k) => {
                        let i = &self.inputs[k];
                        let shown = or_else_string(&i.description, &i.name);
                        let key = StreamKey {
                            source: i.name.clone(),
                            sink_input: None,
                            label: text::concat("Input \u{b7} ", shown.as_str()),
                        };
                        (Resolved::Key(key), false)
                    },
                    None => (
                        Resolved::Waiting(text::concat3("input '", name.as_str(), "' not found")),
                        false,
                    ),
                }
            },
            Target::App { name, index } => {
                let pinned = match *index {
                    Some(k) => find_app_indexed(&self.apps, k),
                    None => None,
                };
                let found = match pinned {
                    Some(i) => Some(i),
                    None => match find_app_matching(&self.apps, name.as_str(), true) {
                        Some(i) => Some(i),
                        None => find_app_matching(&self.apps, name.as_str(), false),
                    },
                };
                match found {
                    None => {
                        let msg = text::concat3("waiting for '", name.as_str(), "' to play audio");
                        *index = None;
                        (Resolved::Waiting(msg), false)
                    },
                    Some(k) => {
                        let app = &self.apps[k];
                        *index = Some(app.index);
                        match find_sink_indexed(&self.sinks, app.sink) {
                            Some(i) => if !self.sinks[i].monitor.as_str().is_empty() {
                                let label = if app.media_name.as_str().is_empty() || text::same_text(
                                    app.media_name.as_str(),
                                    app.app_name.as_str(),
                                ) {
                                    app.app_name.clone()
                                } else {
                                    text::concat3(
                                        app.app_name.as_str(),
                                        " \u{b7} ",
                                        app.media_name.as_str(),
                                    )
                                };
                                let key = StreamKey {
                                    source: self.sinks[i].monitor.clone(),
                                    sink_input: Some(app.index),
                                    label,
                                };
                                (Resolved::Key(key), false)
                            } else {
                                (
                                    Resolved::Waiting(
                                        text::owned("resolving the application's output"),
                                    ),
                                    true,
                                )
                            },
                            None => (
                                Resolved::Waiting(text::owned("resolving the application's output")),
                                true,
                            ),
                        }
                    },
                }
            },
        }
    }
}

} // verus!
