//! Decisions of the capture thread: which server lists to request, how arriving lists
//! and server events change what is known, and what to do with the record stream.
use vstd::prelude::*;
use crate::studio::audio::{
    resolve_target, AppStream, Capture, InputEntry, Resolved, ResolvedView, ServerState, SinkEntry,
    StreamKey, Target, TargetView,
};
use crate::text;

verus! {

/// One flag per kind of server information: the playback streams, the outputs, the
/// inputs and the server's defaults.
#[derive(Debug, Clone, Copy, PartialEq, Eq, Structural)]
pub struct Inflight {
    pub apps: bool,
    pub sinks: bool,
    pub inputs: bool,
    pub server: bool,
}

impl Inflight {
    pub fn all() -> (r: Inflight)
        ensures
            r == (Inflight { apps: true, sinks: true, inputs: true, server: true }),
    {
        Inflight { apps: true, sinks: true, inputs: true, server: true }
    }

    pub fn none() -> (r: Inflight)
        ensures
            r == (Inflight { apps: false, sinks: false, inputs: false, server: false }),
    {
        Inflight { apps: false, sinks: false, inputs: false, server: false }
    }
}

/// The kind of object a server event is about.
#[derive(Debug, Clone, Copy, PartialEq, Eq, Structural)]
pub enum Facility {
    SinkInput,
    Sink,
    Source,
    Server,
    Other,
}

/// What happened to the object.
#[derive(Debug, Clone, Copy, PartialEq, Eq, Structural)]
pub enum SubOp {
    New,
    Changed,
    Removed,
}

/// A subscription event from the server.
#[derive(Debug, Clone, Copy, PartialEq, Eq, Structural)]
pub struct ServerEvent {
    pub facility: Option<Facility>,
    pub op: Option<SubOp>,
    pub index: u32,
}

/// What the server callbacks delivered since the last look: complete lists, the
/// server's defaults (default sink, default source, server name) and events.
#[derive(Debug, Clone)]
pub struct Inbox {
    pub apps: Option<Vec<AppStream>>,
    pub sinks: Option<Vec<SinkEntry>>,
    pub inputs: Option<Vec<InputEntry>>,
    pub server: Option<(String, String, String)>,
    pub events: Vec<ServerEvent>,
}

/// What the capture thread knows and wants: the target, the stream it records (by
/// key), whether the server connection is ready, the lists it still wants and those
/// it has asked for, and the server's lists.
#[derive(Debug, Clone)]
pub struct Backend {
    pub target: Target,
    pub key: Option<StreamKey>,
    pub ctx_ready: bool,
    pub want: Inflight,
    pub inflight: Inflight,
    pub server: ServerState,
}

/// What to do with the record stream.
#[derive(Debug, Clone)]
pub enum StreamAction {
    /// Keep the stream as it is.
    Keep,
    /// Close any stream and record from this key.
    Connect(StreamKey),
    /// Close any stream and report this capture state.
    Drop(Capture),
}

/// Result of looking at the inbox: whether the stream's application stream ended (the
/// stream is to be closed as waiting for "stream ended"), and whether what is known
/// changed so that the stream must be reconsidered.
#[derive(Debug, Clone, Copy, PartialEq, Eq, Structural)]
pub struct InboxOutcome {
    pub stream_ended: bool,
    pub changed: bool,
}

pub open spec fn key_view(k: StreamKey) -> (Seq<char>, Option<u32>, Seq<char>) {
    (k.source@, k.sink_input, k.label@)
}

pub open spec fn sinks_view(s: Seq<SinkEntry>) -> Seq<(u32, Seq<char>, Seq<char>, Seq<char>)> {
    s.map_values(|e: SinkEntry| (e.index, e.name@, e.description@, e.monitor@))
}

pub open spec fn inputs_view(s: Seq<InputEntry>) -> Seq<(u32, Seq<char>, Seq<char>, bool)> {
    s.map_values(|e: InputEntry| (e.index, e.name@, e.description@, e.is_monitor))
}

pub open spec fn apps_view(s: Seq<AppStream>) -> Seq<(u32, u32, Seq<char>, Seq<char>, Seq<char>, bool, bool)> {
    s.map_values(
        |a: AppStream| (a.index, a.sink, a.app_name@, a.media_name@, a.binary@, a.corked, a.muted),
    )
}

/// The requests to send: each kind that is wanted and not already asked for, once the
/// connection is ready.
pub open spec fn requests_due(ready: bool, want: Inflight, inflight: Inflight) -> Inflight {
    Inflight {
        apps: ready && want.apps && !inflight.apps,
        sinks: ready && want.sinks && !inflight.sinks,
        inputs: ready && want.inputs && !inflight.inputs,
        server: ready && want.server && !inflight.server,
    }
}

/// An event asks for the list of its kind again.
pub open spec fn wants_after_events(want: Inflight, events: Seq<ServerEvent>) -> Inflight {
    Inflight {
        apps: want.apps || exists|k: int| 0 <= k < events.len() && #[trigger] events[k].facility == Some(Facility::SinkInput),
        sinks: want.sinks || exists|k: int| 0 <= k < events.len() && #[trigger] events[k].facility == Some(Facility::Sink),
        inputs: want.inputs || exists|k: int| 0 <= k < events.len() && #[trigger] events[k].facility == Some(Facility::Source),
        server: want.server || exists|k: int| 0 <= k < events.len() && #[trigger] events[k].facility == Some(Facility::Server),
    }
}

/// Some event removes the application stream that `key` records.
pub open spec fn stream_removed(key: Option<StreamKey>, events: Seq<ServerEvent>) -> bool {
    exists|k: int|
        0 <= k < events.len() && #[trigger] events[k].facility == Some(Facility::SinkInput) && events[k].op
            == Some(SubOp::Removed) && (key matches Some(sk) && sk.sink_input == Some(events[k].index))
}

fn same_sinks(a: &Vec<SinkEntry>, b: &Vec<SinkEntry>) -> (r: bool)
    ensures
        r == (sinks_view(a@) == sinks_view(b@)),
{
    if a.len() != b.len() {
        assert(sinks_view(a@).len() != sinks_view(b@).len());
        return false;
    }
    let mut k: usize = 0;
    while k < a.len()
        invariant
            k <= a.len(),
            a.len() == b.len(),
            forall|j: int| 0 <= j < k ==> #[trigger] sinks_view(a@)[j] == sinks_view(b@)[j],
        decreases a.len() - k,
    {
        let x = &a[k];
        let y = &b[k];
        if !(x.index == y.index && text::same_text(x.name.as_str(), y.name.as_str())
            && text::same_text(x.description.as_str(), y.description.as_str()) && text::same_text(
            x.monitor.as_str(),
            y.monitor.as_str(),
        )) {
            assert(sinks_view(a@)[k as int] != sinks_view(b@)[k as int]);
            return false;
        }
        k = k + 1;
    }
    assert(sinks_view(a@) =~= sinks_view(b@));
    true
}

fn same_inputs(a: &Vec<InputEntry>, b: &Vec<InputEntry>) -> (r: bool)
    ensures
        r == (inputs_view(a@) == inputs_view(b@)),
{
    if a.len() != b.len() {
        assert(inputs_view(a@).len() != inputs_view(b@).len());
        return false;
    }
    let mut k: usize = 0;
    while k < a.len()
        invariant
            k <= a.len(),
            a.len() == b.len(),
            forall|j: int| 0 <= j < k ==> #[trigger] inputs_view(a@)[j] == inputs_view(b@)[j],
        decreases a.len() - k,
    {
        let x = &a[k];
        let y = &b[k];
        if !(x.index == y.index && text::same_text(x.name.as_str(), y.name.as_str())
            && text::same_text(x.description.as_str(), y.description.as_str()) && x.is_monitor
            == y.is_monitor) {
            assert(inputs_view(a@)[k as int] != inputs_view(b@)[k as int]);
            return false;
        }
        k = k + 1;
    }
    assert(inputs_view(a@) =~= inputs_view(b@));
    true
}

fn same_apps(a: &Vec<AppStream>, b: &Vec<AppStream>) -> (r: bool)
    ensures
        r == (apps_view(a@) == apps_view(b@)),
{
    if a.len() != b.len() {
        assert(apps_view(a@).len() != apps_view(b@).len());
        return false;
    }
    let mut k: usize = 0;
    while k < a.len()
        invariant
            k <= a.len(),
            a.len() == b.len(),
            forall|j: int| 0 <= j < k ==> #[trigger] apps_view(a@)[j] == apps_view(b@)[j],
        decreases a.len() - k,
    {
        let x = &a[k];
        let y = &b[k];
        if !(x.index == y.index && x.sink == y.sink && text::same_text(
            x.app_name.as_str(),
            y.app_name.as_str(),
        ) && text::same_text(x.media_name.as_str(), y.media_name.as_str()) && text::same_text(
            x.binary.as_str(),
            y.binary.as_str(),
        ) && x.corked == y.corked && x.muted == y.muted) {
            assert(apps_view(a@)[k as int] != apps_view(b@)[k as int]);
            return false;
        }
        k = k + 1;
    }
    assert(apps_view(a@) =~= apps_view(b@));
    true
}

fn copy_sinks(v: &Vec<SinkEntry>) -> (r: Vec<SinkEntry>)
    ensures
        r@ == v@,
{
    let r = v.clone();
    assert(r@ =~= v@);
    r
}

fn copy_inputs(v: &Vec<InputEntry>) -> (r: Vec<InputEntry>)
    ensures
        r@ == v@,
{
    let r = v.clone();
    assert(r@ =~= v@);
    r
}

fn copy_apps(v: &Vec<AppStream>) -> (r: Vec<AppStream>)
    ensures
        r@ == v@,
{
    let r = v.clone();
    assert(r@ =~= v@);
    r
}

impl Backend {
    /// Marks every kind that is wanted and not yet asked for as asked for, once the
    /// connection is ready, and returns the requests to send.
    pub fn issue_requests(&mut self) -> (issue: Inflight)
        ensures
            issue == requests_due(old(self).ctx_ready, old(self).want, old(self).inflight),
            final(self).want == (Inflight {
                apps: old(self).want.apps && !issue.apps,
                sinks: old(self).want.sinks && !issue.sinks,
                inputs: old(self).want.inputs && !issue.inputs,
                server: old(self).want.server && !issue.server,
            }),
            final(self).inflight == (Inflight {
                apps: old(self).inflight.apps || issue.apps,
                sinks: old(self).inflight.sinks || issue.sinks,
                inputs: old(self).inflight.inputs || issue.inputs,
                server: old(self).inflight.server || issue.server,
            }),
            final(self).target == old(self).target,
            final(self).key == old(self).key,
            final(self).ctx_ready == old(self).ctx_ready,
            final(self).server == old(self).server,
    {
        let ready = self.ctx_ready;
        let issue = Inflight {
            apps: ready && self.want.apps && !self.inflight.apps,
            sinks: ready && self.want.sinks && !self.inflight.sinks,
            inputs: ready && self.want.inputs && !self.inflight.inputs,
            server: ready && self.want.server && !self.inflight.server,
        };
        self.want = Inflight {
            apps: self.want.apps && !issue.apps,
            sinks: self.want.sinks && !issue.sinks,
            inputs: self.want.inputs && !issue.inputs,
            server: self.want.server && !issue.server,
        };
        self.inflight = Inflight {
            apps: self.inflight.apps || issue.apps,
            sinks: self.inflight.sinks || issue.sinks,
            inputs: self.inflight.inputs || issue.inputs,
            server: self.inflight.server || issue.server,
        };
        issue
    }
}

/// The stream the target resolves to, and what is done about the current stream:
/// kept when it already records that key and is alive, otherwise replaced or dropped.
pub open spec fn stream_decision(
    key: Option<StreamKey>,
    resolved: ResolvedView,
    alive: bool,
    action: StreamAction,
) -> bool {
    match resolved {
        ResolvedView::Key(src, input, label) => {
            let same = key matches Some(k) && key_view(k) == (src, input, label);
            if same && alive {
                action is Keep
            } else {
                action matches StreamAction::Connect(k) && key_view(k) == (src, input, label)
            }
        },
        ResolvedView::Waiting(m) => action matches StreamAction::Drop(Capture::Waiting(t)) && t@ == m,
        ResolvedView::Nothing => action matches StreamAction::Drop(Capture::Idle),
    }
}

/// `new` is `old` after reconsidering the stream (`alive` tells whether the current
/// stream is still connecting or recording), having returned `action`.
pub open spec fn reconciled(old: Backend, new: Backend, alive: bool, action: StreamAction) -> bool {
    if !old.ctx_ready {
        action is Keep && new == old
    } else {
        let (resolved, target, want_sinks) = resolve_target(old.server, old.target@);
        &&& stream_decision(old.key, resolved, alive, action)
        &&& new.target@ == target
        &&& new.want == Inflight { sinks: old.want.sinks || want_sinks, ..old.want }
        &&& new.key == (if action is Keep {
            old.key
        } else {
            None
        })
        &&& new.ctx_ready == old.ctx_ready
        &&& new.inflight == old.inflight
        &&& new.server == old.server
    }
}

impl Backend {
    /// Takes in what the server delivered: events ask for their list again, and the
    /// event removing the recorded application stream ends the stream; each arrived
    /// list replaces the known one and is no longer in flight. `changed` reports an
    /// ended stream, a new default output, or a list that differs from the known one
    /// (or the first list of inputs).
    pub fn process_inbox(&mut self, inbox: &Inbox) -> (r: InboxOutcome)
        ensures
            r.stream_ended == stream_removed(old(self).key, inbox.events@),
            final(self).key == (if r.stream_ended {
                None
            } else {
                old(self).key
            }),
            final(self).want == wants_after_events(old(self).want, inbox.events@),
            final(self).inflight == (Inflight {
                apps: old(self).inflight.apps && inbox.apps is None,
                sinks: old(self).inflight.sinks && inbox.sinks is None,
                inputs: old(self).inflight.inputs && inbox.inputs is None,
                server: old(self).inflight.server && inbox.server is None,
            }),
            final(self).server.default_sink@ == (match inbox.server {
                Some(s) => s.0@,
                None => old(self).server.default_sink@,
            }),
            sinks_view(final(self).server.sinks@) == (match inbox.sinks {
                Some(v) => sinks_view(v@),
                None => sinks_view(old(self).server.sinks@),
            }),
            inputs_view(final(self).server.inputs@) == (match inbox.inputs {
                Some(v) => inputs_view(v@),
                None => inputs_view(old(self).server.inputs@),
            }),
            final(self).server.inputs_loaded == (old(self).server.inputs_loaded || inbox.inputs is Some),
            apps_view(final(self).server.apps@) == (match inbox.apps {
                Some(v) => apps_view(v@),
                None => apps_view(old(self).server.apps@),
            }),
            r.changed == (r.stream_ended || (inbox.server matches Some(s) && s.0@
                != old(self).server.default_sink@) || (inbox.inputs matches Some(v) && (
            inputs_view(v@) != inputs_view(old(self).server.inputs@)
                || !old(self).server.inputs_loaded)) || (inbox.sinks matches Some(v) && sinks_view(
                v@,
            ) != sinks_view(old(self).server.sinks@)) || (inbox.apps matches Some(v) && apps_view(
                v@,
            ) != apps_view(old(self).server.apps@))),
            final(self).target == old(self).target,
            final(self).ctx_ready == old(self).ctx_ready,
    {
        let ended = self.take_events(&inbox.events);
        let listed = self.take_lists(inbox);
        InboxOutcome { stream_ended: ended, changed: ended || listed }
    }

    fn take_events(&mut self, events: &Vec<ServerEvent>) -> (ended: bool)
        ensures
            ended == stream_removed(old(self).key, events@),
            final(self).key == (if ended {
                None
            } else {
                old(self).key
            }),
            final(self).want == wants_after_events(old(self).want, events@),
            final(self).target == old(self).target,
            final(self).ctx_ready == old(self).ctx_ready,
            final(self).inflight == old(self).inflight,
            final(self).server == old(self).server,
    {
        let ghost ev = events@;
        let ghost start_key = self.key;
        let ghost start_want = self.want;
        let mut ended = false;
        let mut k: usize = 0;
        while k < events.len()
            invariant
                k <= events.len(),
                ev == events@,
                ended == stream_removed(start_key, ev.take(k as int)),
                self.key == (if ended {
                    None
                } else {
                    start_key
                }),
                self.want == wants_after_events(start_want, ev.take(k as int)),
                self.target == old(self).target,
                self.ctx_ready == old(self).ctx_ready,
                self.inflight == old(self).inflight,
                self.server == old(self).server,
            decreases events.len() - k,
        {
            let e = events[k];
            let ghost pre = ev.take(k as int);
            let ghost post = ev.take(k + 1);
            assert(post =~= pre.push(e));
            assert(post[k as int] == e);
            assert forall|j: int| 0 <= j < k implies #[trigger] post[j] == pre[j] by {}
            match e.facility {
                Some(Facility::SinkInput) => {
                    self.want.apps = true;
                    let hit = match e.op {
                        Some(SubOp::Removed) => match &self.key {
                            Some(sk) => sk.sink_input == Some(e.index),
                            None => false,
                        },
                        _ => false,
                    };
                    if hit {
                        self.key = None;
                        ended = true;
                    }
                },
                Some(Facility::Sink) => {
                    self.want.sinks = true;
                },
                Some(Facility::Source) => {
                    self.want.inputs = true;
                },
                Some(Facility::Server) => {
                    self.want.server = true;
                },
                _ => {},
            }
            proof {
                if e.facility == Some(Facility::SinkInput) && e.op == Some(SubOp::Removed) && (start_key matches Some(sk) && sk.sink_input == Some(e.index)) {
                    assert(stream_removed(start_key, post));
                }
                if stream_removed(start_key, post) && !stream_removed(start_key, pre) {
                    let j = choose|j: int|
                        0 <= j < post.len() && #[trigger] post[j].facility == Some(Facility::SinkInput)
                            && post[j].op == Some(SubOp::Removed) && (start_key matches Some(sk)
                            && sk.sink_input == Some(post[j].index));
                    assert(j == k);
                }
            }
            k = k + 1;
        }
        assert(ev.take(k as int) =~= ev);
        ended
    }

    fn take_lists(&mut self, inbox: &Inbox) -> (changed: bool)
        ensures
            final(self).key == old(self).key,
            final(self).want == old(self).want,
            final(self).target == old(self).target,
            final(self).ctx_ready == old(self).ctx_ready,
            final(self).inflight == (Inflight {
                apps: old(self).inflight.apps && inbox.apps is None,
                sinks: old(self).inflight.sinks && inbox.sinks is None,
                inputs: old(self).inflight.inputs && inbox.inputs is None,
                server: old(self).inflight.server && inbox.server is None,
            }),
            final(self).server.default_sink@ == (match inbox.server {
                Some(s) => s.0@,
                None => old(self).server.default_sink@,
            }),
            sinks_view(final(self).server.sinks@) == (match inbox.sinks {
                Some(v) => sinks_view(v@),
                None => sinks_view(old(self).server.sinks@),
            }),
            inputs_view(final(self).server.inputs@) == (match inbox.inputs {
                Some(v) => inputs_view(v@),
                None => inputs_view(old(self).server.inputs@),
            }),
            final(self).server.inputs_loaded == (old(self).server.inputs_loaded || inbox.inputs is Some),
            apps_view(final(self).server.apps@) == (match inbox.apps {
                Some(v) => apps_view(v@),
                None => apps_view(old(self).server.apps@),
            }),
            changed == ((inbox.server matches Some(s) && s.0@ != old(self).server.default_sink@) || (
            inbox.inputs matches Some(v) && (inputs_view(v@) != inputs_view(old(self).server.inputs@)
                || !old(self).server.inputs_loaded)) || (inbox.sinks matches Some(v) && sinks_view(v@)
                != sinks_view(old(self).server.sinks@)) || (inbox.apps matches Some(v) && apps_view(v@)
                != apps_view(old(self).server.apps@))),
    {
        let mut changed = false;
        match &inbox.server {
            Some(s) => {
                self.inflight.server = false;
                if !text::same_text(s.0.as_str(), self.server.default_sink.as_str()) {
                    self.server.default_sink = s.0.clone();
                    changed = true;
                }
            },
            None => {},
        }
        match &inbox.inputs {
            Some(v) => {
                self.inflight.inputs = false;
                if !same_inputs(v, &self.server.inputs) || !self.server.inputs_loaded {
                    self.server.inputs = copy_inputs(v);
                    changed = true;
                }
                self.server.inputs_loaded = true;
            },
            None => {},
        }
        match &inbox.sinks {
            Some(v) => {
                self.inflight.sinks = false;
                if !same_sinks(v, &self.server.sinks) {
                    self.server.sinks = copy_sinks(v);
                    changed = true;
                }
            },
            None => {},
        }
        match &inbox.apps {
            Some(v) => {
                self.inflight.apps = false;
                if !same_apps(v, &self.server.apps) {
                    self.server.apps = copy_apps(v);
                    changed = true;
                }
            },
            None => {},
        }
        changed
    }

    /// Reconsiders the stream once the connection is ready: resolves the target (which
    /// may pin or unpin an application stream, or ask for the outputs again) and keeps,
    /// replaces or drops the stream. `alive` tells whether the current stream is still
    /// connecting or recording.
    pub fn reconcile(&mut self, alive: bool) -> (action: StreamAction)
        ensures
            reconciled(*old(self), *final(self), alive, action),
    {
        if !self.ctx_ready {
            return StreamAction::Keep;
        }
        let (resolved, want_sinks) = self.server.resolve(&mut self.target);
        if want_sinks {
            self.want.sinks = true;
        }
        match resolved {
            Resolved::Key(key) => {
                let same = match &self.key {
                    Some(k) => text::same_text(k.source.as_str(), key.source.as_str()) && k.sink_input
                        == key.sink_input && text::same_text(k.label.as_str(), key.label.as_str()),
                    None => false,
                };
                if same && alive {
                    StreamAction::Keep
                } else {
                    self.key = None;
                    StreamAction::Connect(key)
                }
            },
            Resolved::Waiting(msg) => {
                self.key = None;
                StreamAction::Drop(Capture::Waiting(msg))
            },
            Resolved::Nothing => {
                self.key = None;
                StreamAction::Drop(Capture::Idle)
            },
        }
    }

    /// A new target: every list is asked for again, then the stream is reconsidered.
    pub fn set_target(&mut self, t: Target, alive: bool) -> (action: StreamAction)
        ensures
            ({
                let mid = Backend {
                    target: t,
                    want: Inflight { apps: true, sinks: true, inputs: true, ..old(self).want },
                    ..*old(self)
                };
                reconciled(mid, *final(self), alive, action)
            }),
    {
        self.target = t;
        self.want.apps = true;
        self.want.sinks = true;
        self.want.inputs = true;
        self.reconcile(alive)
    }

    /// Asks for every list again.
    pub fn refresh(&mut self)
        ensures
            *final(self) == (Backend { want: Inflight::all_spec(), ..*old(self) }),
    {
        self.want = Inflight::all();
    }

    /// The connection became ready: on the first notice every list is wanted, and
    /// `true` is returned (subscribe and retry the stream now).
    pub fn context_ready(&mut self) -> (r: bool)
        ensures
            r == !old(self).ctx_ready,
            r ==> *final(self) == (Backend { ctx_ready: true, want: Inflight::all_spec(), ..*old(self) }),
            !r ==> *final(self) == *old(self),
    {
        if self.ctx_ready {
            return false;
        }
        self.ctx_ready = true;
        self.want = Inflight::all();
        true
    }

    /// The connection failed or ended: no stream, nothing in flight, not ready.
    pub fn context_lost(&mut self)
        ensures
            *final(self) == (Backend {
                key: None,
                ctx_ready: false,
                inflight: Inflight::none_spec(),
                ..*old(self)
            }),
    {
        self.key = None;
        self.ctx_ready = false;
        self.inflight = Inflight::none();
    }
}

/// A request goes out at most once: right after the requests are issued, none is due
/// until an arrival clears its in-flight mark or an event wants it again.
pub proof fn lemma_requests_settle(ready: bool, want: Inflight, inflight: Inflight)
    ensures
        ({
            let issue = requests_due(ready, want, inflight);
            let want2 = Inflight {
                apps: want.apps && !issue.apps,
                sinks: want.sinks && !issue.sinks,
                inputs: want.inputs && !issue.inputs,
                server: want.server && !issue.server,
            };
            let inflight2 = Inflight {
                apps: inflight.apps || issue.apps,
                sinks: inflight.sinks || issue.sinks,
                inputs: inflight.inputs || issue.inputs,
                server: inflight.server || issue.server,
            };
            requests_due(ready, want2, inflight2) == Inflight::none_spec()
        }),
{
}

impl Inflight {
    pub open spec fn all_spec() -> Inflight {
        Inflight { apps: true, sinks: true, inputs: true, server: true }
    }

    pub open spec fn none_spec() -> Inflight {
        Inflight { apps: false, sinks: false, inputs: false, server: false }
    }
}

} // verus!
