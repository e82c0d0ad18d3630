//! Application state that keys change: the source popup, its list of entries, and the
//! settings bound to keys.
use vstd::prelude::*;
use crate::studio::audio::{
    app_matches, find_sink_named, sink_named, target_label, target_text, AppStream, InputEntry, SinkEntry, Status, Target,
    TargetView,
};
use crate::studio::config::{
    next_direction, next_gradient, next_mode, next_scale, next_wave_style, prev_mode, mode_at,
    Channels, GradientDirection, Mode, Scale, SpectrogramDirection, WaveStyle,
};
use crate::studio::theme::{cycle_preset, cycled_preset, preset_from, preset_index};
use crate::seqs::{first_index, lemma_first_index};
use crate::text::{self, eq_ascii_ci};

verus! {

/// The overlay shown above the visualization.
#[derive(Debug, Clone, Copy, PartialEq, Eq, Structural)]
pub enum Popup {
    Closed,
    Help,
    Sources { selected: usize },
}

/// One line of the source popup.
#[derive(Debug)]
pub enum SourceEntry {
    All,
    Sink(SinkEntry),
    Input(InputEntry),
    App(AppStream),
}

impl Clone for SourceEntry {
    fn clone(&self) -> (r: Self)
        ensures
            r == *self,
    {
        match self {
            SourceEntry::All => SourceEntry::All,
            SourceEntry::Sink(s) => SourceEntry::Sink(s.clone()),
            SourceEntry::Input(i) => SourceEntry::Input(i.clone()),
            SourceEntry::App(a) => SourceEntry::App(a.clone()),
        }
    }
}

/// The target an entry selects.
pub open spec fn entry_target(e: SourceEntry) -> TargetView {
    match e {
        SourceEntry::All => TargetView::All,
        SourceEntry::Sink(s) => TargetView::Sink(s.name@),
        SourceEntry::Input(i) => TargetView::Source(i.name@),
        SourceEntry::App(a) => TargetView::App(a.app_name@, Some(a.index)),
    }
}

/// Whether an entry is what target `t` currently captures.
pub open spec fn entry_is_current(e: SourceEntry, t: TargetView) -> bool {
    match (e, t) {
        (SourceEntry::All, TargetView::All) => true,
        (SourceEntry::Sink(s), TargetView::Sink(n)) => s.name@ == n,
        (SourceEntry::Input(i), TargetView::Source(n)) => i.name@ == n,
        (SourceEntry::App(a), TargetView::App(name, index)) => index == Some(a.index) || (
        index is None && app_matches(a, name)),
        _ => false,
    }
}

/// The popup line of an entry.
pub open spec fn entry_label(e: SourceEntry, st: Status) -> Seq<char> {
    match e {
        SourceEntry::All => {
            let desc = match first_index(st.sinks@, sink_named(st.default_sink@)) {
                Some(i) => if st.sinks@[i].description@.len() > 0 {
                    st.sinks@[i].description@
                } else {
                    st.default_sink@
                },
                None => st.default_sink@,
            };
            if desc.len() == 0 {
                "All output"@
            } else {
                "All output  ("@ + desc + ")"@
            }
        },
        SourceEntry::Sink(s) => "Output: "@ + (if s.description@.len() == 0 {
            s.name@
        } else {
            s.description@
        }),
        SourceEntry::Input(i) => "Input: "@ + (if i.description@.len() == 0 {
            i.name@
        } else {
            i.description@
        }) + (if i.name@ == st.default_source@ {
            "  (default)"@
        } else {
            Seq::empty()
        }),
        SourceEntry::App(a) => {
            let with_title = if a.media_name@.len() > 0 && a.media_name@ != a.app_name@ {
                a.app_name@ + " \u{2014} "@ + a.media_name@
            } else {
                a.app_name@
            };
            if a.binary@.len() > 0 && !eq_ascii_ci(a.app_name@, a.binary@) {
                with_title + "  ["@ + a.binary@ + "]"@
            } else {
                with_title
            }
        },
    }
}

impl SourceEntry {
    pub fn target(&self) -> (r: Target)
        ensures
            r@ == entry_target(*self),
    {
        match self {
            SourceEntry::All => Target::All,
            SourceEntry::Sink(s) => Target::Sink(s.name.clone()),
            SourceEntry::Input(i) => Target::Source(i.name.clone()),
            SourceEntry::App(a) => Target::App { name: a.app_name.clone(), index: Some(a.index) },
        }
    }

    pub fn is_current(&self, t: &Target) -> (r: bool)
        ensures
            r == entry_is_current(*self, t@),
    {
        match (self, t) {
            (SourceEntry::All, Target::All) => true,
            (SourceEntry::Sink(s), Target::Sink(n)) => s.name == *n,
            (SourceEntry::Input(i), Target::Source(n)) => i.name == *n,
            (SourceEntry::App(a), Target::App { name, index }) => {
                let pinned = match index {
                    Some(k) => *k == a.index,
                    None => false,
                };
                pinned || (index.is_none() && a.matches(name.as_str()))
            },
            _ => false,
        }
    }

    pub fn label(&self, st: &Status) -> (r: String)
        ensures
            r@ == entry_label(*self, *st),
    {
        match self {
            SourceEntry::All => {
                let found = find_sink_named(&st.sinks, st.default_sink.as_str());
                let desc = match found {
                    Some(k) => if st.sinks[k].description.as_str().is_empty() {
                        st.default_sink.clone()
                    } else {
                        st.sinks[k].description.clone()
                    },
                    None => st.default_sink.clone(),
                };
                if desc.as_str().is_empty() {
                    text::owned("All output")
                } else {
                    text::concat3("All output  (", desc.as_str(), ")")
                }
            },
            SourceEntry::Sink(s) => {
                let shown = if s.description.as_str().is_empty() {
                    s.name.as_str()
                } else {
                    s.description.as_str()
                };
                text::concat("Output: ", shown)
            },
            SourceEntry::Input(i) => {
                let shown = if i.description.as_str().is_empty() {
                    i.name.as_str()
                } else {
                    i.description.as_str()
                };
                let def = if i.name == st.default_source {
                    "  (default)"
                } else {
                    ""
                };
                proof {
                    reveal_strlit("");
                }
                text::concat3("Input: ", shown, def)
            },
            SourceEntry::App(a) => {
                let mut s = a.app_name.clone();
                if !a.media_name.as_str().is_empty() && !text::same_text(
                    a.media_name.as_str(),
                    a.app_name.as_str(),
                ) {
                    s.append(" \u{2014} ");
                    s.append(a.media_name.as_str());
                }
                if !a.binary.as_str().is_empty() && !text::eq_ignore_ascii_case(
                    a.app_name.as_str(),
                    a.binary.as_str(),
                ) {
                    s.append("  [");
                    s.append(a.binary.as_str());
                    s.append("]");
                }
                s
            },
        }
    }
}

/// The entries of the source popup: all output, every application stream, every output
/// when there is more than one, and every input that is not a monitor.
pub open spec fn entries_for(st: Status) -> Seq<SourceEntry> {
    seq![SourceEntry::All] + st.apps@.map_values(|a: AppStream| SourceEntry::App(a)) + (if st.sinks@.len()
        > 1 {
        st.sinks@.map_values(|s: SinkEntry| SourceEntry::Sink(s))
    } else {
        Seq::empty()
    }) + st.inputs@.filter(|i: InputEntry| !i.is_monitor).map_values(
        |i: InputEntry| SourceEntry::Input(i),
    )
}

/// Builds the entries of the source popup from a status snapshot.
pub fn source_entries(st: &Status) -> (r: Vec<SourceEntry>)
    ensures
        r@ == entries_for(*st),
{
    let mut out: Vec<SourceEntry> = Vec::new();
    out.push(SourceEntry::All);
    let mut i: usize = 0;
    while i < st.apps.len()
        invariant
            i <= st.apps.len(),
            out@ == seq![SourceEntry::All] + st.apps@.take(i as int).map_values(
                |a: AppStream| SourceEntry::App(a),
            ),
        decreases st.apps.len() - i,
    {
        out.push(SourceEntry::App(st.apps[i].clone()));
        assert(st.apps@.take(i + 1) =~= st.apps@.take(i as int).push(st.apps@[i as int]));
        assert(out@ =~= seq![SourceEntry::All] + st.apps@.take(i + 1).map_values(
            |a: AppStream| SourceEntry::App(a),
        ));
        i = i + 1;
    }
    assert(st.apps@.take(i as int) =~= st.apps@);
    let ghost head = out@;
    let mut j: usize = 0;
    if st.sinks.len() > 1 {
        while j < st.sinks.len()
            invariant
                j <= st.sinks.len(),
                out@ == head + st.sinks@.take(j as int).map_values(|s: SinkEntry| SourceEntry::Sink(s)),
            decreases st.sinks.len() - j,
        {
            out.push(SourceEntry::Sink(st.sinks[j].clone()));
            assert(st.sinks@.take(j + 1) =~= st.sinks@.take(j as int).push(st.sinks@[j as int]));
            assert(out@ =~= head + st.sinks@.take(j + 1).map_values(
                |s: SinkEntry| SourceEntry::Sink(s),
            ));
            j = j + 1;
        }
        assert(st.sinks@.take(j as int) =~= st.sinks@);
    }
    let ghost mid = out@;
    assert(mid == head + (if st.sinks@.len() > 1 {
        st.sinks@.map_values(|s: SinkEntry| SourceEntry::Sink(s))
    } else {
        Seq::empty()
    }));
    let ghost keep = |x: InputEntry| !x.is_monitor;
    let mut k: usize = 0;
    while k < st.inputs.len()
        invariant
            k <= st.inputs.len(),
            keep == |x: InputEntry| !x.is_monitor,
            out@ == mid + st.inputs@.take(k as int).filter(keep).map_values(
                |x: InputEntry| SourceEntry::Input(x),
            ),
        decreases st.inputs.len() - k,
    {
        let ghost before = st.inputs@.take(k as int);
        assert(st.inputs@.take(k + 1) =~= before.push(st.inputs@[k as int]));
        assert(before.push(st.inputs@[k as int]).drop_last() =~= before);
        proof {
            reveal_with_fuel(Seq::<InputEntry>::filter, 1);
            assert(st.inputs@.take(k + 1).drop_last() =~= before);
            assert(st.inputs@.take(k + 1).last() == st.inputs@[k as int]);
        }
        if !st.inputs[k].is_monitor {
            out.push(SourceEntry::Input(st.inputs[k].clone()));
            assert(out@ =~= mid + st.inputs@.take(k + 1).filter(keep).map_values(
                |x: InputEntry| SourceEntry::Input(x),
            ));
        } else {
            assert(st.inputs@.take(k + 1).filter(keep) =~= before.filter(keep));
        }
        k = k + 1;
    }
    assert(st.inputs@.take(k as int) =~= st.inputs@);
    assert(out@ =~= entries_for(*st));
    out
}

/// Position of the entry that is current for `t`, or 0 when none is.
pub open spec fn current_position(entries: Seq<SourceEntry>, t: TargetView) -> int {
    match first_index(entries, |e: SourceEntry| entry_is_current(e, t)) {
        Some(i) => i,
        None => 0,
    }
}

/// The entry to select when the source popup opens.
pub fn current_entry(entries: &Vec<SourceEntry>, t: &Target) -> (r: usize)
    ensures
        r == current_position(entries@, t@),
{
    let ghost p = |e: SourceEntry| entry_is_current(e, t@);
    let mut i: usize = 0;
    while i < entries.len()
        invariant
            i <= entries.len(),
            p == |e: SourceEntry| entry_is_current(e, t@),
            forall|k: int| 0 <= k < i ==> !p(#[trigger] entries@[k]),
        decreases entries.len() - i,
    {
        if entries[i].is_current(t) {
            proof {
                lemma_first_index(entries@, p, i as int);
            }
            return i;
        }
        i = i + 1;
    }
    proof {
        lemma_first_index(entries@, p, i as int);
    }
    0
}

/// The selection kept after the list changed to `len` entries.
pub fn clamp_selection(selected: usize, len: usize) -> (r: usize)
    ensures
        r == (if len == 0 {
            0
        } else if selected < len - 1 {
            selected as int
        } else {
            len - 1
        }),
{
    let last = if len == 0 { 0 } else { len - 1 };
    if selected < last {
        selected
    } else {
        last
    }
}

/// A key press, as far as key handling distinguishes keys.
#[derive(Debug, Clone, Copy, PartialEq, Eq, Structural)]
pub enum Key {
    Char(char),
    Up,
    Down,
    Home,
    End,
    Enter,
    Esc,
    Tab,
    BackTab,
    F(u8),
    Other,
}

/// What a key does when no popup is open.
#[derive(Debug, Clone, Copy, PartialEq, Eq, Structural)]
pub enum Command {
    Quit,
    NextMode,
    PrevMode,
    SelectMode(u32),
    OpenSources,
    Refresh,
    GainUp,
    GainDown,
    ToggleAutoGain,
    NextTheme,
    PrevTheme,
    NextGradient,
    ToggleChannels,
    TogglePeaks,
    Thinner,
    Wider,
    SmallerGap,
    LargerGap,
    FasterDecay,
    SlowerDecay,
    SmallerFft,
    LargerFft,
    NextScale,
    NextWaveStyle,
    NextSpectrogramDirection,
    ToggleRotation,
    ToggleStatusBar,
    TogglePause,
    Save,
    Help,
    Ignore,
}

/// The key bindings of the main view. `ctrl` is whether Control was held.
pub open spec fn key_command(key: Key, ctrl: bool) -> Command {
    match key {
        Key::Char(c) => if c == 'c' && ctrl {
            Command::Quit
        } else if c == 'q' {
            Command::Quit
        } else if c == 'm' {
            Command::NextMode
        } else if c == 'M' {
            Command::PrevMode
        } else if '1' <= c && c <= '7' {
            Command::SelectMode((c as u32 - '0' as u32) as u32)
        } else if c == 's' {
            Command::OpenSources
        } else if c == 'r' {
            Command::Refresh
        } else if c == '+' || c == '=' {
            Command::GainUp
        } else if c == '-' || c == '_' {
            Command::GainDown
        } else if c == 'a' {
            Command::ToggleAutoGain
        } else if c == 'c' {
            Command::NextTheme
        } else if c == 'C' {
            Command::PrevTheme
        } else if c == 'd' {
            Command::NextGradient
        } else if c == 't' {
            Command::ToggleChannels
        } else if c == 'p' {
            Command::TogglePeaks
        } else if c == '[' {
            Command::Thinner
        } else if c == ']' {
            Command::Wider
        } else if c == '{' {
            Command::SmallerGap
        } else if c == '}' {
            Command::LargerGap
        } else if c == ',' {
            Command::FasterDecay
        } else if c == '.' {
            Command::SlowerDecay
        } else if c == '<' {
            Command::SmallerFft
        } else if c == '>' {
            Command::LargerFft
        } else if c == 'l' {
            Command::NextScale
        } else if c == 'v' {
            Command::NextWaveStyle
        } else if c == 'o' {
            Command::NextSpectrogramDirection
        } else if c == 'x' {
            Command::ToggleRotation
        } else if c == 'b' {
            Command::ToggleStatusBar
        } else if c == ' ' {
            Command::TogglePause
        } else if c == 'w' {
            Command::Save
        } else if c == '?' || c == 'h' {
            Command::Help
        } else {
            Command::Ignore
        },
        Key::Esc => Command::Quit,
        Key::Tab => Command::NextMode,
        Key::BackTab => Command::PrevMode,
        Key::F(n) => if n == 1 {
            Command::Help
        } else {
            Command::Ignore
        },
        _ => Command::Ignore,
    }
}

/// The command bound to a key in the main view.
pub fn command_for(key: Key, ctrl: bool) -> (r: Command)
    ensures
        r == key_command(key, ctrl),
{
    match key {
        Key::Char(c) => if c == 'c' && ctrl {
            Command::Quit
        } else if c == 'q' {
            Command::Quit
        } else if c == 'm' {
            Command::NextMode
        } else if c == 'M' {
            Command::PrevMode
        } else if '1' <= c && c <= '7' {
            Command::SelectMode(c as u32 - '0' as u32)
        } else if c == 's' {
            Command::OpenSources
        } else if c == 'r' {
            Command::Refresh
        } else if c == '+' || c == '=' {
            Command::GainUp
        } else if c == '-' || c == '_' {
            Command::GainDown
        } else if c == 'a' {
            Command::ToggleAutoGain
        } else if c == 'c' {
            Command::NextTheme
        } else if c == 'C' {
            Command::PrevTheme
        } else if c == 'd' {
            Command::NextGradient
        } else if c == 't' {
            Command::ToggleChannels
        } else if c == 'p' {
            Command::TogglePeaks
        } else if c == '[' {
            Command::Thinner
        } else if c == ']' {
            Command::Wider
        } else if c == '{' {
            Command::SmallerGap
        } else if c == '}' {
            Command::LargerGap
        } else if c == ',' {
            Command::FasterDecay
        } else if c == '.' {
            Command::SlowerDecay
        } else if c == '<' {
            Command::SmallerFft
        } else if c == '>' {
            Command::LargerFft
        } else if c == 'l' {
            Command::NextScale
        } else if c == 'v' {
            Command::NextWaveStyle
        } else if c == 'o' {
            Command::NextSpectrogramDirection
        } else if c == 'x' {
            Command::ToggleRotation
        } else if c == 'b' {
            Command::ToggleStatusBar
        } else if c == ' ' {
            Command::TogglePause
        } else if c == 'w' {
            Command::Save
        } else if c == '?' || c == 'h' {
            Command::Help
        } else {
            Command::Ignore
        },
        Key::Esc => Command::Quit,
        Key::Tab => Command::NextMode,
        Key::BackTab => Command::PrevMode,
        Key::F(n) => if n == 1 {
            Command::Help
        } else {
            Command::Ignore
        },
        _ => Command::Ignore,
    }
}

/// The settings that keys change (the floating-point ones are adjusted by the caller, see
/// [`Effect::Gain`] and [`Effect::Decay`]).
#[derive(Debug, Clone)]
pub struct Settings {
    pub mode: Mode,
    pub channels: Channels,
    pub peaks: bool,
    pub status_bar: bool,
    pub wave_style: WaveStyle,
    pub spectrogram_direction: SpectrogramDirection,
    pub lissajous_rotate: bool,
    pub bar_width: u16,
    pub bar_gap: u16,
    pub fft_size: usize,
    pub scale: Scale,
    pub auto_gain: bool,
    pub theme: String,
    pub direction: GradientDirection,
    /// The `audio.source` setting.
    pub source: String,
}

/// Everything key handling reads and changes.
#[derive(Debug)]
pub struct Controls {
    pub settings: Settings,
    pub popup: Popup,
    pub paused: bool,
    pub quit: bool,
    pub entries: Vec<SourceEntry>,
    pub status: Status,
}

/// Work a key asks of the rest of the program, in order.
#[derive(Debug)]
pub enum Effect {
    /// Ask the capture thread to fetch the server's lists again.
    Refresh,
    /// Switch the capture thread to another target.
    SetTarget(Target),
    /// Show a short message.
    Flash(String),
    /// Rebuild the colour theme from the settings.
    RefreshTheme,
    /// Raise (`true`) or lower the manual gain by 2 dB, within ±60 dB, and show it.
    Gain(bool),
    /// Lengthen (`true`) or shorten the decay by 30 ms, within 0..=2000 ms, and show it.
    Decay(bool),
    /// Write the settings to the configuration file.
    Save,
}

/// Mathematical value of an [`Effect`].
pub enum EffectView {
    Refresh,
    SetTarget(TargetView),
    Flash(Seq<char>),
    RefreshTheme,
    Gain(bool),
    Decay(bool),
    Save,
}

impl View for Effect {
    type V = EffectView;

    open spec fn view(&self) -> EffectView {
        match self {
            Effect::Refresh => EffectView::Refresh,
            Effect::SetTarget(t) => EffectView::SetTarget(t@),
            Effect::Flash(m) => EffectView::Flash(m@),
            Effect::RefreshTheme => EffectView::RefreshTheme,
            Effect::Gain(up) => EffectView::Gain(*up),
            Effect::Decay(slower) => EffectView::Decay(*slower),
            Effect::Save => EffectView::Save,
        }
    }
}

pub open spec fn effect_views(fx: Seq<Effect>) -> Seq<EffectView> {
    fx.map_values(|e: Effect| e@)
}

/// Lower-case name of a gradient direction.
pub open spec fn gradient_name(g: GradientDirection) -> Seq<char> {
    match g {
        GradientDirection::Vertical => "vertical"@,
        GradientDirection::Horizontal => "horizontal"@,
        GradientDirection::Level => "level"@,
        GradientDirection::Solid => "solid"@,
    }
}

/// Lower-case name of a bar scale.
pub open spec fn scale_name(s: Scale) -> Seq<char> {
    match s {
        Scale::Log => "log"@,
        Scale::Linear => "linear"@,
        Scale::Sqrt => "sqrt"@,
    }
}

fn gradient_text(g: GradientDirection) -> (r: &'static str)
    ensures
        r@ == gradient_name(g),
{
    match g {
        GradientDirection::Vertical => "vertical",
        GradientDirection::Horizontal => "horizontal",
        GradientDirection::Level => "level",
        GradientDirection::Solid => "solid",
    }
}

fn scale_text(s: Scale) -> (r: &'static str)
    ensures
        r@ == scale_name(s),
{
    match s {
        Scale::Log => "log",
        Scale::Linear => "linear",
        Scale::Sqrt => "sqrt",
    }
}

/// The settings after a command, leaving the theme and source texts as they are.
pub open spec fn settings_after(s: Settings, c: Command) -> Settings {
    match c {
        Command::NextMode => Settings { mode: next_mode(s.mode), ..s },
        Command::PrevMode => Settings { mode: prev_mode(s.mode), ..s },
        Command::SelectMode(d) => if 1 <= d <= 7 {
            Settings { mode: mode_at(d - 1), ..s }
        } else {
            s
        },
        Command::ToggleAutoGain => Settings { auto_gain: !s.auto_gain, ..s },
        Command::NextGradient => Settings { direction: next_gradient(s.direction), ..s },
        Command::ToggleChannels => Settings {
            channels: if s.channels == Channels::Stereo {
                Channels::Mono
            } else {
                Channels::Stereo
            },
            ..s
        },
        Command::TogglePeaks => Settings { peaks: !s.peaks, ..s },
        Command::Thinner => Settings {
            bar_width: if s.bar_width <= 2 { 1 } else { (s.bar_width - 1) as u16 },
            ..s
        },
        Command::Wider => Settings {
            bar_width: if s.bar_width + 1 > 16 { 16 } else { (s.bar_width + 1) as u16 },
            ..s
        },
        Command::SmallerGap => Settings {
            bar_gap: if s.bar_gap == 0 { 0 } else { (s.bar_gap - 1) as u16 },
            ..s
        },
        Command::LargerGap => Settings {
            bar_gap: if s.bar_gap + 1 > 8 { 8 } else { (s.bar_gap + 1) as u16 },
            ..s
        },
        Command::SmallerFft => Settings {
            fft_size: if s.fft_size / 2 < 256 { 256 } else { (s.fft_size / 2) as usize },
            ..s
        },
        Command::LargerFft => Settings {
            fft_size: if s.fft_size * 2 > 32768 { 32768 } else { (s.fft_size * 2) as usize },
            ..s
        },
        Command::NextScale => Settings { scale: next_scale(s.scale), ..s },
        Command::NextWaveStyle => Settings { wave_style: next_wave_style(s.wave_style), ..s },
        Command::NextSpectrogramDirection => Settings {
            spectrogram_direction: next_direction(s.spectrogram_direction),
            ..s
        },
        Command::ToggleRotation => Settings { lissajous_rotate: !s.lissajous_rotate, ..s },
        Command::ToggleStatusBar => Settings { status_bar: !s.status_bar, ..s },
        _ => s,
    }
}

/// How a command of the main view changes the controls (`new`) and what it asks of the
/// rest of the program (`fx`).
pub open spec fn command_step(old: Controls, new: Controls, c: Command, fx: Seq<EffectView>) -> bool {
    match c {
        Command::Quit => new == Controls { quit: true, ..old } && fx == Seq::<EffectView>::empty(),
        Command::OpenSources => {
            &&& new.entries@ == entries_for(old.status)
            &&& new == Controls {
                popup: Popup::Sources {
                    selected: current_position(entries_for(old.status), old.status.target@) as usize,
                },
                entries: new.entries,
                ..old
            }
            &&& fx == seq![EffectView::Refresh]
        },
        Command::Refresh => new == old && fx == seq![
            EffectView::Refresh,
            EffectView::Flash("refreshing sources"@),
        ],
        Command::GainUp => new == old && fx == seq![EffectView::Gain(true)],
        Command::GainDown => new == old && fx == seq![EffectView::Gain(false)],
        Command::FasterDecay => new == old && fx == seq![EffectView::Decay(false)],
        Command::SlowerDecay => new == old && fx == seq![EffectView::Decay(true)],
        Command::Save => new == old && fx == seq![EffectView::Save],
        Command::Help => new == Controls { popup: Popup::Help, ..old } && fx == Seq::<
            EffectView,
        >::empty(),
        Command::TogglePause => new == Controls { paused: !old.paused, ..old } && fx == Seq::<
            EffectView,
        >::empty(),
        Command::NextTheme | Command::PrevTheme => {
            &&& new.settings.theme@ == cycled_preset(
                old.settings.theme@,
                if c == Command::NextTheme {
                    1
                } else {
                    -1
                },
            )
            &&& new == Controls {
                settings: Settings { theme: new.settings.theme, ..old.settings },
                ..old
            }
            &&& fx == seq![
                EffectView::RefreshTheme,
                EffectView::Flash("theme: "@ + new.settings.theme@),
            ]
        },
        _ => {
            &&& new == Controls { settings: settings_after(old.settings, c), ..old }
            &&& fx == setting_report(new.settings, c)
        },
    }
}

/// Only the gain commands ask for a gain change.
proof fn lemma_only_gain_commands(old: Controls, new: Controls, c: Command, fx: Seq<EffectView>)
    requires
        command_step(old, new, c, fx),
        c != Command::GainUp,
        c != Command::GainDown,
    ensures
        forall|i: int| 0 <= i < fx.len() ==> !(#[trigger] fx[i] is Gain),
{
    if c == Command::Refresh {
        assert(fx[0] is Refresh && fx[1] is Flash);
    } else if c == Command::NextTheme || c == Command::PrevTheme {
        assert(fx[0] is RefreshTheme && fx[1] is Flash);
    } else if c == Command::NextGradient {
        assert(fx[0] is RefreshTheme && fx[1] is Flash);
    }
}

/// In the main view `+` and `=` raise the manual gain and `-` and `_` lower it, leaving
/// the controls as they are; no other key asks for a gain change.
pub proof fn lemma_gain_keys(old: Controls, new: Controls, key: Key, ctrl: bool, fx: Seq<EffectView>)
    requires
        old.popup == Popup::Closed,
        key_step(old, new, key, ctrl, fx),
    ensures
        (key == Key::Char('+') || key == Key::Char('=')) ==> new == old && fx == seq![EffectView::Gain(true)],
        (key == Key::Char('-') || key == Key::Char('_')) ==> new == old && fx == seq![EffectView::Gain(false)],
        fx.contains(EffectView::Gain(true)) ==> key == Key::Char('+') || key == Key::Char('='),
        fx.contains(EffectView::Gain(false)) ==> key == Key::Char('-') || key == Key::Char('_'),
{
    let c = key_command(key, ctrl);
    assert(c == Command::GainUp <==> (key == Key::Char('+') || key == Key::Char('=')));
    assert(c == Command::GainDown <==> (key == Key::Char('-') || key == Key::Char('_')));
    if c != Command::GainUp && c != Command::GainDown {
        lemma_only_gain_commands(old, new, c, fx);
    }
}

/// How a key changes the controls while the source popup is open with `selected` marked.
pub open spec fn sources_step(
    old: Controls,
    new: Controls,
    selected: usize,
    key: Key,
    fx: Seq<EffectView>,
) -> bool {
    let len = old.entries@.len();
    let moved = |sel: int| new == Controls { popup: Popup::Sources { selected: sel as usize }, ..old }
        && fx == Seq::<EffectView>::empty();
    match key {
        Key::Up => moved(if selected == 0 { 0 } else { selected - 1 }),
        Key::Down => moved(if selected + 1 < len { selected + 1 } else { selected as int }),
        Key::Home => moved(0),
        Key::End => moved(if len == 0 { 0 } else { len - 1 }),
        Key::Esc => new == Controls { popup: Popup::Closed, ..old } && fx == Seq::<EffectView>::empty(),
        Key::Enter => choose_step(old, new, selected, fx),
        Key::Char(c) => if c == 'k' {
            moved(if selected == 0 { 0 } else { selected - 1 })
        } else if c == 'j' {
            moved(if selected + 1 < len { selected + 1 } else { selected as int })
        } else if c == ' ' {
            choose_step(old, new, selected, fx)
        } else if c == 'r' {
            new == old && fx == seq![EffectView::Refresh]
        } else if c == 'q' || c == 's' {
            new == Controls { popup: Popup::Closed, ..old } && fx == Seq::<EffectView>::empty()
        } else {
            new == old && fx == Seq::<EffectView>::empty()
        },
        _ => new == old && fx == Seq::<EffectView>::empty(),
    }
}

/// Choosing the marked entry: the popup closes and capture switches to its target.
pub open spec fn choose_step(old: Controls, new: Controls, selected: usize, fx: Seq<EffectView>) -> bool {
    if selected < old.entries@.len() {
        let t = entry_target(old.entries@[selected as int]);
        &&& new.status.target@ == t
        &&& new.settings.source@ == target_text(t)
        &&& new == Controls {
            popup: Popup::Closed,
            settings: Settings { source: new.settings.source, ..old.settings },
            status: Status { target: new.status.target, ..old.status },
            ..old
        }
        &&& fx == seq![
            EffectView::Flash("source: "@ + target_label(t)),
            EffectView::SetTarget(t),
        ]
    } else {
        new == old && fx == Seq::<EffectView>::empty()
    }
}

/// What a key does to the controls and what it asks of the rest of the program.
pub open spec fn key_step(old: Controls, new: Controls, key: Key, ctrl: bool, fx: Seq<EffectView>) -> bool {
    match old.popup {
        Popup::Help => new == Controls { popup: Popup::Closed, ..old } && fx == Seq::<
            EffectView,
        >::empty(),
        Popup::Sources { selected } => sources_step(old, new, selected, key, fx),
        Popup::Closed => command_step(old, new, key_command(key, ctrl), fx),
    }
}

/// Keys that would push a setting past its integer type are left out.
pub open spec fn key_in_range(c: Controls, key: Key, ctrl: bool) -> bool {
    match c.popup {
        Popup::Closed => match key_command(key, ctrl) {
            Command::Wider => c.settings.bar_width < u16::MAX,
            Command::LargerGap => c.settings.bar_gap < u16::MAX,
            Command::LargerFft => c.settings.fft_size * 2 <= usize::MAX,
            _ => true,
        },
        Popup::Sources { selected } => (key == Key::Down || key == Key::Char('j')) ==> selected < usize::MAX,
        Popup::Help => true,
    }
}

proof fn lemma_preset_from_range(name: Seq<char>, i: int)
    ensures
        preset_from(name, i) matches Some(k) ==> 0 <= k < 16,
    decreases 16 - i,
{
    if 0 <= i < 16 {
        lemma_preset_from_range(name, i + 1);
    }
}

/// The message that reports a changed setting.
pub open spec fn setting_report(s: Settings, c: Command) -> Seq<EffectView> {
    match c {
        Command::ToggleAutoGain => seq![
            EffectView::Flash(
                if s.auto_gain {
                    "auto gain on"@
                } else {
                    "auto gain off"@
                },
            ),
        ],
        Command::NextGradient => seq![
            EffectView::RefreshTheme,
            EffectView::Flash("gradient: "@ + gradient_name(s.direction)),
        ],
        Command::SmallerFft | Command::LargerFft => seq![
            EffectView::Flash("fft "@ + text::decimal(s.fft_size as nat)),
        ],
        Command::NextScale => seq![EffectView::Flash("scale: "@ + scale_name(s.scale))],
        _ => Seq::<EffectView>::empty(),
    }
}

impl Settings {
    /// Applies a command that changes one setting.
    pub fn apply(&mut self, c: Command)
        requires
            c == Command::Wider ==> old(self).bar_width < u16::MAX,
            c == Command::LargerGap ==> old(self).bar_gap < u16::MAX,
            c == Command::LargerFft ==> old(self).fft_size * 2 <= usize::MAX,
        ensures
            *final(self) == settings_after(*old(self), c),
    {
        match c {
            Command::NextMode => self.mode = self.mode.next(),
            Command::PrevMode => self.mode = self.mode.prev(),
            Command::SelectMode(d) => {
                if let Some(m) = Mode::from_digit(d) {
                    self.mode = m;
                }
            },
            Command::ToggleAutoGain => self.auto_gain = !self.auto_gain,
            Command::NextGradient => self.direction = self.direction.next(),
            Command::ToggleChannels => {
                self.channels = if self.channels == Channels::Stereo {
                    Channels::Mono
                } else {
                    Channels::Stereo
                };
            },
            Command::TogglePeaks => self.peaks = !self.peaks,
            Command::Thinner => {
                let w = if self.bar_width == 0 {
                    0
                } else {
                    self.bar_width - 1
                };
                self.bar_width = if w < 1 { 1 } else { w };
            },
            Command::Wider => {
                let w = self.bar_width + 1;
                self.bar_width = if w > 16 { 16 } else { w };
            },
            Command::SmallerGap => {
                self.bar_gap = if self.bar_gap == 0 {
                    0
                } else {
                    self.bar_gap - 1
                };
            },
            Command::LargerGap => {
                let g = self.bar_gap + 1;
                self.bar_gap = if g > 8 { 8 } else { g };
            },
            Command::SmallerFft => {
                let h = self.fft_size / 2;
                self.fft_size = if h < 256 { 256 } else { h };
            },
            Command::LargerFft => {
                let d = self.fft_size * 2;
                self.fft_size = if d > 32768 { 32768 } else { d };
            },
            Command::NextScale => self.scale = self.scale.next(),
            Command::NextWaveStyle => self.wave_style = self.wave_style.next(),
            Command::NextSpectrogramDirection => {
                self.spectrogram_direction = self.spectrogram_direction.next();
            },
            Command::ToggleRotation => self.lissajous_rotate = !self.lissajous_rotate,
            Command::ToggleStatusBar => self.status_bar = !self.status_bar,
            _ => {},
        }
    }

    /// The messages that report the setting a command changed.
    pub fn report(&self, c: Command) -> (fx: Vec<Effect>)
        ensures
            effect_views(fx@) == setting_report(*self, c),
    {
        let mut fx: Vec<Effect> = Vec::new();
        match c {
            Command::ToggleAutoGain => {
                let msg = if self.auto_gain {
                    "auto gain on"
                } else {
                    "auto gain off"
                };
                fx.push(Effect::Flash(text::owned(msg)));
            },
            Command::NextGradient => {
                fx.push(Effect::RefreshTheme);
                fx.push(Effect::Flash(text::concat("gradient: ", gradient_text(self.direction))));
            },
            Command::SmallerFft | Command::LargerFft => {
                let digits = text::decimal_text(self.fft_size as u64);
                fx.push(Effect::Flash(text::concat("fft ", digits.as_str())));
            },
            Command::NextScale => {
                fx.push(Effect::Flash(text::concat("scale: ", scale_text(self.scale))));
            },
            _ => {},
        }
        proof {
            let v = effect_views(fx@);
            if fx@.len() == 0 {
                assert(v =~= Seq::<EffectView>::empty());
            } else if fx@.len() == 1 {
                assert(v =~= seq![fx@[0]@]);
            } else if fx@.len() == 2 {
                assert(v =~= seq![fx@[0]@, fx@[1]@]);
            }
        }
        fx
    }
}

impl Controls {
    fn choose_marked(&mut self, selected: usize) -> (fx: Vec<Effect>)
        ensures
            choose_step(*old(self), *final(self), selected, effect_views(fx@)),
    {
        let mut fx: Vec<Effect> = Vec::new();
        if selected < self.entries.len() {
            let t = self.entries[selected].target();
            self.popup = Popup::Closed;
            let label = t.short_label();
            fx.push(Effect::Flash(text::concat("source: ", label.as_str())));
            self.settings.source = t.to_spec();
            self.status.target = t.clone();
            fx.push(Effect::SetTarget(t));
        }
        assert(effect_views(fx@) =~= (if selected < old(self).entries@.len() {
            seq![
                EffectView::Flash("source: "@ + target_label(entry_target(old(self).entries@[selected as int]))),
                EffectView::SetTarget(entry_target(old(self).entries@[selected as int])),
            ]
        } else {
            Seq::<EffectView>::empty()
        }));
        fx
    }

    fn sources_key(&mut self, selected: usize, key: Key) -> (fx: Vec<Effect>)
        requires
            old(self).popup == (Popup::Sources { selected }),
        ensures
            sources_step(*old(self), *final(self), selected, key, effect_views(fx@)),
    {
        let len = self.entries.len();
        let mut fx: Vec<Effect> = Vec::new();
        let up = if selected == 0 { 0 } else { selected - 1 };
        let down = if len > 0 && selected < len - 1 { selected + 1 } else { selected };
        match key {
            Key::Up => self.popup = Popup::Sources { selected: up },
            Key::Down => self.popup = Popup::Sources { selected: down },
            Key::Home => self.popup = Popup::Sources { selected: 0 },
            Key::End => self.popup = Popup::Sources { selected: if len == 0 { 0 } else { len - 1 } },
            Key::Esc => self.popup = Popup::Closed,
            Key::Enter => {
                fx = self.choose_marked(selected);
            },
            Key::Char(c) => {
                if c == 'k' {
                    self.popup = Popup::Sources { selected: up };
                } else if c == 'j' {
                    self.popup = Popup::Sources { selected: down };
                } else if c == ' ' {
                    fx = self.choose_marked(selected);
                } else if c == 'r' {
                    fx.push(Effect::Refresh);
                } else if c == 'q' || c == 's' {
                    self.popup = Popup::Closed;
                }
            },
            _ => {},
        }
        proof {
            if fx@.len() == 0 {
                assert(effect_views(fx@) =~= Seq::<EffectView>::empty());
            }
            if fx@.len() == 1 && key == Key::Char('r') {
                assert(effect_views(fx@) =~= seq![EffectView::Refresh]);
            }
        }
        fx
    }

    fn run_command(&mut self, c: Command) -> (fx: Vec<Effect>)
        requires
            old(self).popup == Popup::Closed,
            c == Command::Wider ==> old(self).settings.bar_width < u16::MAX,
            c == Command::LargerGap ==> old(self).settings.bar_gap < u16::MAX,
            c == Command::LargerFft ==> old(self).settings.fft_size * 2 <= usize::MAX,
        ensures
            command_step(*old(self), *final(self), c, effect_views(fx@)),
    {
        let mut fx: Vec<Effect> = Vec::new();
        match c {
            Command::Quit => self.quit = true,
            Command::OpenSources => {
                fx.push(Effect::Refresh);
                let entries = source_entries(&self.status);
                let cur = current_entry(&entries, &self.status.target);
                self.entries = entries;
                self.popup = Popup::Sources { selected: cur };
            },
            Command::Refresh => {
                fx.push(Effect::Refresh);
                fx.push(Effect::Flash(text::owned("refreshing sources")));
            },
            Command::GainUp => fx.push(Effect::Gain(true)),
            Command::GainDown => fx.push(Effect::Gain(false)),
            Command::FasterDecay => fx.push(Effect::Decay(false)),
            Command::SlowerDecay => fx.push(Effect::Decay(true)),
            Command::Save => fx.push(Effect::Save),
            Command::Help => self.popup = Popup::Help,
            Command::TogglePause => self.paused = !self.paused,
            Command::NextTheme | Command::PrevTheme => {
                let step: i32 = if c == Command::NextTheme {
                    1
                } else {
                    -1
                };
                proof {
                    lemma_preset_from_range(self.settings.theme@, 0);
                }
                let name = cycle_preset(self.settings.theme.as_str(), step);
                self.settings.theme = text::owned(name);
                fx.push(Effect::RefreshTheme);
                fx.push(Effect::Flash(text::concat("theme: ", self.settings.theme.as_str())));
            },
            _ => {
                self.settings.apply(c);
                fx = self.settings.report(c);
            },
        }
        proof {
            let v = effect_views(fx@);
            if fx@.len() == 0 {
                assert(v =~= Seq::<EffectView>::empty());
            } else if fx@.len() == 1 {
                assert(v =~= seq![fx@[0]@]);
            } else if fx@.len() == 2 {
                assert(v =~= seq![fx@[0]@, fx@[1]@]);
            }
        }
        fx
    }

    /// Handles one key press; `ctrl` is whether Control was held. Returns the work asked
    /// of the rest of the program, in order.
    pub fn on_key(&mut self, key: Key, ctrl: bool) -> (fx: Vec<Effect>)
        requires
            key_in_range(*old(self), key, ctrl),
        ensures
            key_step(*old(self), *final(self), key, ctrl, effect_views(fx@)),
    {
        match self.popup {
            Popup::Help => {
                self.popup = Popup::Closed;
                let fx: Vec<Effect> = Vec::new();
                assert(effect_views(fx@) =~= Seq::<EffectView>::empty());
                fx
            },
            Popup::Sources { selected } => self.sources_key(selected, key),
            Popup::Closed => {
                let c = command_for(key, ctrl);
                self.run_command(c)
            },
        }
    }
}

} // verus!
