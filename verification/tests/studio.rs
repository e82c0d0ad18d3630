use pulse_vis::studio::app::{clamp_selection, command_for, Command, Key};
use pulse_vis::studio::audio::{
    AppStream, Capture, Connection, InputEntry, ServerState, SinkEntry, Status, Target,
};
use pulse_vis::studio::backend::{
    Backend, Facility, Inbox, Inflight, ServerEvent, StreamAction, SubOp,
};
use pulse_vis::studio::cli::{listing_complete, source_spec, sources_report, split_gradient};
use pulse_vis::studio::config::{is_power_of_two, validate, ConfigError, Mode};
use pulse_vis::studio::ring::Ring;
use pulse_vis::studio::theme::{cycle_preset, preset, preset_entry, Rgb, TermColor, PRESET_COUNT};
use pulse_vis::studio::ui::{
    capture_notice_text, layout, status_source_text, truncate, truncate_left, NoticeLevel,
};

#[test]
fn parse_targets() {
    assert_eq!(Target::parse("all"), Target::All);
    assert_eq!(Target::parse(""), Target::All);
    assert_eq!(Target::parse("app:Firefox"), Target::App { name: "Firefox".into(), index: None });
    assert_eq!(Target::parse("mpv"), Target::App { name: "mpv".into(), index: None });
    assert_eq!(Target::parse("sink:hdmi"), Target::Sink("hdmi".into()));
    assert_eq!(Target::parse("source:mic"), Target::Source("mic".into()));
    assert_eq!(Target::parse("app:Firefox").to_spec(), "app:Firefox");
}

#[test]
fn ring_latest_pads() {
    let mut ring = Ring::new(8);
    ring.push_interleaved(&[1.0, -1.0, 2.0, -2.0]);
    let (mut l, mut r) = (Vec::new(), Vec::new());
    ring.latest(4, &mut l, &mut r);
    assert_eq!(l, vec![0.0, 0.0, 1.0, 2.0]);
    assert_eq!(r, vec![0.0, 0.0, -1.0, -2.0]);
    ring.push_interleaved(&[3.0; 40]);
    ring.latest(3, &mut l, &mut r);
    assert_eq!(l, vec![3.0, 3.0, 3.0]);
    assert_eq!(ring.total, 22);
}

#[test]
fn app_matching() {
    let a = AppStream {
        app_name: "Firefox".into(),
        binary: "firefox-bin".into(),
        media_name: "YouTube".into(),
        ..Default::default()
    };
    assert!(a.matches("fire"));
    assert!(a.matches("youtube"));
    assert!(!a.matches("mpv"));
    assert!(!a.matches(""));
}

#[test]
fn mode_cycle() {
    assert_eq!(Mode::Radial.next(), Mode::Bars);
    assert_eq!(Mode::Bars.prev(), Mode::Radial);
    assert_eq!(Mode::from_digit(3), Some(Mode::Wave));
    assert_eq!(Mode::from_digit(0), None);
}

#[test]
fn parse_hex() {
    assert_eq!(Rgb::parse("#ff8000"), Some(Rgb(255, 128, 0)));
    assert_eq!(Rgb::parse("0F0"), Some(Rgb(0, 255, 0)));
    assert_eq!(Rgb::parse("nope"), None);
}

#[test]
fn presets_parse() {
    for i in 0..PRESET_COUNT {
        let (name, stops) = preset_entry(i);
        for s in stops.iter() {
            assert!(Rgb::parse(s).is_some(), "bad colour {s} in {name}");
        }
    }
}

#[test]
fn cycling() {
    let last = preset_entry(PRESET_COUNT - 1).0;
    assert_eq!(cycle_preset("spectrum", 1), "classic");
    assert_eq!(cycle_preset("spectrum", -1), last);
    assert_eq!(cycle_preset("custom", 1), "spectrum");
    assert_eq!(cycle_preset("custom", -1), last);
}

#[test]
fn indexed_fallback() {
    assert_eq!(Rgb(255, 0, 0).to_color(false), TermColor::Indexed(196));
    assert_eq!(Rgb(0, 0, 0).to_color(false), TermColor::Indexed(16));
    assert_eq!(Rgb(128, 128, 128).to_color(false), TermColor::Indexed(244));
}

#[test]
fn layout_fits_width() {
    for w in 1..200u16 {
        for stereo in [false, true] {
            let l = layout(w, 0, 2, 1, stereo);
            let used = l.slots * l.bar_w as usize + (l.slots - 1) * l.gap as usize;
            assert!(used <= w.max(2) as usize, "w={w} stereo={stereo} used={used}");
            if stereo {
                assert_eq!(l.slots % 2, 0);
            }
        }
    }
}

#[test]
fn fixed_bar_count() {
    let l = layout(120, 30, 2, 1, false);
    assert_eq!(l.slots, 30);
    assert_eq!(l.bar_w, 3);
    let l = layout(20, 30, 2, 1, false);
    assert_eq!(l.slots, 20);
    assert_eq!(l.bar_w, 1);
}

#[test]
fn target_spec_round_trip() {
    for t in [
        Target::All,
        Target::Sink("hdmi".into()),
        Target::Source("mic".into()),
        Target::App { name: "mpv".into(), index: None },
    ] {
        assert_eq!(Target::parse(&t.to_spec()), t);
    }
}

#[test]
fn preset_cycle_undo() {
    for i in 0..PRESET_COUNT {
        let name = preset_entry(i).0;
        assert_eq!(cycle_preset(cycle_preset(name, 1), -1), name);
        assert_eq!(cycle_preset(name, PRESET_COUNT as i32), name);
    }
    assert!(preset("nope").is_none());
    assert_eq!(preset("spectrum").map(|v| v.len() >= 1), Some(true));
}

#[test]
fn indexed_and_true_colors() {
    assert_eq!(Rgb(1, 2, 3).to_color(true), TermColor::Rgb(1, 2, 3));
    assert_eq!(Rgb(255, 255, 255).to_color(false), TermColor::Indexed(231));
}

#[test]
fn power_of_two_and_validation() {
    assert!(is_power_of_two(4096));
    assert!(!is_power_of_two(3000));
    assert!(!is_power_of_two(0));
    assert_eq!(validate(4096, true, 2, 60, 48000, true), Ok(()));
    assert_eq!(validate(3000, true, 2, 60, 48000, true), Err(ConfigError::FftSize));
    assert_eq!(validate(4096, false, 2, 60, 48000, true), Err(ConfigError::FrequencyRange));
    assert_eq!(validate(4096, true, 0, 60, 48000, true), Err(ConfigError::BarWidth));
    assert_eq!(validate(4096, true, 2, 500, 48000, true), Err(ConfigError::Fps));
    assert_eq!(validate(4096, true, 2, 60, 100, true), Err(ConfigError::SampleRate));
    assert_eq!(validate(4096, true, 2, 60, 48000, false), Err(ConfigError::DynamicRange));
}

#[test]
fn truncation_marks_cut_text() {
    assert_eq!(truncate("hello", 10), "hello");
    assert_eq!(truncate("hello world", 5), "hell…");
    assert_eq!(truncate_left("hello world", 5), "…orld");
    assert_eq!(clamp_selection(10, 3), 2);
    assert_eq!(clamp_selection(1, 3), 1);
}

#[test]
fn keys_map_to_commands() {
    assert_eq!(command_for(Key::Char('q'), false), Command::Quit);
}

fn sink(index: u32, name: &str, desc: &str) -> SinkEntry {
    SinkEntry { index, name: name.into(), description: desc.into(), monitor: format!("{name}.monitor") }
}

fn backend(target: Target) -> Backend {
    Backend {
        target,
        key: None,
        ctx_ready: true,
        want: Inflight::none(),
        inflight: Inflight::none(),
        server: ServerState {
            default_sink: "out".into(),
            sinks: vec![sink(1, "out", "Speakers")],
            inputs: vec![],
            inputs_loaded: true,
            apps: vec![],
        },
    }
}

#[test]
fn requests_go_out_once() {
    let mut b = backend(Target::All);
    b.want = Inflight::all();
    let first = b.issue_requests();
    assert_eq!(first, Inflight::all());
    assert_eq!(b.issue_requests(), Inflight::none());
    b.ctx_ready = false;
    b.want = Inflight::all();
    b.inflight = Inflight::none();
    assert_eq!(b.issue_requests(), Inflight::none());
}

#[test]
fn reconcile_keeps_a_live_stream() {
    let mut b = backend(Target::All);
    let first = b.reconcile(false);
    let key = match first {
        StreamAction::Connect(k) => k,
        other => panic!("expected a connection, got {other:?}"),
    };
    assert_eq!(key.source, "out.monitor");
    assert_eq!(key.label, "All output · Speakers");
    b.key = Some(key);
    assert!(matches!(b.reconcile(true), StreamAction::Keep));
    assert!(matches!(b.reconcile(false), StreamAction::Connect(_)));
    let mut w = backend(Target::Sink("nowhere".into()));
    assert!(matches!(w.reconcile(true), StreamAction::Drop(_)));
    let mut n = backend(Target::Nothing);
    assert!(matches!(n.reconcile(true), StreamAction::Drop(_)));
}

#[test]
fn removed_stream_ends_capture() {
    let mut b = backend(Target::All);
    if let StreamAction::Connect(mut k) = b.reconcile(false) {
        k.sink_input = Some(7);
        b.key = Some(k);
    }
    let inbox = Inbox {
        apps: None,
        sinks: Some(vec![sink(1, "out", "Speakers")]),
        inputs: None,
        server: None,
        events: vec![
            ServerEvent { facility: Some(Facility::Sink), op: Some(SubOp::Changed), index: 1 },
            ServerEvent { facility: Some(Facility::SinkInput), op: Some(SubOp::Removed), index: 7 },
        ],
    };
    let out = b.process_inbox(&inbox);
    assert!(out.stream_ended);
    assert!(out.changed);
    assert!(b.key.is_none());
    assert!(b.want.apps && b.want.sinks && !b.want.inputs);
    let quiet = Inbox { apps: None, sinks: Some(vec![sink(1, "out", "Speakers")]), inputs: None, server: None, events: vec![] };
    let out = b.process_inbox(&quiet);
    assert!(!out.changed && !out.stream_ended);
}

#[test]
fn cli_source_and_gradient() {
    assert_eq!(source_spec(Some("mpv"), Some("x"), None, true).as_deref(), Some("app:mpv"));
    assert_eq!(source_spec(None, Some("hdmi"), Some("mic"), false).as_deref(), Some("sink:hdmi"));
    assert_eq!(source_spec(None, None, Some("mic"), false).as_deref(), Some("source:mic"));
    assert_eq!(source_spec(None, None, None, true).as_deref(), Some("all"));
    assert_eq!(source_spec(None, None, None, false), None);
    assert_eq!(split_gradient(" #fff, ,#000 ,"), vec!["#fff".to_string(), "#000".to_string()]);
    assert!(split_gradient("").is_empty());
}

#[test]
fn report_lists_sources() {
    let st = Status {
        server_name: "PipeWire".into(),
        default_sink: "out".into(),
        default_source: "mic".into(),
        sinks: vec![sink(1, "out", "Speakers")],
        inputs: vec![
            InputEntry { index: 3, name: "mic".into(), description: "".into(), is_monitor: false },
            InputEntry { index: 4, name: "out.monitor".into(), description: "Mon".into(), is_monitor: true },
        ],
        inputs_loaded: true,
        apps: vec![],
        apps_loaded: true,
        ..Default::default()
    };
    let text = sources_report(&st);
    assert!(text.starts_with("Server: PipeWire\nOutputs (sinks):\n  1    Speakers  [default]\n       name: out\n"));
    assert!(text.contains("Inputs (sources):\n  3    mic  [default]\n       name: mic\nApplications"));
    assert!(text.contains("  (none playing)\n"));
    assert!(!text.contains("Mon"));
    assert!(listing_complete(&st));
}

#[test]
fn notice_follows_connection_then_capture() {
    let n = |c: Connection, k: Capture| capture_notice_text(&c, &k);
    assert_eq!(
        n(Connection::Failed("refused".into()), Capture::Idle),
        Some(("Cannot reach the audio server: refused".to_string(), NoticeLevel::Error))
    );
    assert_eq!(
        n(Connection::Connecting, Capture::Error("x".into())),
        Some(("Connecting to the audio server…".to_string(), NoticeLevel::Warning))
    );
    assert_eq!(
        n(Connection::Ready, Capture::Connecting("Firefox".into())),
        Some(("Opening Firefox…".to_string(), NoticeLevel::Warning))
    );
    assert_eq!(
        n(Connection::Ready, Capture::Waiting("waiting for 'mpv' to play audio".into())),
        Some(("waiting for 'mpv' to play audio".to_string(), NoticeLevel::Warning))
    );
    assert_eq!(n(Connection::Ready, Capture::Error("gone".into())), Some(("gone".to_string(), NoticeLevel::Error)));
    assert_eq!(
        n(Connection::Ready, Capture::Streaming("All output".into())),
        Some(("Waiting for audio…".to_string(), NoticeLevel::Quiet))
    );
    assert_eq!(n(Connection::Ready, Capture::Idle), None);
}

#[test]
fn status_bar_names_the_source_state() {
    let n = |c: Connection, k: Capture| status_source_text(&c, &k);
    assert_eq!(n(Connection::Failed("refused".into()), Capture::Idle), ("audio server: refused".to_string(), NoticeLevel::Error));
    assert_eq!(n(Connection::Connecting, Capture::Idle), ("connecting to audio server…".to_string(), NoticeLevel::Warning));
    assert_eq!(n(Connection::Ready, Capture::Streaming("mpv".into())), ("mpv".to_string(), NoticeLevel::Normal));
    assert_eq!(n(Connection::Ready, Capture::Connecting("mpv".into())), ("mpv (connecting)".to_string(), NoticeLevel::Warning));
    assert_eq!(n(Connection::Ready, Capture::Waiting("w".into())), ("w".to_string(), NoticeLevel::Warning));
    assert_eq!(n(Connection::Ready, Capture::Error("e".into())), ("e".to_string(), NoticeLevel::Error));
    assert_eq!(n(Connection::Ready, Capture::Idle), ("no capture".to_string(), NoticeLevel::Quiet));
}

#[test]
fn colour_pairs_read_as_hex_numbers() {
    assert_eq!(Rgb::parse("#+f+f+f"), Some(Rgb(15, 15, 15)));
    assert_eq!(Rgb::parse("#f+f+f+"), None);
    assert_eq!(Rgb::parse("#0a0B0c"), Some(Rgb(10, 11, 12)));
}
