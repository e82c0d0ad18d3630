use pulse_vis::multi::app::{
    band_count, dedup_names, join, sort_by_lower, source_label, source_options, Adjust, Controls,
    Effect, Key, KeyCode, SourceKind,
};
use pulse_vis::multi::audio::{reconcile_plan, targets, Input, Inventory, Sink, Target};
use pulse_vis::multi::config::{
    parse_color, ColorError, Config, FloatChecks, Mode, Quality, SettingsError,
};
use pulse_vis::multi::ui::{centered, color, palette};
use pulse_vis::studio::ui::Rect;

fn input(index: u32, sink: u32, props: &[(&str, &str)]) -> Input {
    Input {
        index,
        sink,
        corked: false,
        properties: props.iter().map(|(k, v)| (k.to_string(), v.to_string())).collect(),
    }
}

#[test]
fn selection_groups_streams_and_tracks_sink_moves() {
    let mut inv = Inventory {
        sinks: vec![
            Sink {
                index: 1,
                name: "a".into(),
                description: "A".into(),
                monitor_source: "a.monitor".into(),
            },
            Sink {
                index: 2,
                name: "b".into(),
                description: "B".into(),
                monitor_source: "b.monitor".into(),
            },
        ],
        inputs: vec![Input {
            index: 9,
            sink: 1,
            corked: false,
            properties: vec![("application.name".into(), "Browser".into())],
        }],
    };
    assert_eq!(targets(&inv, &[], None).len(), 2);
    assert_eq!(targets(&inv, &["BROW".into()], None)[0].input, Some(9));
    inv.inputs[0].sink = 2;
    assert_eq!(targets(&inv, &["browser".into()], None)[0].monitor, "b.monitor");
    assert!(targets(&inv, &["missing".into()], None).is_empty());
    assert_eq!(targets(&inv, &["browser".into(), "brow".into()], None).len(), 1);
}

#[test]
fn rejects_invalid_values() {
    let ok = FloatChecks { sensitivity: true, smoothing: true, frequency: true, floor_db: true };
    let c = Config::default();
    // sensitivity NaN
    assert!(c.validate(FloatChecks { sensitivity: false, ..ok }).is_err());
    // max_frequency 10
    assert!(c.validate(FloatChecks { frequency: false, ..ok }).is_err());
    assert!(parse_color("#ééé").is_err());
}

#[test]
fn default_config_is_valid() {
    let ok = FloatChecks { sensitivity: true, smoothing: true, frequency: true, floor_db: true };
    assert_eq!(Config::default().validate(ok), Ok(()));
}

#[test]
fn validation_reports_first_failure() {
    let ok = FloatChecks { sensitivity: true, smoothing: true, frequency: true, floor_db: true };
    let mut c = Config::default();
    c.fps = 5;
    c.bar_width = 0;
    assert_eq!(c.validate(ok), Err(SettingsError::Fps));
    c.fps = 60;
    assert_eq!(c.validate(ok), Err(SettingsError::BarSize));
    c.bar_width = 2;
    c.theme = "neon".into();
    assert_eq!(c.validate(ok), Err(SettingsError::Theme));
    c.theme = "custom".into();
    c.gradient = vec!["#000000".into()];
    assert_eq!(c.validate(ok), Err(SettingsError::GradientLength));
    c.gradient = vec!["#000000".into(), "#12345G".into()];
    assert_eq!(c.validate(ok), Err(SettingsError::Color(ColorError::Digits("#12345G".into()))));
    c.gradient = vec!["#000000".into(), "#fff".into()];
    assert_eq!(c.validate(ok), Err(SettingsError::Color(ColorError::Format("#fff".into()))));
    c.gradient = vec!["#000000".into(), "#ffffff".into()];
    c.apps = vec!["mpv".into(), "  ".into()];
    assert_eq!(c.validate(ok), Err(SettingsError::EmptyApp));
    assert_eq!(SettingsError::EmptyApp.message(), "app filters cannot be empty");
    assert_eq!(
        SettingsError::Color(ColorError::Format("#fff".into())).message(),
        "Invalid color \"#fff\": expected #RRGGBB"
    );
}

#[test]
fn colors_parse() {
    assert_eq!(parse_color("#45E0B8"), Ok((0x45, 0xE0, 0xB8)));
    assert_eq!(parse_color("090e1a"), Ok((9, 14, 26)));
    assert_eq!(parse_color("#12"), Err(ColorError::Format("#12".into())));
    assert_eq!(parse_color("zzzzzz"), Err(ColorError::Digits("zzzzzz".into())));
    assert_eq!(color("bad"), (255, 255, 255));
    assert_eq!(color("#010203"), (1, 2, 3));
}

#[test]
fn palettes_follow_theme() {
    let mut c = Config::default();
    assert_eq!(palette(&c), vec![(0x45, 0xE0, 0xB8), (0x55, 0xA7, 0xFF), (0xC5, 0x8C, 0xFF)]);
    c.theme = "mono".into();
    assert_eq!(palette(&c), vec![(0xD8, 0xE2, 0xF0), (255, 255, 255)]);
    c.theme = "custom".into();
    c.gradient = vec!["#000000".into(), "oops".into()];
    assert_eq!(palette(&c), vec![(0, 0, 0), (255, 255, 255)]);
}

#[test]
fn modes_and_quality_cycle() {
    let mut m = Mode::Spectrum;
    for _ in 0..6 {
        m = m.next();
    }
    assert_eq!(m, Mode::Spectrum);
    assert_eq!(Mode::Radial.next(), Mode::Spectrum);
    assert_eq!(Mode::Vu.name(), "VU meters");
    assert_eq!(Quality::Ultra.next(), Quality::Low);
    assert_eq!(Quality::High.size(), 4096);
}

#[test]
fn theme_and_settings_steps() {
    let mut c = Config::default();
    c.theme_step(1);
    assert_eq!(c.theme, "fire");
    c.theme_step(-1);
    assert_eq!(c.theme, "aurora");
    c.theme_step(-1);
    assert_eq!(c.theme, "custom");
    c.theme = "unknown".into();
    c.theme_step(1);
    assert_eq!(c.theme, "fire");
    assert_eq!(c.setting(0, 1), Adjust::Sensitivity { up: true });
    assert_eq!(c.setting(1, -1), Adjust::Smoothing { direction: -1 });
    assert_eq!(c.setting(2, -1), Adjust::Done);
    assert_eq!(c.quality, Quality::Medium);
    c.setting(3, 1);
    assert_eq!(c.fps, 65);
    c.fps = 142;
    c.setting(3, 1);
    assert_eq!(c.fps, 144);
    c.setting(7, 1);
    c.setting(7, 1);
    c.setting(7, 1);
    c.setting(7, 1);
    assert_eq!(c.bar_gap, 4);
    c.setting(6, -1);
    c.setting(6, -1);
    assert_eq!(c.bar_width, 1);
}

#[test]
fn band_counts() {
    assert_eq!(band_count(Mode::Spectrum, 122, 2, 1), 40);
    assert_eq!(band_count(Mode::Spectrum, 1, 2, 1), 1);
    assert_eq!(band_count(Mode::Radial, 50, 2, 1), 96);
    assert_eq!(band_count(Mode::Waveform, 10, 2, 1), 32);
    assert_eq!(band_count(Mode::Waveform, 1000, 2, 1), 256);
    assert_eq!(band_count(Mode::Waveform, 102, 2, 1), 100);
}

#[test]
fn names_sort_and_merge() {
    let v: Vec<String> = vec!["mpv".into(), "Firefox".into(), "alpha".into(), "MPV".into()];
    let s = sort_by_lower(&v);
    assert_eq!(s, vec!["alpha".to_string(), "Firefox".into(), "mpv".into(), "MPV".into()]);
    assert_eq!(dedup_names(s), vec!["alpha".to_string(), "Firefox".into(), "mpv".into()]);
    assert_eq!(join(&vec!["a".into(), "b".into()], " + "), "a + b");
}

fn inventory() -> Inventory {
    Inventory {
        sinks: vec![Sink {
            index: 1,
            name: "hw".into(),
            description: "Speakers".into(),
            monitor_source: "hw.monitor".into(),
        }],
        inputs: vec![
            input(5, 1, &[("application.name", "Firefox")]),
            Input { corked: true, ..input(6, 1, &[("application.process.binary", "mpv")]) },
        ],
    }
}

#[test]
fn source_list_and_choice() {
    let inv = inventory();
    let mut c = Config::default();
    let opts = source_options(&c, &inv);
    let labels: Vec<&str> = opts.iter().map(|o| o.label.as_str()).collect();
    assert_eq!(
        labels,
        vec![
            "All outputs / combined system audio",
            "Output · Speakers",
            "App · Firefox  (1 streams, 1 active)",
            "App · mpv  (1 streams, 0 active)",
        ]
    );
    assert!(opts[0].selected);
    assert!(matches!(opts[3].kind, SourceKind::App(ref n) if n == "mpv"));
    c.choose_source(&inv, 3);
    assert_eq!(c.apps, vec!["mpv".to_string()]);
    assert_eq!(source_label(&c, &inv, false), "mpv");
    assert!(source_options(&c, &inv)[3].selected);
    c.choose_source(&inv, 3);
    assert!(c.apps.is_empty());
    c.choose_source(&inv, 1);
    assert_eq!(c.sink.as_deref(), Some("hw"));
    assert_eq!(source_label(&c, &inv, false), "Speakers");
    assert_eq!(source_label(&c, &inv, true), "Stereo demo");
    c.choose_source(&inv, 0);
    assert_eq!(c.sink, None);
    assert_eq!(source_label(&c, &inv, false), "All outputs");
    c.choose_source(&inv, 99);
    assert_eq!(c.sink, None);
}

fn key(code: KeyCode) -> Key {
    Key { code, ctrl: false, release: false }
}

#[test]
fn keys_drive_popups_and_settings() {
    let inv = inventory();
    let mut k = Controls {
        config: Config::default(),
        paused: false,
        help: false,
        sources: false,
        settings: false,
        source_cursor: 0,
        settings_cursor: 0,
    };
    assert_eq!(k.on_key(Key { code: KeyCode::Char('c'), ctrl: true, release: false }, &inv), (true, vec![]));
    assert_eq!(k.on_key(Key { code: KeyCode::Char('q'), ctrl: false, release: true }, &inv), (false, vec![]));
    k.on_key(key(KeyCode::Char('3')), &inv);
    assert_eq!(k.config.mode, Mode::Spectrogram);
    k.on_key(key(KeyCode::Char(' ')), &inv);
    assert!(k.paused);
    k.on_key(key(KeyCode::Char('a')), &inv);
    assert!(k.sources);
    k.on_key(key(KeyCode::Down), &inv);
    k.on_key(key(KeyCode::Down), &inv);
    k.on_key(key(KeyCode::Down), &inv);
    k.on_key(key(KeyCode::Down), &inv);
    assert_eq!(k.source_cursor, 3);
    let (quit, fx) = k.on_key(key(KeyCode::Enter), &inv);
    assert!(!quit);
    assert_eq!(fx, vec![Effect::Reconcile]);
    assert_eq!(k.config.apps, vec!["mpv".to_string()]);
    assert!(k.paused);
    k.on_key(key(KeyCode::Char('s')), &inv);
    assert!(k.settings && !k.sources);
    let (_, fx) = k.on_key(key(KeyCode::Right), &inv);
    assert_eq!(fx, vec![Effect::Adjust(Adjust::Sensitivity { up: true })]);
    k.on_key(key(KeyCode::Down), &inv);
    k.on_key(key(KeyCode::Down), &inv);
    k.on_key(key(KeyCode::Right), &inv);
    assert_eq!(k.config.quality, Quality::Ultra);
    let (_, fx) = k.on_key(key(KeyCode::Char('+')), &inv);
    assert_eq!(fx, vec![Effect::Gain { up: true }]);
    k.on_key(key(KeyCode::Esc), &inv);
    assert!(!k.settings && !k.sources && !k.help);
    k.on_key(key(KeyCode::Char('p')), &inv);
    assert_eq!(k.config.theme, "fire");
    assert_eq!(k.on_key(key(KeyCode::Char('w')), &inv).1, vec![Effect::Save]);
}

#[test]
fn captures_are_reconciled() {
    let t = |m: &str, i: Option<u32>| Target { monitor: m.into(), input: i };
    let current = vec![t("a", None), t("b", Some(2)), t("c", None)];
    let running = vec![true, true, false];
    let wanted = vec![t("b", Some(2)), t("c", None), t("d", None), t("c", None)];
    let (keep, start) = reconcile_plan(&current, &running, &wanted);
    assert_eq!(keep, vec![false, true, false]);
    assert_eq!(start, vec![1, 2]);
}

#[test]
fn toggling_an_application_twice_restores_filters() {
    let inv = inventory();
    let mut c = Config::default();
    c.apps = vec!["Firefox".into()];
    let before = c.apps.clone();
    c.choose_source(&inv, 3);
    assert_eq!(c.apps, vec!["Firefox".to_string(), "mpv".into()]);
    c.choose_source(&inv, 3);
    assert_eq!(c.apps, before);
}

#[test]
fn application_lines_are_ordered() {
    let mut inv = inventory();
    inv.inputs.push(input(7, 1, &[("application.name", "audacious")]));
    inv.inputs.push(input(8, 1, &[("application.name", "FIREFOX")]));
    let c = Config::default();
    let names: Vec<String> = source_options(&c, &inv)
        .into_iter()
        .filter_map(|o| match o.kind {
            SourceKind::App(n) => Some(n),
            _ => None,
        })
        .collect();
    assert_eq!(names, vec!["audacious".to_string(), "Firefox".into(), "mpv".into()]);
}

#[test]
fn target_counts() {
    let inv = inventory();
    assert_eq!(targets(&inv, &[], None).len(), inv.sinks.len());
    assert_eq!(targets(&inv, &[], Some("hw")).len(), 1);
    assert_eq!(targets(&inv, &[], Some("other")).len(), 0);
    assert!(targets(&inv, &["".into()], None).len() <= inv.inputs.len());
}

#[test]
fn popup_is_centred_inside_a_margin() {
    let area = Rect { x: 0, y: 0, width: 80, height: 24 };
    let r = centered(area, 66, 20);
    assert_eq!((r.x, r.y, r.width, r.height), (7, 2, 66, 20));
    let small = Rect { x: 3, y: 4, width: 40, height: 12 };
    let r = centered(small, 76, 22);
    assert_eq!((r.x, r.y, r.width, r.height), (4, 5, 38, 10));
    let tiny = Rect { x: 0, y: 0, width: 1, height: 1 };
    let r = centered(tiny, 10, 10);
    assert_eq!((r.x, r.y, r.width, r.height), (0, 0, 0, 0));
}

#[test]
fn colour_needs_six_hex_digits() {
    assert_eq!(parse_color("#+fffff"), Err(ColorError::Digits("#+fffff".into())));
    assert_eq!(parse_color("+fffff"), Err(ColorError::Digits("+fffff".into())));
    assert_eq!(parse_color("ffFF00"), Ok((255, 255, 0)));
}
