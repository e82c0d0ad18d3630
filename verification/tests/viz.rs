use pulse_vis::viz::audio::{SampleBuffer, VizEngine, VizMode};
use pulse_vis::viz::config::{Action, ColorScheme, Config};
use pulse_vis::viz::fft::bit_reverse;
use pulse_vis::viz::frame::{footer_line, header_line, simple_frame, source_name};
use pulse_vis::viz::source::{decode_name, filter_sources, PVzSourceInfo, SourceInfo};

fn info(name: &str, alias: &str) -> SourceInfo {
    SourceInfo {
        name: name.into(),
        alias: alias.into(),
        source: 0,
        channels: 2,
        rate: 48000,
        sample_format: 3,
        client: 0,
        index: 0,
        mute: 0,
    }
}

#[test]
fn modes_by_name() {
    assert_eq!(VizMode::from_str("SCOPE"), VizMode::Scope);
    assert_eq!(VizMode::from_str("meters"), VizMode::Meters);
    assert_eq!(VizMode::from_str("nothing"), VizMode::Bars);
    for m in [VizMode::Bars, VizMode::Scope, VizMode::Spectrum, VizMode::Waveform, VizMode::Meters] {
        assert_eq!(VizMode::from_str(m.name()), m);
    }
    assert_eq!(VizMode::Waveform.order_index(), 3);
}

#[test]
fn color_schemes() {
    assert_eq!(ColorScheme::from_str("Purple"), ColorScheme::Purple);
    assert_eq!(ColorScheme::from_str("teal"), ColorScheme::Cyan);
    assert_eq!(ColorScheme::Rainbow.label(), "rainbow");
}

#[test]
fn arguments_apply() {
    let mut c = Config::default();
    let args: Vec<String> = ["--mode", "scope", "--source", "usb", "extra"].iter().map(|s| s.to_string()).collect();
    assert_eq!(c.apply_args(&args), Action::Run);
    assert_eq!(c.mode, "scope");
    assert_eq!(c.source_filter.as_deref(), Some("usb"));
    let mut d = Config::default();
    let args: Vec<String> = ["-m", "meters", "-h", "--mode", "bars"].iter().map(|s| s.to_string()).collect();
    assert_eq!(d.apply_args(&args), Action::Help);
    assert_eq!(d.mode, "meters");
    let mut e = Config::default();
    assert_eq!(e.apply_args(&vec!["--mode".to_string()]), Action::Run);
    assert_eq!(e.mode, "bars");
}

#[test]
fn ring_keeps_newest() {
    let mut b: SampleBuffer<f32> = SampleBuffer::new(4);
    assert_eq!(b.count(), 0);
    b.push(&[1.0, 2.0, 3.0]);
    assert_eq!(b.latest(5), vec![1.0, 2.0, 3.0, 0.0, 0.0]);
    b.push(&[4.0, 5.0, 6.0]);
    assert_eq!(b.count(), 4);
    assert_eq!(b.latest(4), vec![3.0, 4.0, 5.0, 6.0]);
    assert_eq!(b.latest(2), vec![5.0, 6.0]);
    let mut small: SampleBuffer<f32> = SampleBuffer::new(0);
    small.push(&[7.0, 8.0, 9.0]);
    assert_eq!(small.latest(2), vec![8.0, 9.0]);
}

#[test]
fn source_selection() {
    let mut e: VizEngine<f32> = VizEngine::new("bars", vec![info("alsa_output.usb", "Headset"), info("hdmi", "TV")], 16);
    assert_eq!(e.active_indices(), vec![0, 1]);
    e.set_selected_source(2);
    assert_eq!(e.active_indices(), vec![1]);
    e.set_selected_source(3);
    assert_eq!(e.get_selected_source(), 0);
    e.set_selected_source_name("tv");
    assert_eq!(e.get_selected_source(), 2);
    e.set_selected_source_name("nothing");
    assert_eq!(e.get_selected_source(), 0);
    e.set_mode_name("Spectrum");
    assert_eq!(e.get_mode_name(), "spectrum");
    let (quit, idx) = e.on_key(b'.', 0);
    assert!(!quit);
    assert_eq!(idx, 1);
    assert_eq!(e.get_selected_source(), 1);
    let (_, idx) = e.on_key(b',', 0);
    assert_eq!(idx, 2);
    let (_, idx) = e.on_key(b'.', 2);
    assert_eq!(idx, 0);
    assert_eq!(e.on_key(b'q', 1), (true, 1));
    e.on_key(b'5', 0);
    assert_eq!(e.get_mode(), VizMode::Meters);
}

#[test]
fn names_decode() {
    let mut raw = PVzSourceInfo {
        name: [0u8; 512],
        alias: [0u8; 256],
        source: 1,
        channels: 2,
        rate: 44100,
        sample_format: 3,
        client: 4,
        index: 5,
        mute: 0,
    };
    raw.name[..3].copy_from_slice(b"mic");
    raw.alias[0] = 0xff;
    let s = SourceInfo::from_raw(&raw);
    assert_eq!(s.name, "mic");
    assert_eq!(s.alias, "");
    assert_eq!(s.rate, 44100);
    assert_eq!(decode_name(&[0xc3, 0xa9, 0, 1], "x"), "é");
    assert_eq!(decode_name(&[0xc3], "unknown"), "unknown");
}

#[test]
fn filtering_and_frames() {
    let v = vec![info("alsa_output.usb", "Headset"), info("hdmi", "TV")];
    let f = filter_sources(v.clone(), "HEAD");
    assert_eq!(f.len(), 1);
    assert_eq!(f[0].name, "alsa_output.usb");
    assert_eq!(source_name(0, &v), "all");
    assert_eq!(source_name(2, &v), "TV");
    assert_eq!(source_name(3, &v), "unknown");
    let rows = simple_frame("No sources", 80, 3);
    assert_eq!(rows.len(), 5);
    assert_eq!(rows[0], "  pulse-viz");
    assert_eq!(rows[1], "No sources");
    assert_eq!(simple_frame("t", 80, 0).len(), 3);
    assert_eq!(header_line("bars", "all"), "  pulse-viz  [bars]  Source: all");
    assert!(footer_line(2).ends_with("(2 sources)"));
}

#[test]
fn bits_reverse() {
    assert_eq!(bit_reverse(1, 4), 8);
    assert_eq!(bit_reverse(0b0011, 4), 0b1100);
    assert_eq!(bit_reverse(6, 3), 3);
    assert_eq!(bit_reverse(0xffff_ffff, 0), 0);
    assert_eq!(bit_reverse(1, 32), 0x8000_0000);
    for i in 0..16u32 {
        assert_eq!(bit_reverse(bit_reverse(i, 4), 4), i);
    }
}

#[test]
fn bit_reverse_twice_is_identity() {
    for bits in 0..=10u32 {
        for x in 0..(1u32 << bits) {
            let y = bit_reverse(x, bits);
            assert!(y < (1u32 << bits));
            assert_eq!(bit_reverse(y, bits), x);
        }
    }
}

#[test]
fn scheme_labels_parse_back() {
    for s in [ColorScheme::Cyan, ColorScheme::Green, ColorScheme::Purple, ColorScheme::Rainbow] {
        assert_eq!(ColorScheme::from_str(s.label()), s);
    }
    assert_eq!(VizMode::from_str("WaveForm"), VizMode::Waveform);
}
