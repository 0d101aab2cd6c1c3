use scope_tui::display::oscilloscope::Oscilloscope;
use scope_tui::display::spectroscope::Spectroscope;
use scope_tui::display::vectorscope::Vectorscope;
use scope_tui::display::{
    AxisLabel, Color, DataSet, DatasetLabel, Dimension, GraphConfig, GraphType, HeaderInfo, Marker,
};
use scope_tui::input::{stream_to_matrix, Signed16PCM};

fn config() -> GraphConfig {
    GraphConfig {
        pause: false,
        samples: 16,
        sampling_rate: 44100,
        scale: 1000,
        width: 16,
        scatter: false,
        references: true,
        show_ui: true,
        marker_type: Marker::Braille,
        palette: vec![Color::Red, Color::Yellow],
        labels_color: Color::Cyan,
        axis_color: Color::DarkGray,
    }
}

#[test]
fn interleaved_stream_splits_into_channel_rows() {
    // L R L R L R with unit normalization: values come out in milli
    let stream: Vec<i64> = vec![1, 10, 2, 20, 3, 30];
    let m = stream_to_matrix(&stream, 2, 1);
    assert_eq!(m.len(), 2);
    assert_eq!(m[0], vec![1000, 2000, 3000]);
    assert_eq!(m[1], vec![10_000, 20_000, 30_000]);
}

#[test]
fn uneven_stream_leaves_a_shorter_last_row() {
    let stream: Vec<i64> = vec![1, 10, 2];
    let m = stream_to_matrix(&stream, 2, 1);
    assert_eq!(m[0], vec![1000, 2000]);
    assert_eq!(m[1], vec![10_000]);
}

#[test]
fn pcm_normalization_scales_full_range_to_one() {
    let stream: Vec<i64> = vec![32768, -32768, 16384, 0];
    let m = stream_to_matrix(&stream, 1, 32768);
    assert_eq!(m[0], vec![1000, -1000, 500, 0]);
}

#[test]
fn sixteen_bit_samples_parse_little_endian() {
    assert_eq!(Signed16PCM::parse(&[0x34, 0x12]), 0x1234);
    assert_eq!(Signed16PCM::parse(&[0xFF, 0xFF]), -1);
    assert_eq!(Signed16PCM::parse(&[0x00, 0x80]), -32768);
    assert_eq!(Signed16PCM::parse(&[0xFF, 0x7F]), 32767);
    assert_eq!(Signed16PCM::parse(&[0x00, 0x00]), 0);
}

#[test]
fn palette_cycles_by_channel_number() {
    let cfg = config();
    assert_eq!(cfg.palette(0), Color::Red);
    assert_eq!(cfg.palette(1), Color::Yellow);
    assert_eq!(cfg.palette(2), Color::Red);
    assert_eq!(cfg.palette(5), Color::Yellow);
    let mut empty = config();
    empty.palette = vec![];
    assert_eq!(empty.palette(3), Color::White);
}

#[test]
fn oscilloscope_axis_bounds_are_symmetric_in_scale() {
    let osc = Oscilloscope {
        triggering: false,
        falling_edge: false,
        threshold: 0,
        depth: 1,
        peaks: false,
    };
    for scale in [0i64, 1, 700, 10_000] {
        let mut cfg = config();
        cfg.scale = scale;
        let y = osc.axis(&cfg, Dimension::Y);
        assert_eq!(y.bounds, (-scale, scale));
        assert_eq!(y.label, Some(AxisLabel::Amplitude));
    }
    let x = osc.axis(&config(), Dimension::X);
    // time axis spans the visible window, in milli-units
    assert_eq!(x.bounds, (0, 16_000));
    assert_eq!(x.label, Some(AxisLabel::Time));
}

#[test]
fn spectroscope_axis_spans_the_audible_range() {
    let cfg = config();
    let mut s = Spectroscope::from_args(&scope_tui::cfg::SourceOptions {
        channels: 2,
        buffer: 16,
        sample_rate: 44100,
        tune: None,
    });
    let x = s.axis(&cfg, Dimension::X);
    // 20 Hz up to (samples / width) * 20 kHz, in milli-hertz
    assert_eq!(x.bounds, (20_000, 20_000_000));
    assert_eq!(x.label, Some(AxisLabel::Frequency));
    let y = s.axis(&cfg, Dimension::Y);
    assert_eq!(y.bounds, (0, 7_500));
    assert_eq!(y.label, Some(AxisLabel::Level));
    s.log_y = false;
    assert_eq!(s.axis(&cfg, Dimension::Y).label, Some(AxisLabel::Amplitude));
    let mut hidden = config();
    hidden.show_ui = false;
    assert_eq!(s.axis(&hidden, Dimension::X).label, None);
}

#[test]
fn headers_reflect_each_modes_private_state() {
    let cfg = config();
    let osc = Oscilloscope {
        triggering: true,
        falling_edge: true,
        threshold: 1500,
        depth: 2,
        peaks: false,
    };
    assert_eq!(
        osc.header(&cfg),
        HeaderInfo::Oscilloscope {
            triggering: true,
            falling_edge: true,
            threshold: 1500,
            depth: 2,
        }
    );
    let v = Vectorscope {};
    assert_eq!(v.header(&cfg), HeaderInfo::Vectorscope);
    let s = Spectroscope::from_args(&scope_tui::cfg::SourceOptions {
        channels: 2,
        buffer: 16,
        sample_rate: 44100,
        tune: None,
    });
    assert_eq!(
        s.header(&cfg),
        HeaderInfo::Spectroscope {
            average: 1,
            window: false,
            sampling_rate: 44100,
            buffer_size: 16,
        }
    );
}

#[test]
fn mode_names_match_their_modes() {
    let osc = Oscilloscope {
        triggering: false,
        falling_edge: false,
        threshold: 0,
        depth: 1,
        peaks: false,
    };
    assert_eq!(osc.mode_str(), "oscillo");
    assert_eq!(Vectorscope {}.mode_str(), "vector");
    let s = Spectroscope::from_args(&scope_tui::cfg::SourceOptions {
        channels: 2,
        buffer: 16,
        sample_rate: 44100,
        tune: None,
    });
    assert_eq!(s.mode_str(), "spectro");
}

#[test]
fn datasets_carry_their_styling() {
    let d = DataSet::new(
        Some(DatasetLabel::Left),
        vec![(0, 1), (1000, 2)],
        Marker::Dot,
        GraphType::Scatter,
        Color::Green,
    );
    assert_eq!(d.name, Some(DatasetLabel::Left));
    assert_eq!(d.data, vec![(0, 1), (1000, 2)]);
    assert!(matches!(d.marker_type, Marker::Dot));
    assert!(matches!(d.graph_type, GraphType::Scatter));
    assert_eq!(d.color, Color::Green);
}

#[test]
fn scatter_mode_switches_the_trace_style() {
    let mut cfg = config();
    cfg.references = false;
    cfg.scatter = true;
    let mut osc = Oscilloscope {
        triggering: false,
        falling_edge: false,
        threshold: 0,
        depth: 1,
        peaks: false,
    };
    let out = osc.process(&cfg, &vec![vec![1, 2]]);
    assert!(matches!(out[0].graph_type, GraphType::Scatter));
}
