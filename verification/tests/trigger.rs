use scope_tui::display::oscilloscope::{trigger_offset, triggered, Oscilloscope};
use scope_tui::display::{Color, DataSet, DatasetLabel, GraphConfig, GraphType, Marker};

fn config(width: u32) -> GraphConfig {
    GraphConfig {
        pause: false,
        samples: width,
        sampling_rate: 48000,
        scale: 1000,
        width,
        scatter: false,
        references: false,
        show_ui: true,
        marker_type: Marker::Braille,
        palette: vec![Color::Red, Color::Yellow, Color::Green, Color::Magenta],
        labels_color: Color::Cyan,
        axis_color: Color::DarkGray,
    }
}

#[test]
fn rising_edge_scenario_finds_first_crossing() {
    // threshold 0, rising edge, depth 1: index 1 is at or below the
    // threshold and index 2 is strictly above it
    let chan: Vec<i64> = vec![-1, -1, 2, 2, -1];
    let off = trigger_offset(&chan, 0, 1, false);
    assert_eq!(off, 1);
}

#[test]
fn no_qualifying_index_returns_zero() {
    // every sample sits above the threshold: no rising crossing exists
    let chan: Vec<i64> = vec![5, 6, 7, 8];
    assert_eq!(trigger_offset(&chan, 0, 1, false), 0);
    // all below: no falling crossing either
    let chan2: Vec<i64> = vec![-5, -6, -7];
    assert_eq!(trigger_offset(&chan2, 0, 1, true), 0);
}

#[test]
fn scan_handles_any_depth_without_reading_past_the_end() {
    // depth larger than the channel: no index has enough lookahead
    let chan: Vec<i64> = vec![-1, 2];
    assert_eq!(trigger_offset(&chan, 0, 10, false), 0);
    let empty: Vec<i64> = vec![];
    assert_eq!(trigger_offset(&empty, 0, 1, false), 0);
    assert_eq!(trigger_offset(&empty, 0, 7, true), 0);
}

#[test]
fn hysteresis_depth_rejects_bouncy_crossings() {
    // with depth 2, index 0 fails because index 2 falls back below
    let chan: Vec<i64> = vec![-1, 2, -1, -2, 3, 4, 5];
    assert_eq!(trigger_offset(&chan, 0, 1, false), 0);
    assert_eq!(trigger_offset(&chan, 0, 2, false), 3);
}

#[test]
fn falling_edge_mirrors_rising_edge() {
    let chan: Vec<i64> = vec![1, 1, -2, -2, 1];
    assert!(triggered(&chan, 1, 0, 1, true));
    assert!(!triggered(&chan, 0, 0, 1, true));
    assert_eq!(trigger_offset(&chan, 0, 1, true), 1);
}

#[test]
fn triggered_scenario_drops_leading_samples_and_rebases_x() {
    let cfg = config(8);
    let mut osc = Oscilloscope {
        triggering: true,
        falling_edge: false,
        threshold: 0,
        depth: 1,
        peaks: false,
    };
    let data: Vec<Vec<i64>> = vec![vec![-1, -1, 2, 2, -1]];
    let out: Vec<DataSet> = osc.process(&cfg, &data);
    // the trigger anchor plus one channel trace
    assert_eq!(out.len(), 2);
    assert_eq!(out[0].name, Some(DatasetLabel::Trigger));
    assert_eq!(out[0].data, vec![(0, 0)]);
    assert!(matches!(out[0].graph_type, GraphType::Scatter));
    // the trace starts at raw index 1, x re-based to zero (milli units)
    assert_eq!(out[1].name, Some(DatasetLabel::Left));
    assert_eq!(out[1].data, vec![(0, -1), (1000, 2), (2000, 2), (3000, -1)]);
}

#[test]
fn depth_zero_is_clamped_to_one_on_use() {
    let cfg = config(8);
    let mut osc = Oscilloscope {
        triggering: false,
        falling_edge: false,
        threshold: 0,
        depth: 0,
        peaks: false,
    };
    let data: Vec<Vec<i64>> = vec![vec![1, 2]];
    let _ = osc.process(&cfg, &data);
    assert_eq!(osc.depth, 1);
}

#[test]
fn peaks_track_min_and_max_of_the_untrimmed_channel() {
    let cfg = config(8);
    let mut osc = Oscilloscope {
        triggering: false,
        falling_edge: false,
        threshold: 0,
        depth: 1,
        peaks: true,
    };
    let data: Vec<Vec<i64>> = vec![vec![3, -7, 5, 1]];
    let out = osc.process(&cfg, &data);
    // peak markers first, then the trace
    assert_eq!(out.len(), 2);
    assert_eq!(out[0].name, None);
    assert_eq!(out[0].data, vec![(0, -7), (0, 5)]);
    assert_eq!(out[1].data, vec![(0, 3), (1000, -7), (2000, 5), (3000, 1)]);
}

#[test]
fn channels_are_emitted_in_reverse_order() {
    let cfg = config(8);
    let mut osc = Oscilloscope {
        triggering: false,
        falling_edge: false,
        threshold: 0,
        depth: 1,
        peaks: false,
    };
    let data: Vec<Vec<i64>> = vec![vec![1], vec![2], vec![3]];
    let out = osc.process(&cfg, &data);
    assert_eq!(out.len(), 3);
    assert_eq!(out[0].name, Some(DatasetLabel::Channel(2)));
    assert_eq!(out[1].name, Some(DatasetLabel::Right));
    assert_eq!(out[2].name, Some(DatasetLabel::Left));
    // channel 0 draws last, so it paints on top
    assert_eq!(out[2].data, vec![(0, 1)]);
}
