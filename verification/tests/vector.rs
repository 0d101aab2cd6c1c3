use scope_tui::display::vectorscope::Vectorscope;
use scope_tui::display::{Color, DatasetLabel, Dimension, GraphConfig, Marker};

fn config(samples: u32) -> GraphConfig {
    GraphConfig {
        pause: false,
        samples,
        sampling_rate: 48000,
        scale: 1000,
        width: samples.max(1),
        scatter: false,
        references: false,
        show_ui: true,
        marker_type: Marker::Braille,
        palette: vec![Color::Red, Color::Yellow, Color::Green, Color::Magenta],
        labels_color: Color::Cyan,
        axis_color: Color::DarkGray,
    }
}

#[test]
fn full_pair_count_is_min_of_channel_lengths() {
    let cfg = config(100);
    let mut v = Vectorscope {};
    let a: Vec<i64> = vec![1, 2, 3, 4, 5];
    let b: Vec<i64> = vec![10, 20, 30];
    let out = v.process(&cfg, &vec![a, b]);
    assert_eq!(out.len(), 2);
    // min(5, 3) = 3 points, split 1 + 2: the newer half comes first
    assert_eq!(out[0].data.len() + out[1].data.len(), 3);
    assert_eq!(out[1].data, vec![(1, 10)]);
    assert_eq!(out[0].data, vec![(2, 20), (3, 30)]);
}

#[test]
fn halves_differ_by_at_most_one() {
    let cfg = config(100);
    let mut v = Vectorscope {};
    for n in 0..9usize {
        let a: Vec<i64> = (0..n as i64).collect();
        let b: Vec<i64> = (0..n as i64).map(|x| -x).collect();
        let out = v.process(&cfg, &vec![a, b]);
        let newer = out[0].data.len() as i64;
        let older = out[1].data.len() as i64;
        assert_eq!(newer + older, n as i64);
        assert!(newer - older == 0 || newer - older == 1);
    }
}

#[test]
fn pair_points_plot_one_channel_against_the_other() {
    let cfg = config(100);
    let mut v = Vectorscope {};
    let out = v.process(&cfg, &vec![vec![1, 2, 3, 4], vec![5, 6, 7, 8]]);
    assert_eq!(out[1].data, vec![(1, 5), (2, 6)]);
    assert_eq!(out[0].data, vec![(3, 7), (4, 8)]);
    assert_eq!(out[0].name, Some(DatasetLabel::Channel(1)));
    assert_eq!(out[1].name, Some(DatasetLabel::Channel(0)));
}

#[test]
fn visible_window_truncates_the_pair() {
    let cfg = config(2);
    let mut v = Vectorscope {};
    let out = v.process(&cfg, &vec![vec![1, 2, 3, 4], vec![5, 6, 7, 8]]);
    assert_eq!(out[0].data.len() + out[1].data.len(), 2);
    assert_eq!(out[1].data, vec![(1, 5)]);
    assert_eq!(out[0].data, vec![(2, 6)]);
}

#[test]
fn leftover_channel_plots_against_its_index() {
    let cfg = config(100);
    let mut v = Vectorscope {};
    let out = v.process(&cfg, &vec![vec![7, 8, 9]]);
    assert_eq!(out.len(), 2);
    // index on the secondary axis, in milli-units
    assert_eq!(out[1].data, vec![(7, 0)]);
    assert_eq!(out[0].data, vec![(8, 1000), (9, 2000)]);
}

#[test]
fn three_channels_make_two_chunks() {
    let cfg = config(100);
    let mut v = Vectorscope {};
    let out = v.process(&cfg, &vec![vec![1, 2], vec![3, 4], vec![5, 6]]);
    assert_eq!(out.len(), 4);
    assert_eq!(out[0].name, Some(DatasetLabel::Channel(1)));
    assert_eq!(out[1].name, Some(DatasetLabel::Channel(0)));
    assert_eq!(out[2].name, Some(DatasetLabel::Channel(3)));
    assert_eq!(out[3].name, Some(DatasetLabel::Channel(2)));
    // the leftover third channel plots against its index
    assert_eq!(out[3].data, vec![(5, 0)]);
    assert_eq!(out[2].data, vec![(6, 1000)]);
}

#[test]
fn vectorscope_axis_bounds_are_symmetric() {
    let v = Vectorscope {};
    for scale in [0i64, 1, 250, 1000, 10_000] {
        let mut cfg = config(8);
        cfg.scale = scale;
        let x = v.axis(&cfg, Dimension::X);
        let y = v.axis(&cfg, Dimension::Y);
        assert_eq!(x.bounds, (-scale, scale));
        assert_eq!(y.bounds, (-scale, scale));
    }
}

#[test]
fn vectorscope_references_form_a_centered_cross() {
    let v = Vectorscope {};
    let mut cfg = config(8);
    cfg.scale = 2000;
    let refs = v.references(&cfg);
    assert_eq!(refs.len(), 2);
    assert_eq!(refs[0].data, vec![(-2000, 0), (2000, 0)]);
    assert_eq!(refs[1].data, vec![(0, -2000), (0, 2000)]);
}
