use scope_tui::app::{App, CurrentDisplayMode, FrameOutput, KeyCode, KeyEvent, KeyModifiers};
use scope_tui::cfg::{SourceOptions, UiOptions};
use scope_tui::display::{DatasetLabel, Dimension};

fn key(code: KeyCode) -> KeyEvent {
    KeyEvent { code, modifiers: KeyModifiers::Plain }
}

fn modkey(code: KeyCode, modifiers: KeyModifiers) -> KeyEvent {
    KeyEvent { code, modifiers }
}

fn app(buffer: u32) -> App {
    let ui = UiOptions {
        scale: 1000,
        scatter: false,
        no_reference: true,
        no_ui: false,
        no_braille: false,
    };
    let source = SourceOptions {
        channels: 2,
        buffer,
        sample_rate: 48000,
        tune: None,
    };
    App::new(&ui, &source)
}

#[test]
fn tab_cycles_through_all_three_modes_and_back() {
    let mut a = app(8);
    assert!(matches!(a.mode, CurrentDisplayMode::Oscilloscope));
    // give the oscilloscope distinctive private state
    a.oscilloscope.triggering = true;
    a.oscilloscope.threshold = 250_000;
    a.oscilloscope.depth = 3;
    let before = a.oscilloscope;

    assert!(!a.handle(key(KeyCode::Tab)));
    assert!(matches!(a.mode, CurrentDisplayMode::Vectorscope));
    assert!(!a.handle(key(KeyCode::Tab)));
    assert!(matches!(a.mode, CurrentDisplayMode::Spectroscope));
    assert!(!a.handle(key(KeyCode::Tab)));
    assert!(matches!(a.mode, CurrentDisplayMode::Oscilloscope));
    // the round trip left the oscilloscope's private state untouched
    assert_eq!(a.oscilloscope, before);
}

#[test]
fn quit_keys_end_the_loop() {
    let mut a = app(8);
    assert!(a.handle(key(KeyCode::Char('q'))));
    assert!(a.handle(modkey(KeyCode::Char('c'), KeyModifiers::Control)));
    assert!(a.handle(modkey(KeyCode::Char('q'), KeyModifiers::Control)));
    assert!(a.handle(modkey(KeyCode::Char('w'), KeyModifiers::Control)));
    assert!(!a.handle(key(KeyCode::Char('c'))));
    assert!(!a.handle(key(KeyCode::Tab)));
}

#[test]
fn samples_window_stays_within_twice_the_width() {
    let mut a = app(8);
    let events = [
        key(KeyCode::Right),
        modkey(KeyCode::Right, KeyModifiers::Shift),
        modkey(KeyCode::Right, KeyModifiers::Control),
        key(KeyCode::Right),
        modkey(KeyCode::Left, KeyModifiers::Shift),
        key(KeyCode::Left),
        modkey(KeyCode::Left, KeyModifiers::Alt),
        key(KeyCode::Right),
        key(KeyCode::Esc),
    ];
    for ev in events {
        let _ = a.handle(ev);
        assert!(a.graph.samples <= 2 * a.graph.width);
    }
}

#[test]
fn samples_clamp_at_both_ends() {
    let mut a = app(8);
    // one plain step of 25 overshoots 2 * 8 = 16
    let _ = a.handle(key(KeyCode::Right));
    assert_eq!(a.graph.samples, 16);
    // and one step back undershoots zero
    let _ = a.handle(key(KeyCode::Left));
    assert_eq!(a.graph.samples, 0);
    // Alt scales the 25-sample step down to 5
    let _ = a.handle(modkey(KeyCode::Right, KeyModifiers::Alt));
    assert_eq!(a.graph.samples, 5);
}

#[test]
fn scale_zoom_steps_are_modifier_scaled() {
    let mut a = app(8);
    assert_eq!(a.graph.scale, 1000);
    let _ = a.handle(key(KeyCode::Up));
    assert_eq!(a.graph.scale, 1010);
    let _ = a.handle(modkey(KeyCode::Up, KeyModifiers::Shift));
    assert_eq!(a.graph.scale, 1110);
    let _ = a.handle(modkey(KeyCode::Down, KeyModifiers::Control));
    assert_eq!(a.graph.scale, 1060);
    let _ = a.handle(modkey(KeyCode::Down, KeyModifiers::Alt));
    assert_eq!(a.graph.scale, 1058);
}

#[test]
fn scale_clamps_to_its_range() {
    let mut a = app(8);
    a.graph.scale = 5;
    let _ = a.handle(modkey(KeyCode::Down, KeyModifiers::Shift));
    assert_eq!(a.graph.scale, 0);
    a.graph.scale = 9_990;
    let _ = a.handle(modkey(KeyCode::Up, KeyModifiers::Shift));
    assert_eq!(a.graph.scale, 10_000);
}

#[test]
fn escape_resets_window_and_scale() {
    let mut a = app(8);
    let _ = a.handle(key(KeyCode::Right));
    let _ = a.handle(key(KeyCode::Up));
    let _ = a.handle(key(KeyCode::Esc));
    assert_eq!(a.graph.samples, a.graph.width);
    assert_eq!(a.graph.scale, 1000);
}

#[test]
fn toggles_flip_their_flags() {
    let mut a = app(8);
    let pause0 = a.graph.pause;
    let _ = a.handle(key(KeyCode::Char(' ')));
    assert_eq!(a.graph.pause, !pause0);
    let scatter0 = a.graph.scatter;
    let _ = a.handle(key(KeyCode::Char('s')));
    assert_eq!(a.graph.scatter, !scatter0);
    let ui0 = a.graph.show_ui;
    let _ = a.handle(key(KeyCode::Char('h')));
    assert_eq!(a.graph.show_ui, !ui0);
    let refs0 = a.graph.references;
    let _ = a.handle(key(KeyCode::Char('r')));
    assert_eq!(a.graph.references, !refs0);
}

#[test]
fn oscilloscope_keys_reach_only_the_oscilloscope() {
    let mut a = app(8);
    let _ = a.handle(key(KeyCode::Char('t')));
    assert!(a.oscilloscope.triggering);
    let _ = a.handle(key(KeyCode::Char('e')));
    assert!(a.oscilloscope.falling_edge);
    let _ = a.handle(key(KeyCode::Char('p')));
    assert!(a.oscilloscope.peaks);
    let _ = a.handle(key(KeyCode::PageUp));
    assert_eq!(a.oscilloscope.threshold, 250_000);
    let _ = a.handle(modkey(KeyCode::PageDown, KeyModifiers::Alt));
    assert_eq!(a.oscilloscope.threshold, 200_000);
    let _ = a.handle(key(KeyCode::Char('=')));
    assert_eq!(a.oscilloscope.depth, 1);
    let _ = a.handle(key(KeyCode::Char('+')));
    assert_eq!(a.oscilloscope.depth, 11);
    let _ = a.handle(key(KeyCode::Char('_')));
    assert_eq!(a.oscilloscope.depth, 1);
    // escape disarms triggering
    let _ = a.handle(key(KeyCode::Esc));
    assert!(!a.oscilloscope.triggering);
    // none of this touched the spectroscope
    assert_eq!(a.spectroscope.average, 1);
    assert!(!a.spectroscope.window);
}

#[test]
fn spectroscope_keys_reach_only_the_spectroscope() {
    let mut a = app(8);
    let _ = a.handle(key(KeyCode::Tab));
    let _ = a.handle(key(KeyCode::Tab));
    assert!(matches!(a.mode, CurrentDisplayMode::Spectroscope));
    let _ = a.handle(key(KeyCode::PageUp));
    assert_eq!(a.spectroscope.average, 2);
    let _ = a.handle(key(KeyCode::PageDown));
    let _ = a.handle(key(KeyCode::PageDown));
    // the averaging count clamps at one
    assert_eq!(a.spectroscope.average, 1);
    let _ = a.handle(key(KeyCode::Char('w')));
    assert!(a.spectroscope.window);
    let _ = a.handle(key(KeyCode::Char('l')));
    assert!(!a.spectroscope.log_y);
    // the oscilloscope never saw those keys
    assert_eq!(a.oscilloscope.threshold, 0);
}

#[test]
fn process_frame_dispatches_by_mode() {
    let mut a = app(8);
    let data: Vec<Vec<i64>> = vec![vec![1, 2, 3], vec![4, 5, 6]];
    match a.process_frame(&data) {
        FrameOutput::Datasets(v) => {
            assert_eq!(v.len(), 2);
            assert_eq!(v[0].name, Some(DatasetLabel::Right));
            assert_eq!(v[1].name, Some(DatasetLabel::Left));
        },
        FrameOutput::Spectrum(_) => panic!("oscilloscope mode must yield datasets"),
    }
    let _ = a.handle(key(KeyCode::Tab));
    let _ = a.handle(key(KeyCode::Tab));
    match a.process_frame(&data) {
        FrameOutput::Spectrum(reqs) => {
            assert_eq!(reqs.len(), 2);
            assert_eq!(reqs[0].input, vec![4, 5, 6]);
            assert_eq!(reqs[1].input, vec![1, 2, 3]);
        },
        FrameOutput::Datasets(_) => panic!("spectroscope mode must yield FFT requests"),
    }
}

#[test]
fn references_are_prepended_when_enabled() {
    let mut a = app(8);
    a.graph.references = true;
    let data: Vec<Vec<i64>> = vec![vec![1, 2]];
    match a.process_frame(&data) {
        FrameOutput::Datasets(v) => {
            assert_eq!(v.len(), 2);
            assert_eq!(v[0].name, None);
            // the zero-amplitude guide line across the visible window
            assert_eq!(v[0].data, vec![(0, 0), (8000, 0)]);
        },
        FrameOutput::Spectrum(_) => panic!("oscilloscope mode must yield datasets"),
    }
}

#[test]
fn paused_intake_keeps_the_previous_frame() {
    let mut a = app(8);
    let mut current: Vec<Vec<i64>> = vec![vec![1, 2]];
    a.adopt_frame(&mut current, vec![vec![3, 4]]);
    assert_eq!(current, vec![vec![3, 4]]);
    a.graph.pause = true;
    a.adopt_frame(&mut current, vec![vec![5, 6]]);
    assert_eq!(current, vec![vec![3, 4]]);
}

#[test]
fn frame_counter_snapshots_once_per_second() {
    let mut fc = scope_tui::app::FrameCounter::new();
    fc.tick(false);
    fc.tick(false);
    assert_eq!(fc.framerate, 0);
    fc.tick(true);
    assert_eq!(fc.framerate, 3);
    assert_eq!(fc.fps, 0);
    fc.tick(false);
    fc.tick(true);
    assert_eq!(fc.framerate, 2);
}

#[test]
fn finish_spectrum_prepends_guides_and_labels_channels() {
    let mut a = app(8);
    a.graph.references = true;
    let _ = a.handle(key(KeyCode::Tab));
    let _ = a.handle(key(KeyCode::Tab));
    let data: Vec<Vec<i64>> = vec![vec![1, 2], vec![3, 4]];
    let mags = match a.process_frame(&data) {
        FrameOutput::Spectrum(_) => vec![vec![10, 20], vec![30, 40]],
        FrameOutput::Datasets(_) => panic!("spectroscope mode must yield FFT requests"),
    };
    let out = a.finish_spectrum(&mags);
    // one baseline, 28 guide lines, two channel traces
    assert_eq!(out.len(), 29 + 2);
    // the lists arrived in reverse channel order, so the last trace is
    // channel 0 and paints on top
    assert_eq!(out[29].name, Some(DatasetLabel::Right));
    assert_eq!(out[30].name, Some(DatasetLabel::Left));
    // bin 0 is dropped: one point per trace, at 48000 / 8 Hz
    assert_eq!(out[30].data, vec![(6_000_000, 40)]);
}

#[test]
fn app_axis_follows_the_active_mode() {
    let mut a = app(8);
    assert_eq!(a.axis(Dimension::Y).bounds, (-1000, 1000));
    assert_eq!(a.axis(Dimension::X).bounds, (0, 8000));
    let _ = a.handle(key(KeyCode::Tab));
    assert_eq!(a.axis(Dimension::X).bounds, (-1000, 1000));
    let _ = a.handle(key(KeyCode::Tab));
    assert_eq!(a.axis(Dimension::X).bounds, (20_000, 20_000_000));
}
