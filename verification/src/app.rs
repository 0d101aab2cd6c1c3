//! The application state machine: keyboard events, the mode cycle, the
//! event router that mutates the shared configuration, and the per-frame
//! dispatch into the active display mode.

use vstd::prelude::*;

use crate::cfg::{SourceOptions, UiOptions};
use crate::display::oscilloscope::Oscilloscope;
use crate::display::spectroscope::{Spectroscope, SpectrumRequest};
use crate::display::vectorscope::Vectorscope;
use crate::display::{AxisSpec, Color, DataSet, Dimension, GraphConfig, HeaderInfo, Marker};
use crate::input::Matrix;

verus! {

/// A key press, reduced to what the router reads.
#[derive(Clone, Copy, PartialEq, Eq, Structural, Debug)]
pub struct KeyEvent {
    pub code: KeyCode,
    pub modifiers: KeyModifiers,
}

#[derive(Clone, Copy, PartialEq, Eq, Structural, Debug)]
pub enum KeyCode {
    Up,
    Down,
    Left,
    Right,
    PageUp,
    PageDown,
    Tab,
    Esc,
    Char(char),
    Other,
}

#[derive(Clone, Copy, PartialEq, Eq, Structural, Debug)]
pub enum KeyModifiers {
    Shift,
    Control,
    Alt,
    Plain,
}

/// Numerator of the modifier-scaled step multiplier: 10 for Shift, 5 for
/// Control, 0.2 for Alt and 1 otherwise.
pub open spec fn mag_num(m: KeyModifiers) -> int {
    match m {
        KeyModifiers::Shift => 10,
        KeyModifiers::Control => 5,
        KeyModifiers::Alt => 1,
        KeyModifiers::Plain => 1,
    }
}

/// Denominator of the modifier-scaled step multiplier.
pub open spec fn mag_den(m: KeyModifiers) -> int {
    match m {
        KeyModifiers::Alt => 5,
        _ => 1,
    }
}

/// The modifier-scaled step multiplier as a fraction.
pub fn magnitude(m: KeyModifiers) -> (r: (i64, i64))
    ensures
        r.0 == mag_num(m),
        r.1 == mag_den(m),
{
    match m {
        KeyModifiers::Shift => (10, 1),
        KeyModifiers::Control => (5, 1),
        KeyModifiers::Alt => (1, 5),
        KeyModifiers::Plain => (1, 1),
    }
}

/// `base` scaled by the multiplier `num / den`, truncated toward zero.
pub open spec fn spec_delta(base: int, num: int, den: int) -> int {
    if base >= 0 {
        (base * num) / den
    } else {
        -(((-base) * num) / den)
    }
}

/// A milli-unit value nudged by `base * num / den` and clamped to
/// `[lo, hi]`.
pub open spec fn spec_update_value_f(val: int, base: int, num: int, den: int, lo: int, hi: int) -> int {
    let delta = spec_delta(base, num, den);
    if val + delta > hi {
        hi
    } else if val + delta < lo {
        lo
    } else {
        val + delta
    }
}

/// Nudges a milli-unit value by `base` scaled with the multiplier
/// `num / den`, clamping the result to `[lo, hi]`.
pub fn update_value_f(val: &mut i64, base: i64, num: i64, den: i64, lo: i64, hi: i64)
    requires
        1 <= den <= 1000,
        0 <= num <= 1000,
        -1_000_000_000_000 <= base <= 1_000_000_000_000,
        -1_000_000_000_000_000 <= lo <= hi <= 1_000_000_000_000_000,
        lo <= *old(val) <= hi,
    ensures
        *final(val) == spec_update_value_f(*old(val) as int, base as int, num as int, den as int, lo as int, hi as int),
        lo <= *final(val) <= hi,
{
    let mag: u64 = if base >= 0 {
        base as u64
    } else {
        (-base) as u64
    };
    assert(mag <= 1_000_000_000_000);
    assert(mag * (num as u64) <= 1_000_000_000_000_000) by (nonlinear_arith)
        requires
            mag <= 1_000_000_000_000,
            num <= 1000,
            0 <= num,
    ;
    let prod: u64 = mag * (num as u64);
    let d: u64 = prod / (den as u64);
    proof {
        vstd::arithmetic::div_mod::lemma_div_nonincreasing(prod as int, den as int);
        vstd::arithmetic::div_mod::lemma_div_pos_is_pos(prod as int, den as int);
    }
    let delta: i64 = if base >= 0 {
        d as i64
    } else {
        -(d as i64)
    };
    assert(delta == spec_delta(base as int, num as int, den as int));
    if *val + delta > hi {
        *val = hi;
    } else if *val + delta < lo {
        *val = lo;
    } else {
        *val = *val + delta;
    }
}

/// An integer control nudged up or down by `base * num / den` and
/// clamped to `[lo, hi]`.
pub open spec fn spec_update_value_i(
    val: int,
    inc: bool,
    base: int,
    num: int,
    den: int,
    lo: int,
    hi: int,
) -> int {
    let delta = (base * num) / den;
    if inc {
        if val + delta > hi {
            hi
        } else {
            val + delta
        }
    } else {
        if val < lo + delta {
            lo
        } else {
            val - delta
        }
    }
}

/// The one active display mode.
#[derive(Clone, Copy, PartialEq, Eq, Structural, Debug)]
pub enum CurrentDisplayMode {
    Oscilloscope,
    Vectorscope,
    Spectroscope,
}

/// The mode the Tab key switches to: Oscilloscope, Vectorscope,
/// Spectroscope, and back around.
pub open spec fn next_mode(m: CurrentDisplayMode) -> CurrentDisplayMode {
    match m {
        CurrentDisplayMode::Oscilloscope => CurrentDisplayMode::Vectorscope,
        CurrentDisplayMode::Vectorscope => CurrentDisplayMode::Spectroscope,
        CurrentDisplayMode::Spectroscope => CurrentDisplayMode::Oscilloscope,
    }
}

/// Cycling through the modes three times returns to the starting
/// mode: the Tab cycle is a round trip.
pub proof fn lemma_mode_cycle_round_trip(m: CurrentDisplayMode)
    ensures
        next_mode(next_mode(next_mode(m))) == m,
{
}

/// A key press that ends the program: `q`, or Control with `c`, `q`
/// or `w`.
pub open spec fn is_quit_event(ev: KeyEvent) -> bool {
    ||| ev.modifiers == KeyModifiers::Control && (ev.code == KeyCode::Char('c') || ev.code
        == KeyCode::Char('q') || ev.code == KeyCode::Char('w'))
    ||| ev.code == KeyCode::Char('q')
}

/// Nudges an integer control by `base` scaled with the multiplier
/// `num / den`, clamping the result to `[lo, hi]`.
pub fn update_value_i(val: &mut u32, inc: bool, base: u32, num: u32, den: u32, lo: u32, hi: u32)
    requires
        1 <= den,
        num <= 1000,
        base <= 1_000_000,
        lo <= hi,
    ensures
        *final(val) == spec_update_value_i(
            *old(val) as int,
            inc,
            base as int,
            num as int,
            den as int,
            lo as int,
            hi as int,
        ),
        lo <= *old(val) <= hi ==> lo <= *final(val) <= hi,
        !inc && lo <= *old(val) ==> lo <= *final(val) <= *old(val),
{
    assert((base as u64) * (num as u64) <= 1_000_000_000) by (nonlinear_arith)
        requires
            base <= 1_000_000,
            num <= 1000,
    ;
    let prod: u64 = (base as u64) * (num as u64);
    let delta: u64 = prod / (den as u64);
    proof {
        vstd::arithmetic::div_mod::lemma_div_nonincreasing(prod as int, den as int);
        vstd::arithmetic::div_mod::lemma_div_pos_is_pos(prod as int, den as int);
    }
    if inc {
        if (*val as u64) + delta > hi as u64 {
            *val = hi;
        } else {
            *val = *val + (delta as u32);
        }
    } else {
        if (*val as u64) < (lo as u64) + delta {
            *val = lo;
        } else {
            *val = *val - (delta as u32);
        }
    }
}

/// The frame-rate bookkeeping: a running frame count, snapshotted to
/// the displayed rate once per wall-clock second.
pub struct FrameCounter {
    pub fps: u32,
    pub framerate: u32,
}

impl FrameCounter {
    pub fn new() -> (r: Self)
        ensures
            r.fps == 0,
            r.framerate == 0,
    {
        FrameCounter { fps: 0, framerate: 0 }
    }

    /// Counts one frame; when a second has elapsed the count becomes
    /// the displayed frame rate and starts over.
    pub fn tick(&mut self, second_elapsed: bool)
        ensures
            final(self).fps == if second_elapsed {
                0int
            } else if old(self).fps < u32::MAX {
                old(self).fps + 1
            } else {
                old(self).fps as int
            },
            final(self).framerate == if second_elapsed {
                if old(self).fps < u32::MAX {
                    old(self).fps + 1
                } else {
                    old(self).fps as int
                }
            } else {
                old(self).framerate as int
            },
    {
        if self.fps < u32::MAX {
            self.fps = self.fps + 1;
        }
        if second_elapsed {
            self.framerate = self.fps;
            self.fps = 0;
        }
    }
}

/// What one frame's processing hands the renderer: either the full
/// dataset list, or — in spectroscope mode — the FFT workloads that
/// must be transformed first.
pub enum FrameOutput {
    Datasets(Vec<DataSet>),
    Spectrum(Vec<SpectrumRequest>),
}

/// The application: the shared graph configuration, the three display
/// modes with their private state, and the one active mode.
pub struct App {
    pub channels: u8,
    pub graph: GraphConfig,
    pub oscilloscope: Oscilloscope,
    pub vectorscope: Vectorscope,
    pub spectroscope: Spectroscope,
    pub mode: CurrentDisplayMode,
}

impl App {
    /// Builds the application from the startup options: the graph
    /// window matches the source buffer, the palette cycles through
    /// four colors, and the oscilloscope starts as the active mode.
    pub fn new(ui: &UiOptions, source: &SourceOptions) -> (r: Self)
        requires
            1 <= source.buffer <= 1_000_000_000,
            0 <= ui.scale <= 10_000,
        ensures
            r.graph.wf(),
            r.graph.scale == ui.scale,
            r.graph.width == source.buffer,
            r.graph.samples == source.buffer,
            r.graph.sampling_rate == source.sample_rate,
            r.graph.references == !ui.no_reference,
            r.graph.show_ui == !ui.no_ui,
            r.graph.scatter == ui.scatter,
            r.graph.pause == false,
            r.graph.marker_type == if ui.no_braille {
                Marker::Dot
            } else {
                Marker::Braille
            },
            r.graph.palette@ =~= seq![Color::Red, Color::Yellow, Color::Green, Color::Magenta],
            r.graph.labels_color == Color::Cyan,
            r.graph.axis_color == Color::DarkGray,
            r.mode == CurrentDisplayMode::Oscilloscope,
            r.channels == source.channels as u8,
            r.oscilloscope == (Oscilloscope {
                triggering: false,
                falling_edge: false,
                threshold: 0,
                depth: 0,
                peaks: false,
            }),
            r.spectroscope.sampling_rate == source.sample_rate,
            r.spectroscope.buffer_size == source.buffer,
            r.spectroscope.average == 1,
            r.spectroscope.buf@.len() == 0,
            r.spectroscope.window == false,
            r.spectroscope.log_y == true,
    {
        let mut palette: Vec<Color> = Vec::new();
        palette.push(Color::Red);
        palette.push(Color::Yellow);
        palette.push(Color::Green);
        palette.push(Color::Magenta);
        let graph = GraphConfig {
            axis_color: Color::DarkGray,
            labels_color: Color::Cyan,
            palette,
            scale: ui.scale,
            width: source.buffer,
            samples: source.buffer,
            sampling_rate: source.sample_rate,
            references: !ui.no_reference,
            show_ui: !ui.no_ui,
            scatter: ui.scatter,
            pause: false,
            marker_type: if ui.no_braille {
                Marker::Dot
            } else {
                Marker::Braille
            },
        };
        let oscilloscope = Oscilloscope::from_args(source);
        let vectorscope = Vectorscope::from_args(source);
        let spectroscope = Spectroscope::from_args(source);
        App {
            graph,
            oscilloscope,
            vectorscope,
            spectroscope,
            mode: CurrentDisplayMode::Oscilloscope,
            channels: source.channels as u8,
        }
    }

    /// The active mode's name.
    pub fn mode_str(&self) -> (r: &'static str)
        ensures
            match self.mode {
                CurrentDisplayMode::Oscilloscope => r@ == "oscillo"@,
                CurrentDisplayMode::Vectorscope => r@ == "vector"@,
                CurrentDisplayMode::Spectroscope => r@ == "spectro"@,
            },
    {
        match self.mode {
            CurrentDisplayMode::Oscilloscope => self.oscilloscope.mode_str(),
            CurrentDisplayMode::Vectorscope => self.vectorscope.mode_str(),
            CurrentDisplayMode::Spectroscope => self.spectroscope.mode_str(),
        }
    }

    /// The active mode's axis descriptor.
    pub fn axis(&self, dimension: Dimension) -> (a: AxisSpec)
        requires
            self.graph.wf(),
        ensures
            a == match self.mode {
                CurrentDisplayMode::Oscilloscope => crate::display::oscilloscope::osc_axis(
                    self.graph,
                    dimension,
                ),
                CurrentDisplayMode::Vectorscope => crate::display::vectorscope::vector_axis(
                    self.graph,
                    dimension,
                ),
                CurrentDisplayMode::Spectroscope => crate::display::spectroscope::spectro_axis(
                    self.spectroscope.log_y,
                    self.graph,
                    dimension,
                ),
            },
    {
        match self.mode {
            CurrentDisplayMode::Oscilloscope => self.oscilloscope.axis(&self.graph, dimension),
            CurrentDisplayMode::Vectorscope => self.vectorscope.axis(&self.graph, dimension),
            CurrentDisplayMode::Spectroscope => self.spectroscope.axis(&self.graph, dimension),
        }
    }

    /// The active mode's header status.
    pub fn header(&self) -> (h: HeaderInfo)
        ensures
            h == match self.mode {
                CurrentDisplayMode::Oscilloscope => HeaderInfo::Oscilloscope {
                    triggering: self.oscilloscope.triggering,
                    falling_edge: self.oscilloscope.falling_edge,
                    threshold: self.oscilloscope.threshold,
                    depth: self.oscilloscope.depth,
                },
                CurrentDisplayMode::Vectorscope => HeaderInfo::Vectorscope,
                CurrentDisplayMode::Spectroscope => HeaderInfo::Spectroscope {
                    average: self.spectroscope.average,
                    window: self.spectroscope.window,
                    sampling_rate: self.spectroscope.sampling_rate,
                    buffer_size: self.spectroscope.buffer_size,
                },
            },
    {
        match self.mode {
            CurrentDisplayMode::Oscilloscope => self.oscilloscope.header(&self.graph),
            CurrentDisplayMode::Vectorscope => self.vectorscope.header(&self.graph),
            CurrentDisplayMode::Spectroscope => self.spectroscope.header(&self.graph),
        }
    }

    /// Adopts the incoming frame as the current one, unless intake is
    /// paused.
    pub fn adopt_frame(&self, current: &mut Matrix<i64>, incoming: Matrix<i64>)
        ensures
            *final(current) == if self.graph.pause {
                *old(current)
            } else {
                incoming
            },
    {
        if !self.graph.pause {
            *current = incoming;
        }
    }

    /// The global event router: quit keys, mode switching, pause, the
    /// shared zoom and window controls, and the reset key. Touches only
    /// the shared configuration and the mode selector, never the
    /// modes' private state. The configuration invariant — `samples`
    /// within `[0, 2 * width]`, the scale within its range — is
    /// preserved by every event.
    pub fn process_events(&mut self, event: KeyEvent) -> (quit: bool)
        requires
            old(self).graph.wf(),
        ensures
            quit == is_quit_event(event),
            final(self).graph.wf(),
            final(self).graph.scale == match event.code {
                KeyCode::Up => spec_update_value_f(
                    old(self).graph.scale as int,
                    10,
                    mag_num(event.modifiers),
                    mag_den(event.modifiers),
                    0,
                    10_000,
                ),
                KeyCode::Down => spec_update_value_f(
                    old(self).graph.scale as int,
                    -10,
                    mag_num(event.modifiers),
                    mag_den(event.modifiers),
                    0,
                    10_000,
                ),
                KeyCode::Esc => 1000int,
                _ => old(self).graph.scale as int,
            },
            final(self).graph.samples == match event.code {
                KeyCode::Right => spec_update_value_i(
                    old(self).graph.samples as int,
                    true,
                    25,
                    mag_num(event.modifiers),
                    mag_den(event.modifiers),
                    0,
                    2 * old(self).graph.width as int,
                ),
                KeyCode::Left => spec_update_value_i(
                    old(self).graph.samples as int,
                    false,
                    25,
                    mag_num(event.modifiers),
                    mag_den(event.modifiers),
                    0,
                    2 * old(self).graph.width as int,
                ),
                KeyCode::Esc => old(self).graph.width as int,
                _ => old(self).graph.samples as int,
            },
            final(self).graph.pause == if event.code == KeyCode::Char(' ') {
                !old(self).graph.pause
            } else {
                old(self).graph.pause
            },
            final(self).graph.scatter == if event.code == KeyCode::Char('s') {
                !old(self).graph.scatter
            } else {
                old(self).graph.scatter
            },
            final(self).graph.show_ui == if event.code == KeyCode::Char('h') {
                !old(self).graph.show_ui
            } else {
                old(self).graph.show_ui
            },
            final(self).graph.references == if event.code == KeyCode::Char('r') {
                !old(self).graph.references
            } else {
                old(self).graph.references
            },
            final(self).mode == if event.code == KeyCode::Tab {
                next_mode(old(self).mode)
            } else {
                old(self).mode
            },
            final(self).graph.width == old(self).graph.width,
            final(self).graph.sampling_rate == old(self).graph.sampling_rate,
            final(self).graph.marker_type == old(self).graph.marker_type,
            final(self).graph.palette == old(self).graph.palette,
            final(self).graph.labels_color == old(self).graph.labels_color,
            final(self).graph.axis_color == old(self).graph.axis_color,
            final(self).oscilloscope == old(self).oscilloscope,
            final(self).vectorscope == old(self).vectorscope,
            final(self).spectroscope == old(self).spectroscope,
            final(self).channels == old(self).channels,
    {
        let mut quit = false;
        if event.modifiers == KeyModifiers::Control {
            match event.code {
                KeyCode::Char('c') | KeyCode::Char('q') | KeyCode::Char('w') => quit = true,
                _ => {},
            }
        }
        let (num, den) = magnitude(event.modifiers);
        match event.code {
            KeyCode::Up => update_value_f(&mut self.graph.scale, 10, num, den, 0, 10_000),
            KeyCode::Down => update_value_f(&mut self.graph.scale, -10, num, den, 0, 10_000),
            KeyCode::Right => {
                let hi = self.graph.width * 2;
                update_value_i(&mut self.graph.samples, true, 25, num as u32, den as u32, 0, hi);
            },
            KeyCode::Left => {
                let hi = self.graph.width * 2;
                update_value_i(&mut self.graph.samples, false, 25, num as u32, den as u32, 0, hi);
            },
            KeyCode::Char('q') => quit = true,
            KeyCode::Char(' ') => self.graph.pause = !self.graph.pause,
            KeyCode::Char('s') => self.graph.scatter = !self.graph.scatter,
            KeyCode::Char('h') => self.graph.show_ui = !self.graph.show_ui,
            KeyCode::Char('r') => self.graph.references = !self.graph.references,
            KeyCode::Tab => {
                match self.mode {
                    CurrentDisplayMode::Oscilloscope => self.mode = CurrentDisplayMode::Vectorscope,
                    CurrentDisplayMode::Vectorscope => self.mode = CurrentDisplayMode::Spectroscope,
                    CurrentDisplayMode::Spectroscope => self.mode = CurrentDisplayMode::Oscilloscope,
                }
            },
            KeyCode::Esc => {
                self.graph.samples = self.graph.width;
                self.graph.scale = 1000;
            },
            _ => {},
        }
        quit
    }

    /// Routes one key event: first through the global router, then —
    /// unless it quit — into the active mode's private handler.
    pub fn handle(&mut self, event: KeyEvent) -> (quit: bool)
        requires
            old(self).graph.wf(),
            0 <= old(self).oscilloscope.threshold <= 32_768_000,
        ensures
            quit == is_quit_event(event),
            final(self).graph.wf(),
            final(self).oscilloscope == if !quit && old(self).mode
                == CurrentDisplayMode::Oscilloscope {
                crate::display::oscilloscope::osc_after_event(old(self).oscilloscope, event)
            } else {
                old(self).oscilloscope
            },
            final(self).spectroscope == if !quit && old(self).mode
                == CurrentDisplayMode::Spectroscope {
                crate::display::spectroscope::spectro_after_event(old(self).spectroscope, event)
            } else {
                old(self).spectroscope
            },
            final(self).vectorscope == old(self).vectorscope,
            final(self).mode == if !quit && event.code == KeyCode::Tab {
                next_mode(old(self).mode)
            } else {
                old(self).mode
            },
            final(self).graph.scale == match event.code {
                KeyCode::Up => spec_update_value_f(
                    old(self).graph.scale as int,
                    10,
                    mag_num(event.modifiers),
                    mag_den(event.modifiers),
                    0,
                    10_000,
                ),
                KeyCode::Down => spec_update_value_f(
                    old(self).graph.scale as int,
                    -10,
                    mag_num(event.modifiers),
                    mag_den(event.modifiers),
                    0,
                    10_000,
                ),
                KeyCode::Esc => 1000int,
                _ => old(self).graph.scale as int,
            },
            final(self).graph.samples == match event.code {
                KeyCode::Right => spec_update_value_i(
                    old(self).graph.samples as int,
                    true,
                    25,
                    mag_num(event.modifiers),
                    mag_den(event.modifiers),
                    0,
                    2 * old(self).graph.width as int,
                ),
                KeyCode::Left => spec_update_value_i(
                    old(self).graph.samples as int,
                    false,
                    25,
                    mag_num(event.modifiers),
                    mag_den(event.modifiers),
                    0,
                    2 * old(self).graph.width as int,
                ),
                KeyCode::Esc => old(self).graph.width as int,
                _ => old(self).graph.samples as int,
            },
            final(self).graph.pause == if event.code == KeyCode::Char(' ') {
                !old(self).graph.pause
            } else {
                old(self).graph.pause
            },
            final(self).graph.scatter == if event.code == KeyCode::Char('s') {
                !old(self).graph.scatter
            } else {
                old(self).graph.scatter
            },
            final(self).graph.show_ui == if event.code == KeyCode::Char('h') {
                !old(self).graph.show_ui
            } else {
                old(self).graph.show_ui
            },
            final(self).graph.references == if event.code == KeyCode::Char('r') {
                !old(self).graph.references
            } else {
                old(self).graph.references
            },
            final(self).graph.width == old(self).graph.width,
            final(self).graph.sampling_rate == old(self).graph.sampling_rate,
            final(self).graph.marker_type == old(self).graph.marker_type,
            final(self).graph.palette == old(self).graph.palette,
            final(self).graph.labels_color == old(self).graph.labels_color,
            final(self).graph.axis_color == old(self).graph.axis_color,
            final(self).channels == old(self).channels,
    {
        let q = self.process_events(event);
        if q {
            return true;
        }
        match self.mode {
            CurrentDisplayMode::Oscilloscope => self.oscilloscope.handle(event),
            CurrentDisplayMode::Vectorscope => self.vectorscope.handle(event),
            CurrentDisplayMode::Spectroscope => self.spectroscope.handle(event),
        }
        false
    }

    /// The per-frame transform of the active mode. For the
    /// oscilloscope and the vectorscope the result is the full dataset
    /// list, guide geometry first (when enabled) so signal traces
    /// paint on top. For the spectroscope the result is the FFT
    /// workload per channel; `finish_spectrum` builds the datasets
    /// from the transformed magnitudes.
    pub fn process_frame(&mut self, channels: &Matrix<i64>) -> (r: FrameOutput)
        requires
            old(self).graph.wf(),
            old(self).mode == CurrentDisplayMode::Oscilloscope && old(self).oscilloscope.triggering
                ==> channels@.len() >= 1,
            forall|c: int|
                0 <= c < channels@.len() ==> (#[trigger] channels@[c])@.len()
                    <= crate::display::MAX_FRAME_LEN,
        ensures
            final(self).graph == old(self).graph,
            final(self).mode == old(self).mode,
            final(self).channels == old(self).channels,
            final(self).vectorscope == old(self).vectorscope,
            match old(self).mode {
                CurrentDisplayMode::Oscilloscope => {
                    &&& final(self).spectroscope == old(self).spectroscope
                    &&& final(self).oscilloscope == (Oscilloscope {
                        depth: if old(self).oscilloscope.depth == 0 {
                            1u32
                        } else {
                            old(self).oscilloscope.depth
                        },
                        ..old(self).oscilloscope
                    })
                    &&& r matches FrameOutput::Datasets(v) && crate::display::views(v@)
                        =~~= (if old(self).graph.references {
                        seq![
                            crate::display::DataSetView {
                                name: None,
                                data: seq![
                                    (0i64, 0i64),
                                    ((old(self).graph.samples * 1000) as i64, 0i64),
                                ],
                                marker_type: old(self).graph.marker_type,
                                graph_type: crate::display::GraphType::Line,
                                color: old(self).graph.axis_color,
                            },
                        ]
                    } else {
                        Seq::empty()
                    }) + crate::display::oscilloscope::osc_process_view(
                        final(self).oscilloscope,
                        old(self).graph,
                        crate::display::mat_view(channels@),
                    )
                },
                CurrentDisplayMode::Vectorscope => {
                    &&& final(self).spectroscope == old(self).spectroscope
                    &&& final(self).oscilloscope == old(self).oscilloscope
                    &&& r matches FrameOutput::Datasets(v) && crate::display::views(v@)
                        =~~= (if old(self).graph.references {
                        seq![
                            crate::display::DataSetView {
                                name: None,
                                data: seq![
                                    ((-old(self).graph.scale) as i64, 0i64),
                                    (old(self).graph.scale, 0i64),
                                ],
                                marker_type: old(self).graph.marker_type,
                                graph_type: crate::display::GraphType::Line,
                                color: old(self).graph.axis_color,
                            },
                            crate::display::DataSetView {
                                name: None,
                                data: seq![
                                    (0i64, (-old(self).graph.scale) as i64),
                                    (0i64, old(self).graph.scale),
                                ],
                                marker_type: old(self).graph.marker_type,
                                graph_type: crate::display::GraphType::Line,
                                color: old(self).graph.axis_color,
                            },
                        ]
                    } else {
                        Seq::empty()
                    }) + crate::display::vectorscope::vector_process_view(
                        old(self).graph,
                        crate::display::mat_view(channels@),
                    )
                },
                CurrentDisplayMode::Spectroscope => {
                    &&& final(self).oscilloscope == old(self).oscilloscope
                    &&& final(self).spectroscope.average == if old(self).spectroscope.average
                        == 0 {
                        1u32
                    } else {
                        old(self).spectroscope.average
                    }
                    &&& final(self).spectroscope.sampling_rate == old(self).spectroscope.sampling_rate
                    &&& final(self).spectroscope.buffer_size == old(self).spectroscope.buffer_size
                    &&& final(self).spectroscope.window == old(self).spectroscope.window
                    &&& final(self).spectroscope.log_y == old(self).spectroscope.log_y
                    &&& crate::display::spectroscope::buf_views(final(self).spectroscope.buf@)
                        == crate::display::spectroscope::buffers_after(
                        crate::display::spectroscope::buf_views(old(self).spectroscope.buf@),
                        crate::display::mat_view(channels@),
                        old(self).graph.pause,
                        final(self).spectroscope.average as int,
                    )
                    &&& r matches FrameOutput::Spectrum(reqs) && reqs@.len() == final(self).spectroscope.buf@.len() && (forall|k: int|
                        0 <= k < reqs@.len() ==> (#[trigger] reqs@[k]).apply_window == old(self).spectroscope.window) && (forall|k: int|
                        0 <= k < reqs@.len() ==> (#[trigger] reqs@[k]).input@
                            == crate::display::spectroscope::buf_views(
                            final(self).spectroscope.buf@,
                        )[final(self).spectroscope.buf@.len() - 1 - k].flatten())
                },
            },
    {
        match self.mode {
            CurrentDisplayMode::Oscilloscope => {
                let mut out: Vec<DataSet> = Vec::new();
                if self.graph.references {
                    let mut refs = self.oscilloscope.references(&self.graph);
                    out.append(&mut refs);
                }
                let mut main = self.oscilloscope.process(&self.graph, channels);
                out.append(&mut main);
                FrameOutput::Datasets(out)
            },
            CurrentDisplayMode::Vectorscope => {
                let mut out: Vec<DataSet> = Vec::new();
                if self.graph.references {
                    let mut refs = self.vectorscope.references(&self.graph);
                    out.append(&mut refs);
                }
                let mut main = self.vectorscope.process(&self.graph, channels);
                out.append(&mut main);
                FrameOutput::Datasets(out)
            },
            CurrentDisplayMode::Spectroscope => {
                let reqs = self.spectroscope.process(&self.graph, channels);
                FrameOutput::Spectrum(reqs)
            },
        }
    }

    /// The spectroscope's dataset list for the transformed magnitudes:
    /// the frequency guide geometry first (when enabled), then one
    /// spectrum trace per channel.
    pub fn finish_spectrum(&self, mags: &Vec<Vec<i64>>) -> (out: Vec<DataSet>)
        requires
            self.graph.wf(),
            1 <= self.spectroscope.buffer_size as int * self.spectroscope.average as int,
            forall|k: int|
                0 <= k < mags@.len() ==> (#[trigger] mags@[k])@.len()
                    <= self.spectroscope.buffer_size as int * self.spectroscope.average as int + 1,
        ensures
            crate::display::views(out@) =~~= (if self.graph.references {
                seq![
                    crate::display::DataSetView {
                        name: None,
                        data: seq![(1000i64, 0i64), ((self.graph.samples * 1000) as i64, 0i64)],
                        marker_type: self.graph.marker_type,
                        graph_type: crate::display::GraphType::Line,
                        color: self.graph.axis_color,
                    },
                ] + Seq::new(
                    crate::display::spectroscope::guide_freqs().len(),
                    |j: int|
                        crate::display::spectroscope::guide_line_view(
                            self.graph,
                            crate::display::spectroscope::guide_freqs()[j],
                        ),
                )
            } else {
                Seq::empty()
            }) + crate::display::spectroscope::spectrum_sets_upto(
                self.graph,
                self.spectroscope.sampling_rate as int,
                self.spectroscope.buffer_size as int * self.spectroscope.average as int,
                crate::display::mat_view(mags@),
                mags@.len() as int,
            ),
    {
        let mut out: Vec<DataSet> = Vec::new();
        if self.graph.references {
            let mut refs = self.spectroscope.references(&self.graph);
            out.append(&mut refs);
        }
        let mut main = self.spectroscope.spectrum_datasets(&self.graph, mags);
        out.append(&mut main);
        out
    }
}

} // verus!
