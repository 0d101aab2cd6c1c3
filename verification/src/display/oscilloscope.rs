//! Oscilloscope mode: a waveform view per channel, stabilized by an
//! edge-triggering scan with hysteresis.

use vstd::prelude::*;

use crate::app::{magnitude, update_value_f, update_value_i, KeyCode, KeyEvent};
use crate::cfg::SourceOptions;
use crate::display::{
    channel_label, lr_channel_name, mat_view, spec_palette, views, AxisLabel, AxisSpec, DataSet,
    DataSetView, DatasetLabel, Dimension, GraphConfig, GraphType, HeaderInfo, MAX_FRAME_LEN,
};
use crate::input::Matrix;

verus! {

/// Oscilloscope-private state.
#[derive(Clone, Copy, PartialEq, Eq, Structural, Debug)]
pub struct Oscilloscope {
    pub triggering: bool,
    pub falling_edge: bool,
    /// Trigger threshold, in milli-units.
    pub threshold: i64,
    /// Hysteresis depth: how many samples past a crossing must stay on
    /// the far side of the threshold. Clamped to at least 1 on use.
    pub depth: u32,
    pub peaks: bool,
}

/// Whether index `i` of a channel qualifies as a trigger point: the
/// sample sits on the near side of the threshold and the next `depth`
/// samples all sit strictly on the far side. An index without a full
/// lookahead window never qualifies.
pub open spec fn triggers_at(
    data: Seq<i64>,
    i: int,
    threshold: i64,
    depth: nat,
    falling: bool,
) -> bool {
    &&& 0 <= i
    &&& i + depth < data.len()
    &&& if falling {
        data[i] >= threshold && forall|j: int| #![trigger data.index(i + j)] 1 <= j <= depth ==> data[i + j] < threshold
    } else {
        data[i] <= threshold && forall|j: int| #![trigger data.index(i + j)] 1 <= j <= depth ==> data[i + j] > threshold
    }
}

/// `off` is the first qualifying index, or zero when none qualifies.
pub open spec fn is_first_trigger(
    data: Seq<i64>,
    threshold: i64,
    depth: nat,
    falling: bool,
    off: int,
) -> bool {
    if exists|i: int| triggers_at(data, i, threshold, depth, falling) {
        triggers_at(data, off, threshold, depth, falling) && forall|j: int|
            0 <= j < off ==> !triggers_at(data, j, threshold, depth, falling)
    } else {
        off == 0
    }
}

/// The trigger offset of a channel: the first qualifying index, or
/// zero when none qualifies.
pub open spec fn spec_trigger_offset(data: Seq<i64>, threshold: i64, depth: nat, falling: bool) -> int {
    choose|off: int| is_first_trigger(data, threshold, depth, falling, off)
}

/// The first qualifying index is unique, so anything satisfying
/// `is_first_trigger` equals `spec_trigger_offset`.
pub proof fn lemma_first_trigger_unique(
    data: Seq<i64>,
    threshold: i64,
    depth: nat,
    falling: bool,
    off: int,
)
    requires
        is_first_trigger(data, threshold, depth, falling, off),
    ensures
        spec_trigger_offset(data, threshold, depth, falling) == off,
{
    let o2 = spec_trigger_offset(data, threshold, depth, falling);
    assert(is_first_trigger(data, threshold, depth, falling, o2));
    if exists|i: int| triggers_at(data, i, threshold, depth, falling) {
        if o2 < off {
            assert(!triggers_at(data, o2, threshold, depth, falling));
        } else if off < o2 {
            assert(!triggers_at(data, off, threshold, depth, falling));
        }
    }
}

/// Whether `index` qualifies as a trigger point. Never reads past the
/// end of the channel: an index without `depth` samples of lookahead
/// reports false.
pub fn triggered(data: &Vec<i64>, index: usize, threshold: i64, depth: u32, falling_edge: bool) -> (r:
    bool)
    requires
        depth >= 1,
    ensures
        r == triggers_at(data@, index as int, threshold, depth as nat, falling_edge),
{
    if (data.len() as u64) < (depth as u64) + 1 {
        return false;
    }
    if (index as u64) > (data.len() as u64) - (depth as u64) - 1 {
        return false;
    }
    if falling_edge {
        if data[index] >= threshold {
            let mut i: u32 = 0;
            while i < depth
                invariant
                    0 <= i <= depth,
                    index + depth < data@.len(),
                    data@.len() <= usize::MAX,
                    falling_edge,
                    data@[index as int] >= threshold,
                    forall|j: int| 1 <= j <= i ==> #[trigger] data@[index + j] < threshold,
                decreases depth - i,
            {
                let j = i + 1;
                if data[index + (j as usize)] >= threshold {
                    proof {
                        let ji = j as int;
                        if triggers_at(data@, index as int, threshold, depth as nat, falling_edge) {
                            assert(data@[index as int + ji] < threshold);
                            assert(false);
                        }
                    }
                    return false;
                }
                i = j;
            }
            true
        } else {
            false
        }
    } else {
        if data[index] <= threshold {
            let mut i: u32 = 0;
            while i < depth
                invariant
                    0 <= i <= depth,
                    index + depth < data@.len(),
                    data@.len() <= usize::MAX,
                    !falling_edge,
                    data@[index as int] <= threshold,
                    forall|j: int| 1 <= j <= i ==> #[trigger] data@[index + j] > threshold,
                decreases depth - i,
            {
                let j = i + 1;
                if data[index + (j as usize)] <= threshold {
                    proof {
                        let ji = j as int;
                        if triggers_at(data@, index as int, threshold, depth as nat, falling_edge) {
                            assert(data@[index as int + ji] > threshold);
                            assert(false);
                        }
                    }
                    return false;
                }
                i = j;
            }
            true
        } else {
            false
        }
    }
}

/// Scans channel `data` from the start and returns the first index
/// that qualifies as a trigger point, or zero when none qualifies.
/// The scan never reads past the end of the channel.
pub fn trigger_offset(data: &Vec<i64>, threshold: i64, depth: u32, falling_edge: bool) -> (off:
    usize)
    requires
        depth >= 1,
    ensures
        is_first_trigger(data@, threshold, depth as nat, falling_edge, off as int),
        off < data@.len() || off == 0,
        spec_trigger_offset(data@, threshold, depth as nat, falling_edge) == off,
{
    let n = data.len();
    let mut i: usize = 0;
    while i < n
        invariant
            0 <= i <= n,
            n == data@.len(),
            depth >= 1,
            forall|j: int|
                0 <= j < i ==> !triggers_at(data@, j, threshold, depth as nat, falling_edge),
        decreases n - i,
    {
        if triggered(data, i, threshold, depth, falling_edge) {
            proof {
                lemma_first_trigger_unique(
                    data@,
                    threshold,
                    depth as nat,
                    falling_edge,
                    i as int,
                );
            }
            return i;
        }
        i += 1;
    }
    proof {
        // no index qualifies: any qualifying index would lie inside the
        // scanned range
        assert(forall|j: int|
            triggers_at(data@, j, threshold, depth as nat, falling_edge) ==> 0 <= j
                < data@.len());
        lemma_first_trigger_unique(data@, threshold, depth as nat, falling_edge, 0);
    }
    0
}

/// The oscilloscope state after one key event: PageUp and PageDown
/// nudge the threshold by 250 milli-units (modifier-scaled) within
/// `[0, 32768]`; `=`, `-`, `+` and `_` nudge the hysteresis depth
/// within `[1, 65535]`; `t`, `e` and `p` toggle triggering, the edge
/// direction and the peak markers; Esc disarms triggering.
pub open spec fn osc_after_event(s: Oscilloscope, event: KeyEvent) -> Oscilloscope {
    Oscilloscope {
        threshold: (match event.code {
            KeyCode::PageUp => crate::app::spec_update_value_f(
                s.threshold as int,
                250_000,
                crate::app::mag_num(event.modifiers),
                crate::app::mag_den(event.modifiers),
                0,
                32_768_000,
            ),
            KeyCode::PageDown => crate::app::spec_update_value_f(
                s.threshold as int,
                -250_000,
                crate::app::mag_num(event.modifiers),
                crate::app::mag_den(event.modifiers),
                0,
                32_768_000,
            ),
            _ => s.threshold as int,
        }) as i64,
        depth: (match event.code {
            KeyCode::Char('=') => crate::app::spec_update_value_i(s.depth as int, true, 1, 1, 1, 1, 65535),
            KeyCode::Char('-') => crate::app::spec_update_value_i(s.depth as int, false, 1, 1, 1, 1, 65535),
            KeyCode::Char('+') => crate::app::spec_update_value_i(s.depth as int, true, 10, 1, 1, 1, 65535),
            KeyCode::Char('_') => crate::app::spec_update_value_i(s.depth as int, false, 10, 1, 1, 1, 65535),
            _ => s.depth as int,
        }) as u32,
        triggering: match event.code {
            KeyCode::Char('t') => !s.triggering,
            KeyCode::Esc => false,
            _ => s.triggering,
        },
        falling_edge: if event.code == KeyCode::Char('e') {
            !s.falling_edge
        } else {
            s.falling_edge
        },
        peaks: if event.code == KeyCode::Char('p') {
            !s.peaks
        } else {
            s.peaks
        },
    }
}

impl Oscilloscope {
    /// Initial oscilloscope state: triggering off, everything zeroed.
    pub fn from_args(_opts: &SourceOptions) -> (r: Self)
        ensures
            r == (Oscilloscope {
                triggering: false,
                falling_edge: false,
                threshold: 0,
                depth: 0,
                peaks: false,
            }),
    {
        Oscilloscope { triggering: false, falling_edge: false, threshold: 0, depth: 0, peaks: false }
    }

    pub fn mode_str(&self) -> (r: &'static str)
        ensures
            r@ == "oscillo"@,
    {
        "oscillo"
    }

    /// Routes one key event to the oscilloscope-private state.
    pub fn handle(&mut self, event: KeyEvent)
        requires
            0 <= old(self).threshold <= 32_768_000,
        ensures
            *final(self) == osc_after_event(*old(self), event),
    {
        let (num, den) = magnitude(event.modifiers);
        match event.code {
            KeyCode::PageUp => update_value_f(&mut self.threshold, 250_000, num, den, 0, 32_768_000),
            KeyCode::PageDown => update_value_f(
                &mut self.threshold,
                -250_000,
                num,
                den,
                0,
                32_768_000,
            ),
            KeyCode::Char('t') => self.triggering = !self.triggering,
            KeyCode::Char('e') => self.falling_edge = !self.falling_edge,
            KeyCode::Char('p') => self.peaks = !self.peaks,
            KeyCode::Char('=') => update_value_i(&mut self.depth, true, 1, 1, 1, 1, 65535),
            KeyCode::Char('-') => update_value_i(&mut self.depth, false, 1, 1, 1, 1, 65535),
            KeyCode::Char('+') => update_value_i(&mut self.depth, true, 10, 1, 1, 1, 65535),
            KeyCode::Char('_') => update_value_i(&mut self.depth, false, 10, 1, 1, 1, 65535),
            KeyCode::Esc => self.triggering = false,
            _ => {},
        }
    }

    /// Pure axis descriptor: time along X, a symmetric amplitude range
    /// `[-scale, scale]` along Y.
    pub fn axis(&self, cfg: &GraphConfig, dimension: Dimension) -> (a: AxisSpec)
        requires
            cfg.wf(),
        ensures
            a == osc_axis(*cfg, dimension),
            matches!(dimension, Dimension::Y) ==> a.bounds.0 == -cfg.scale && a.bounds.1
                == cfg.scale,
    {
        let (label, bounds) = match dimension {
            Dimension::X => (AxisLabel::Time, (0i64, (cfg.samples as i64) * 1000)),
            Dimension::Y => (AxisLabel::Amplitude, (-cfg.scale, cfg.scale)),
        };
        AxisSpec { label: if cfg.show_ui { Some(label) } else { None }, bounds }
    }

    /// The zero-amplitude guide line across the visible window.
    pub fn references(&self, cfg: &GraphConfig) -> (out: Vec<DataSet>)
        ensures
            views(out@) =~~= seq![
                DataSetView {
                    name: None,
                    data: seq![(0i64, 0i64), ((cfg.samples * 1000) as i64, 0i64)],
                    marker_type: cfg.marker_type,
                    graph_type: GraphType::Line,
                    color: cfg.axis_color,
                },
            ],
    {
        let mut pts: Vec<(i64, i64)> = Vec::new();
        pts.push((0, 0));
        pts.push(((cfg.samples as i64) * 1000, 0));
        let mut out: Vec<DataSet> = Vec::new();
        out.push(DataSet::new(None, pts, cfg.marker_type, GraphType::Line, cfg.axis_color));
        out
    }

    /// The trigger status shown in the header line.
    pub fn header(&self, _cfg: &GraphConfig) -> (h: HeaderInfo)
        ensures
            h == (HeaderInfo::Oscilloscope {
                triggering: self.triggering,
                falling_edge: self.falling_edge,
                threshold: self.threshold,
                depth: self.depth,
            }),
    {
        HeaderInfo::Oscilloscope {
            triggering: self.triggering,
            falling_edge: self.falling_edge,
            threshold: self.threshold,
            depth: self.depth,
        }
    }

    /// The per-frame transform: scans for the trigger point, drops the
    /// leading samples of every channel, and emits one trace per
    /// channel in reverse channel order, with peak markers and the
    /// trigger anchor when those are enabled.
    pub fn process(&mut self, cfg: &GraphConfig, data: &Matrix<i64>) -> (out: Vec<DataSet>)
        requires
            old(self).triggering ==> data@.len() >= 1,
            forall|c: int|
                0 <= c < data@.len() ==> (#[trigger] data@[c])@.len() <= MAX_FRAME_LEN,
        ensures
            *final(self) == (Oscilloscope {
                depth: if old(self).depth == 0 {
                    1u32
                } else {
                    old(self).depth
                },
                ..*old(self)
            }),
            views(out@) =~~= osc_process_view(*final(self), *cfg, mat_view(data@)),
    {
        if self.depth == 0 {
            self.depth = 1;
        }
        let ghost dv = mat_view(data@);
        let offset: usize = if self.triggering {
            trigger_offset(&data[0], self.threshold, self.depth, self.falling_edge)
        } else {
            0
        };

        let mut out: Vec<DataSet> = Vec::new();
        if self.triggering {
            let mut pts: Vec<(i64, i64)> = Vec::new();
            pts.push((0, self.threshold));
            out.push(
                DataSet::new(
                    Some(DatasetLabel::Trigger),
                    pts,
                    cfg.marker_type,
                    GraphType::Scatter,
                    cfg.labels_color,
                ),
            );
        }
        let ghost prefix = views(out@);
        proof {
            assert(prefix =~~= if self.triggering {
                seq![osc_trigger_marker(*cfg, self.threshold)]
            } else {
                Seq::<DataSetView>::empty()
            });
        }

        let mut c: usize = data.len();
        proof {
            assert(osc_channel_sets(*cfg, self.peaks, dv, offset as int, c as int)
                =~~= Seq::<DataSetView>::empty());
            assert(views(out@) =~~= prefix + osc_channel_sets(
                *cfg,
                self.peaks,
                dv,
                offset as int,
                c as int,
            ));
        }
        while c > 0
            invariant
                c <= data@.len(),
                dv == mat_view(data@),
                forall|j: int| 0 <= j < data@.len() ==> (#[trigger] data@[j])@.len() <= MAX_FRAME_LEN,
                views(out@) == prefix + osc_channel_sets(
                    *cfg,
                    self.peaks,
                    dv,
                    offset as int,
                    c as int,
                ),
            decreases c,
        {
            c -= 1;
            let chan: &Vec<i64> = &data[c];
            let mut min: i64 = 0;
            let mut max: i64 = 0;
            let mut tmp: Vec<(i64, i64)> = Vec::new();
            let mut i: usize = 0;
            while i < chan.len()
                invariant
                    i <= chan@.len() <= MAX_FRAME_LEN,
                    offset <= usize::MAX,
                    min == min_with_zero(chan@.take(i as int)),
                    max == max_with_zero(chan@.take(i as int)),
                    tmp@ =~= channel_points(chan@.take(i as int), offset as int),
                decreases chan@.len() - i,
            {
                let ghost pre = chan@.take(i as int);
                proof {
                    assert(chan@.take(i + 1int).drop_last() =~= pre);
                    assert(chan@.take(i + 1int).last() == chan@[i as int]);
                }
                let sample = chan[i];
                if sample < min {
                    min = sample;
                }
                if sample > max {
                    max = sample;
                }
                if i >= offset {
                    tmp.push((((i - offset) as i64) * 1000, sample));
                }
                proof {
                    assert(tmp@ =~= channel_points(chan@.take(i + 1int), offset as int));
                }
                i += 1;
            }
            proof {
                assert(chan@.take(chan@.len() as int) =~= chan@);
            }

            let ghost tmp_view = tmp@;
            let ghost out0 = out@;
            if self.peaks {
                let mut pk: Vec<(i64, i64)> = Vec::new();
                pk.push((0, min));
                pk.push((0, max));
                out.push(
                    DataSet::new(None, pk, cfg.marker_type, GraphType::Scatter, cfg.palette(c)),
                );
            }
            out.push(
                DataSet::new(
                    Some(lr_channel_name(c)),
                    tmp,
                    cfg.marker_type,
                    if cfg.scatter {
                        GraphType::Scatter
                    } else {
                        GraphType::Line
                    },
                    cfg.palette(c),
                ),
            );
            proof {
                let ci = c as int;
                let pv: Seq<DataSetView> = if self.peaks {
                    seq![osc_peaks_view(*cfg, ci, dv[ci])]
                } else {
                    Seq::empty()
                };
                let cv = osc_channel_view(*cfg, ci, dv[ci], offset as int);
                assert(osc_channel_sets(*cfg, self.peaks, dv, offset as int, ci) =~~=
                    osc_channel_sets(*cfg, self.peaks, dv, offset as int, ci + 1) + pv + seq![cv]);
                assert(dv[ci] =~= chan@);
                assert(cv.data =~= tmp_view);
                assert(out@[out@.len() - 1]@ =~~= cv);
                if self.peaks {
                    assert(out@[out@.len() - 2]@ =~~= osc_peaks_view(*cfg, ci, dv[ci]));
                }
                assert(views(out@) =~~= views(out0) + pv + seq![cv]);
                assert(views(out0) == prefix + osc_channel_sets(
                    *cfg,
                    self.peaks,
                    dv,
                    offset as int,
                    ci + 1,
                ));
                assert(views(out@) =~~= prefix + osc_channel_sets(
                    *cfg,
                    self.peaks,
                    dv,
                    offset as int,
                    c as int,
                ));
            }
        }
        proof {
            assert(views(out@) =~~= osc_process_view(*self, *cfg, dv));
        }
        out
    }
}

/// The oscilloscope's axis descriptor: time along X, the symmetric
/// amplitude range `[-scale, scale]` along Y.
pub open spec fn osc_axis(cfg: GraphConfig, dimension: Dimension) -> AxisSpec {
    AxisSpec {
        label: if cfg.show_ui {
            Some(
                match dimension {
                    Dimension::X => AxisLabel::Time,
                    Dimension::Y => AxisLabel::Amplitude,
                },
            )
        } else {
            None
        },
        bounds: match dimension {
            Dimension::X => (0i64, (cfg.samples * 1000) as i64),
            Dimension::Y => ((-cfg.scale) as i64, cfg.scale),
        },
    }
}

/// The single-point dataset anchoring the trigger level on screen.
pub open spec fn osc_trigger_marker(cfg: GraphConfig, threshold: i64) -> DataSetView {
    DataSetView {
        name: Some(DatasetLabel::Trigger),
        data: seq![(0i64, threshold)],
        marker_type: cfg.marker_type,
        graph_type: GraphType::Scatter,
        color: cfg.labels_color,
    }
}

/// A channel trimmed by the trigger offset: point `k` plots sample
/// `offset + k` at x-coordinate `k`, in milli-units.
pub open spec fn channel_points(chan: Seq<i64>, offset: int) -> Seq<(i64, i64)> {
    if 0 <= offset <= chan.len() {
        Seq::new((chan.len() - offset) as nat, |k: int| (((k * 1000) as i64), chan[k + offset]))
    } else {
        Seq::empty()
    }
}

/// Smallest sample of the channel, or zero if all samples are positive.
pub open spec fn min_with_zero(chan: Seq<i64>) -> i64
    decreases chan.len(),
{
    if chan.len() == 0 {
        0
    } else {
        let m = min_with_zero(chan.drop_last());
        if chan.last() < m {
            chan.last()
        } else {
            m
        }
    }
}

/// Largest sample of the channel, or zero if all samples are negative.
pub open spec fn max_with_zero(chan: Seq<i64>) -> i64
    decreases chan.len(),
{
    if chan.len() == 0 {
        0
    } else {
        let m = max_with_zero(chan.drop_last());
        if chan.last() > m {
            chan.last()
        } else {
            m
        }
    }
}

/// The full-channel peak markers: two points at x = 0 for the minimum
/// and maximum of the untrimmed channel.
pub open spec fn osc_peaks_view(cfg: GraphConfig, n: int, chan: Seq<i64>) -> DataSetView {
    DataSetView {
        name: None,
        data: seq![(0i64, min_with_zero(chan)), (0i64, max_with_zero(chan))],
        marker_type: cfg.marker_type,
        graph_type: GraphType::Scatter,
        color: spec_palette(cfg.palette@, n),
    }
}

/// One channel's waveform trace.
pub open spec fn osc_channel_view(cfg: GraphConfig, n: int, chan: Seq<i64>, offset: int) -> DataSetView {
    DataSetView {
        name: Some(channel_label(n)),
        data: channel_points(chan, offset),
        marker_type: cfg.marker_type,
        graph_type: if cfg.scatter {
            GraphType::Scatter
        } else {
            GraphType::Line
        },
        color: spec_palette(cfg.palette@, n),
    }
}

/// The datasets of channels `c`, `c + 1`, ... in reverse channel order:
/// the last channel's sets come first, so channel 0 draws last and on
/// top.
pub open spec fn osc_channel_sets(
    cfg: GraphConfig,
    peaks: bool,
    data: Seq<Seq<i64>>,
    offset: int,
    c: int,
) -> Seq<DataSetView>
    decreases data.len() - c,
{
    if c < 0 || c >= data.len() {
        Seq::empty()
    } else {
        osc_channel_sets(cfg, peaks, data, offset, c + 1) + (if peaks {
            seq![osc_peaks_view(cfg, c, data[c])]
        } else {
            Seq::empty()
        }) + seq![osc_channel_view(cfg, c, data[c], offset)]
    }
}

/// Everything one oscilloscope frame draws: the trigger anchor when
/// triggering, then every channel's peaks and trace in reverse channel
/// order, trimmed by the trigger offset.
pub open spec fn osc_process_view(state: Oscilloscope, cfg: GraphConfig, data: Seq<Seq<i64>>) -> Seq<
    DataSetView,
> {
    let offset = if state.triggering {
        spec_trigger_offset(data[0], state.threshold, state.depth as nat, state.falling_edge)
    } else {
        0
    };
    (if state.triggering {
        seq![osc_trigger_marker(cfg, state.threshold)]
    } else {
        Seq::empty()
    }) + osc_channel_sets(cfg, state.peaks, data, offset, 0)
}

} // verus!
