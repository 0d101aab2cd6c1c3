//! Vectorscope mode: consecutive channel pairs plotted against each
//! other as X/Y coordinates, each pair split into an older and a newer
//! half so recency is visually distinguishable.

use vstd::prelude::*;

use crate::app::KeyEvent;
use crate::cfg::SourceOptions;
use crate::display::{
    mat_view, spec_palette, views, AxisLabel, AxisSpec, DataSet, DataSetView, DatasetLabel,
    Dimension, GraphConfig, GraphType, HeaderInfo, MAX_FRAME_LEN,
};
use crate::input::Matrix;

verus! {

/// Vectorscope-private state: there is none.
#[derive(Clone, Copy, PartialEq, Eq, Structural, Debug)]
pub struct Vectorscope {}

/// Points of a full stereo pair: `(a[i], b[i])` for `i` up to the
/// shorter channel, truncated to at most `limit` points.
pub open spec fn pair_points(a: Seq<i64>, b: Seq<i64>, limit: int) -> Seq<(i64, i64)> {
    let m = if a.len() <= b.len() {
        a.len() as int
    } else {
        b.len() as int
    };
    let count = if m <= limit {
        m
    } else {
        limit
    };
    Seq::new(if count >= 0 {
        count as nat
    } else {
        0
    }, |i: int| (a[i], b[i]))
}

/// Points of a leftover unpaired channel: the sample against its index
/// on the secondary axis, index in milli-units.
pub open spec fn single_points(a: Seq<i64>, limit: int) -> Seq<(i64, i64)> {
    let count = if a.len() <= limit {
        a.len() as int
    } else {
        limit
    };
    Seq::new(if count >= 0 {
        count as nat
    } else {
        0
    }, |i: int| (a[i], (i * 1000) as i64))
}

/// The two datasets one channel chunk produces: the newer half of its
/// point sequence first, then the older half, separately colored.
pub open spec fn vector_pair_sets(
    cfg: GraphConfig,
    data: Seq<Seq<i64>>,
    limit: int,
    n: int,
) -> Seq<DataSetView> {
    let pts = if 2 * n + 1 < data.len() {
        pair_points(data[2 * n], data[2 * n + 1], limit)
    } else {
        single_points(data[2 * n], limit)
    };
    let pivot = pts.len() as int / 2;
    let gt = if cfg.scatter {
        GraphType::Scatter
    } else {
        GraphType::Line
    };
    seq![
        DataSetView {
            name: Some(DatasetLabel::Channel((2 * n + 1) as usize)),
            data: pts.skip(pivot),
            marker_type: cfg.marker_type,
            graph_type: gt,
            color: spec_palette(cfg.palette@, 2 * n + 1),
        },
        DataSetView {
            name: Some(DatasetLabel::Channel((2 * n) as usize)),
            data: pts.take(pivot),
            marker_type: cfg.marker_type,
            graph_type: gt,
            color: spec_palette(cfg.palette@, 2 * n),
        },
    ]
}

/// The datasets of the first `n` channel chunks, in chunk order.
pub open spec fn vector_sets_upto(
    cfg: GraphConfig,
    data: Seq<Seq<i64>>,
    limit: int,
    n: int,
) -> Seq<DataSetView>
    decreases n,
{
    if n <= 0 {
        Seq::empty()
    } else {
        vector_sets_upto(cfg, data, limit, n - 1) + vector_pair_sets(cfg, data, limit, n - 1)
    }
}

/// Everything one vectorscope frame draws: two datasets per channel
/// chunk, pairs first split at their midpoint.
pub open spec fn vector_process_view(cfg: GraphConfig, data: Seq<Seq<i64>>) -> Seq<DataSetView> {
    vector_sets_upto(cfg, data, cfg.samples as int, (data.len() + 1) as int / 2)
}

/// The vectorscope's axis descriptor: both axes span the symmetric
/// amplitude range `[-scale, scale]`.
pub open spec fn vector_axis(cfg: GraphConfig, dimension: Dimension) -> AxisSpec {
    AxisSpec {
        label: if cfg.show_ui {
            Some(
                match dimension {
                    Dimension::X => AxisLabel::LeftChannel,
                    Dimension::Y => AxisLabel::RightChannel,
                },
            )
        } else {
            None
        },
        bounds: ((-cfg.scale) as i64, cfg.scale),
    }
}

/// For a full stereo pair whose channels fit into the visible window,
/// the point-pair count equals the shorter channel's length, and the
/// split halves differ in size by at most one.
pub proof fn lemma_pair_split(a: Seq<i64>, b: Seq<i64>, limit: int)
    requires
        a.len() <= limit || b.len() <= limit,
    ensures
        pair_points(a, b, limit).len() == if a.len() <= b.len() {
            a.len()
        } else {
            b.len()
        },
        ({
            let pts = pair_points(a, b, limit);
            let pivot = pts.len() as int / 2;
            let older = pts.take(pivot);
            let newer = pts.skip(pivot);
            &&& older.len() + newer.len() == pts.len()
            &&& older.len() <= newer.len()
            &&& newer.len() - older.len() <= 1
        }),
{
    let pts = pair_points(a, b, limit);
    let len = pts.len() as int;
    let pivot = len / 2;
    vstd::arithmetic::div_mod::lemma_fundamental_div_mod(len, 2);
    vstd::arithmetic::div_mod::lemma_mod_bound(len, 2);
    assert(0 <= pivot <= len);
}

impl Vectorscope {
    pub fn from_args(_opts: &SourceOptions) -> (r: Self)
        ensures
            r == (Vectorscope {  }),
    {
        Vectorscope {  }
    }

    pub fn mode_str(&self) -> (r: &'static str)
        ensures
            r@ == "vector"@,
    {
        "vector"
    }

    /// The vectorscope reacts to no mode-private keys.
    pub fn handle(&mut self, _event: KeyEvent)
        ensures
            *final(self) == *old(self),
    {
    }

    /// Pure axis descriptor: both axes span the symmetric amplitude
    /// range `[-scale, scale]`.
    pub fn axis(&self, cfg: &GraphConfig, dimension: Dimension) -> (a: AxisSpec)
        requires
            cfg.wf(),
        ensures
            a == vector_axis(*cfg, dimension),
            a.bounds.0 == -cfg.scale && a.bounds.1 == cfg.scale,
    {
        let label = match dimension {
            Dimension::X => AxisLabel::LeftChannel,
            Dimension::Y => AxisLabel::RightChannel,
        };
        AxisSpec {
            label: if cfg.show_ui {
                Some(label)
            } else {
                None
            },
            bounds: (-cfg.scale, cfg.scale),
        }
    }

    /// The centered cross spanning the amplitude range on both axes.
    pub fn references(&self, cfg: &GraphConfig) -> (out: Vec<DataSet>)
        requires
            cfg.wf(),
        ensures
            views(out@) =~~= seq![
                DataSetView {
                    name: None,
                    data: seq![((-cfg.scale) as i64, 0i64), (cfg.scale, 0i64)],
                    marker_type: cfg.marker_type,
                    graph_type: GraphType::Line,
                    color: cfg.axis_color,
                },
                DataSetView {
                    name: None,
                    data: seq![(0i64, (-cfg.scale) as i64), (0i64, cfg.scale)],
                    marker_type: cfg.marker_type,
                    graph_type: GraphType::Line,
                    color: cfg.axis_color,
                },
            ],
    {
        let mut h: Vec<(i64, i64)> = Vec::new();
        h.push((-cfg.scale, 0));
        h.push((cfg.scale, 0));
        let mut v: Vec<(i64, i64)> = Vec::new();
        v.push((0, -cfg.scale));
        v.push((0, cfg.scale));
        let mut out: Vec<DataSet> = Vec::new();
        out.push(DataSet::new(None, h, cfg.marker_type, GraphType::Line, cfg.axis_color));
        out.push(DataSet::new(None, v, cfg.marker_type, GraphType::Line, cfg.axis_color));
        out
    }

    /// The vectorscope shows no mode status.
    pub fn header(&self, _cfg: &GraphConfig) -> (h: HeaderInfo)
        ensures
            h == HeaderInfo::Vectorscope,
    {
        HeaderInfo::Vectorscope
    }

    /// The per-frame transform: channels are consumed in consecutive
    /// pairs, each pair plotted one channel against the other and split
    /// at its midpoint; a leftover single channel is plotted against
    /// its sample index.
    pub fn process(&mut self, cfg: &GraphConfig, data: &Matrix<i64>) -> (out: Vec<DataSet>)
        requires
            forall|c: int|
                0 <= c < data@.len() ==> (#[trigger] data@[c])@.len() <= MAX_FRAME_LEN,
        ensures
            *final(self) == *old(self),
            views(out@) =~~= vector_process_view(*cfg, mat_view(data@)),
    {
        let ghost dv = mat_view(data@);
        let nch = data.len();
        let limit = cfg.samples as usize;
        let mut out: Vec<DataSet> = Vec::new();
        let mut n: usize = 0;
        let nchunks = nch / 2 + nch % 2;
        proof {
            assert(vector_sets_upto(*cfg, dv, limit as int, 0) =~~= Seq::<DataSetView>::empty());
            vstd::arithmetic::div_mod::lemma_fundamental_div_mod(nch as int, 2);
            vstd::arithmetic::div_mod::lemma_mod_bound(nch as int, 2);
            vstd::arithmetic::div_mod::lemma_fundamental_div_mod((nch + 1) as int, 2);
            vstd::arithmetic::div_mod::lemma_mod_bound((nch + 1) as int, 2);
            assert(nchunks as int == (nch + 1) as int / 2);
        }
        while n < nchunks
            invariant
                nch == data@.len(),
                n <= nchunks,
                nchunks as int == (nch + 1) as int / 2,
                2 * (nchunks as int) <= nch + 1,
                dv == mat_view(data@),
                limit == cfg.samples as usize,
                forall|c: int|
                    0 <= c < data@.len() ==> (#[trigger] data@[c])@.len() <= MAX_FRAME_LEN,
                views(out@) == vector_sets_upto(*cfg, dv, limit as int, n as int),
            decreases nchunks - n,
        {
            proof {
                assert(2 * (n as int) < nch);
            }
            let a: &Vec<i64> = &data[2 * n];
            let ghost pts = if 2 * (n as int) + 1 < dv.len() {
                pair_points(dv[2 * (n as int)], dv[2 * (n as int) + 1], limit as int)
            } else {
                single_points(dv[2 * (n as int)], limit as int)
            };
            let mut tmp: Vec<(i64, i64)> = Vec::new();
            if 2 * n + 1 < nch {
                let b: &Vec<i64> = &data[2 * n + 1];
                let m0 = if a.len() <= b.len() {
                    a.len()
                } else {
                    b.len()
                };
                let count = if m0 <= limit {
                    m0
                } else {
                    limit
                };
                let mut i: usize = 0;
                while i < count
                    invariant
                        i <= count,
                        count <= a@.len(),
                        count <= b@.len(),
                        tmp@ =~= pts.take(i as int),
                        pts == pair_points(a@, b@, limit as int),
                        pts.len() == count,
                    decreases count - i,
                {
                    tmp.push((a[i], b[i]));
                    proof {
                        assert(tmp@ =~= pts.take(i + 1int));
                    }
                    i += 1;
                }
            } else {
                let count = if a.len() <= limit {
                    a.len()
                } else {
                    limit
                };
                let mut i: usize = 0;
                while i < count
                    invariant
                        i <= count,
                        count <= a@.len() <= MAX_FRAME_LEN,
                        tmp@ =~= pts.take(i as int),
                        pts == single_points(a@, limit as int),
                        pts.len() == count,
                    decreases count - i,
                {
                    tmp.push((a[i], (i as i64) * 1000));
                    proof {
                        assert(tmp@ =~= pts.take(i + 1int));
                    }
                    i += 1;
                }
            }
            proof {
                assert(pts.take(pts.len() as int) =~= pts);
            }

            // split at the midpoint: the second half holds the newer
            // samples
            let pivot = tmp.len() / 2;
            let newer = tmp.split_off(pivot);
            let ghost out0 = out@;
            let gt = if cfg.scatter {
                GraphType::Scatter
            } else {
                GraphType::Line
            };
            out.push(
                DataSet::new(
                    Some(DatasetLabel::Channel(2 * n + 1)),
                    newer,
                    cfg.marker_type,
                    gt,
                    cfg.palette(2 * n + 1),
                ),
            );
            out.push(
                DataSet::new(
                    Some(DatasetLabel::Channel(2 * n)),
                    tmp,
                    cfg.marker_type,
                    gt,
                    cfg.palette(2 * n),
                ),
            );
            proof {
                let ni = n as int;
                assert(vector_sets_upto(*cfg, dv, limit as int, ni + 1) =~~= vector_sets_upto(
                    *cfg,
                    dv,
                    limit as int,
                    ni,
                ) + vector_pair_sets(*cfg, dv, limit as int, ni));
                assert(views(out@) =~~= views(out0) + vector_pair_sets(*cfg, dv, limit as int, ni));
                assert(views(out@) =~~= vector_sets_upto(*cfg, dv, limit as int, ni + 1));
            }
            n += 1;
        }
        proof {
            assert(views(out@) =~~= vector_process_view(*cfg, dv));
        }
        out
    }
}

} // verus!
