//! Spectroscope mode: per-channel frame history with FIFO eviction,
//! FFT input assembly with averaging, the normalization divisor, and
//! the spectrum dataset layout. The transform itself (windowing in
//! floating point, the FFT, magnitudes) runs outside the library on
//! the inputs prepared here; the resulting per-bin magnitudes come
//! back in milli-units.

use std::collections::VecDeque;

use vstd::prelude::*;

use crate::app::{update_value_i, KeyCode, KeyEvent};
use crate::cfg::SourceOptions;
use crate::display::{
    channel_label, lr_channel_name, mat_view, spec_palette, views, AxisLabel, AxisSpec, DataSet,
    DataSetView, Dimension, GraphConfig, GraphType, HeaderInfo, MILLI_ONE,
};
use crate::input::Matrix;

verus! {

/// One channel's FFT workload: the concatenated history frames, oldest
/// first, and whether a Hann window should be applied before the
/// transform.
pub struct SpectrumRequest {
    pub input: Vec<i64>,
    pub apply_window: bool,
}

/// Spectroscope-private state.
pub struct Spectroscope {
    pub sampling_rate: u32,
    pub buffer_size: u32,
    /// How many frames are concatenated before one FFT. Clamped to at
    /// least 1 on use.
    pub average: u32,
    /// Per-channel bounded history of raw frames, oldest first;
    /// capacity `average`, FIFO eviction.
    pub buf: Vec<VecDeque<Vec<i64>>>,
    pub window: bool,
    pub log_y: bool,
}

/// The mathematical model of one channel's history queue.
pub open spec fn queue_view(q: Seq<Vec<i64>>) -> Seq<Seq<i64>> {
    mat_view(q)
}

/// The models of all history queues.
pub open spec fn buf_views(buf: Seq<VecDeque<Vec<i64>>>) -> Seq<Seq<Seq<i64>>> {
    buf.map_values(|q: VecDeque<Vec<i64>>| queue_view(q@))
}

/// A frame appended to a bounded queue: the oldest frames are evicted
/// from the front until at most `cap` remain.
pub open spec fn fifo_push(q: Seq<Seq<i64>>, frame: Seq<i64>, cap: int) -> Seq<Seq<i64>> {
    let q2 = q.push(frame);
    if q2.len() > cap {
        q2.skip((q2.len() - cap) as int)
    } else {
        q2
    }
}

/// All history queues after one frame arrives: every channel of the
/// frame is appended to its queue (new channels get fresh queues),
/// unless the intake is paused.
pub open spec fn buffers_after(
    old_buf: Seq<Seq<Seq<i64>>>,
    frames: Seq<Seq<i64>>,
    pause: bool,
    cap: int,
) -> Seq<Seq<Seq<i64>>> {
    if pause {
        old_buf
    } else {
        Seq::new(
            if old_buf.len() >= frames.len() {
                old_buf.len()
            } else {
                frames.len()
            },
            |c: int|
                if c < frames.len() {
                    fifo_push(
                        if c < old_buf.len() {
                            old_buf[c]
                        } else {
                            Seq::empty()
                        },
                        frames[c],
                        cap,
                    )
                } else {
                    old_buf[c]
                },
        )
    }
}

/// With a full history of `k` frames of `flen` samples each, the
/// concatenated FFT input holds exactly `k * flen` samples; so for an
/// averaging count of 1 the FFT input is exactly one frame, and for a
/// count of `k` it is `k` frames.
pub proof fn lemma_spectrum_input_len(frames: Seq<Seq<i64>>, flen: int)
    requires
        0 <= flen,
        forall|i: int| 0 <= i < frames.len() ==> (#[trigger] frames[i]).len() == flen,
    ensures
        frames.flatten().len() == frames.len() * flen,
    decreases frames.len(),
{
    if frames.len() == 0 {
        assert(frames.flatten() =~= Seq::empty());
    } else {
        let head = frames.drop_last();
        lemma_spectrum_input_len(head, flen);
        assert(frames =~= head.push(frames.last()));
        head.lemma_flatten_push(frames.last());
        assert((frames.len() - 1) * flen + flen == frames.len() * flen) by (nonlinear_arith);
    }
}

/// A strictly larger averaging count gives a strictly longer FFT
/// input, frame length being equal and positive.
pub proof fn lemma_fft_len_strictly_increases(k1: int, k2: int, flen: int)
    requires
        0 <= k1 < k2,
        1 <= flen,
    ensures
        k1 * flen < k2 * flen,
{
    assert(k1 * flen < k2 * flen) by (nonlinear_arith)
        requires
            0 <= k1 < k2,
            1 <= flen,
    ;
}

/// Largest absolute sample value of the sequence, floored at one
/// (1000 in milli-units).
pub open spec fn max_abs_or_one(s: Seq<i64>) -> int
    decreases s.len(),
{
    if s.len() == 0 {
        1000
    } else {
        let m = max_abs_or_one(s.drop_last());
        let a = if s.last() < 0 {
            -(s.last() as int)
        } else {
            s.last() as int
        };
        if a > m {
            a
        } else {
            m
        }
    }
}

/// The spectral normalization divisor: the largest absolute sample
/// value, never smaller than one (1000 in milli-units), so an
/// all-silent buffer is never amplified and no division by zero can
/// occur.
pub fn normalization_divisor(input: &Vec<i64>) -> (d: i64)
    requires
        forall|k: int|
            0 <= k < input@.len() ==> -crate::display::MAX_SAMPLE_MILLI <= #[trigger] input@[k]
                <= crate::display::MAX_SAMPLE_MILLI,
    ensures
        d == max_abs_or_one(input@),
        d >= MILLI_ONE,
{
    let mut m: i64 = 1000;
    let mut i: usize = 0;
    while i < input.len()
        invariant
            i <= input@.len(),
            forall|k: int|
                0 <= k < input@.len() ==> -crate::display::MAX_SAMPLE_MILLI <= #[trigger] input@[k]
                    <= crate::display::MAX_SAMPLE_MILLI,
            m == max_abs_or_one(input@.take(i as int)),
            m >= 1000,
        decreases input@.len() - i,
    {
        let ghost pre = input@.take(i as int);
        proof {
            assert(input@.take(i + 1int).drop_last() =~= pre);
            assert(input@.take(i + 1int).last() == input@[i as int]);
        }
        let x = input[i];
        let a: i64 = if x < 0 {
            -x
        } else {
            x
        };
        if a > m {
            m = a;
        }
        i += 1;
    }
    proof {
        assert(input@.take(input@.len() as int) =~= input@);
    }
    m
}

/// Frequency of spectrum bin `i` in milli-hertz, for a transform of
/// `n` samples at the given sample rate.
pub open spec fn bin_freq_milli(i: int, rate: int, n: int) -> int {
    (i * rate * 1000) / n
}

/// The points of one channel's spectrum: magnitudes of bins 1 and up,
/// each at its frequency. Bin 0 (zero frequency) is excluded, since it
/// has no place on a logarithmic frequency axis.
pub open spec fn spectrum_points(mags: Seq<i64>, rate: int, n: int) -> Seq<(i64, i64)> {
    Seq::new(
        if mags.len() >= 1 {
            (mags.len() - 1) as nat
        } else {
            0
        },
        |k: int| ((bin_freq_milli(k + 1, rate, n) as i64), mags[k + 1]),
    )
}

/// One channel's spectrum trace.
pub open spec fn spectrum_channel_view(
    cfg: GraphConfig,
    rate: int,
    n: int,
    chan_index: int,
    mags: Seq<i64>,
) -> DataSetView {
    DataSetView {
        name: Some(channel_label(chan_index)),
        data: spectrum_points(mags, rate, n),
        marker_type: cfg.marker_type,
        graph_type: if cfg.scatter {
            GraphType::Scatter
        } else {
            GraphType::Line
        },
        color: spec_palette(cfg.palette@, chan_index),
    }
}

/// The spectrum datasets of the first `k` magnitude lists; list `j`
/// belongs to channel `len - 1 - j` (the lists arrive in reverse
/// channel order).
pub open spec fn spectrum_sets_upto(
    cfg: GraphConfig,
    rate: int,
    n: int,
    mags: Seq<Seq<i64>>,
    k: int,
) -> Seq<DataSetView>
    decreases k,
{
    if k <= 0 {
        Seq::empty()
    } else {
        spectrum_sets_upto(cfg, rate, n, mags, k - 1) + seq![
            spectrum_channel_view(cfg, rate, n, mags.len() - k, mags[k - 1]),
        ]
    }
}

/// The fixed guide frequencies, in hertz: 20 Hz through 20 kHz, denser
/// below 1 kHz.
pub open spec fn guide_freqs() -> Seq<int> {
    seq![
        20,
        30,
        40,
        50,
        60,
        70,
        80,
        90,
        100,
        200,
        300,
        400,
        500,
        600,
        700,
        800,
        900,
        1000,
        2000,
        3000,
        4000,
        5000,
        6000,
        7000,
        8000,
        9000,
        10000,
        20000,
    ]
}

/// A vertical guide line at frequency `f` hertz, spanning from zero up
/// to the scale-dependent top of the chart.
pub open spec fn guide_line_view(cfg: GraphConfig, f: int) -> DataSetView {
    DataSetView {
        name: None,
        data: seq![
            ((f * 1000) as i64, 0i64),
            ((f * 1000) as i64, ((cfg.scale * 15) / 2) as i64),
        ],
        marker_type: cfg.marker_type,
        graph_type: GraphType::Line,
        color: cfg.axis_color,
    }
}

/// The spectroscope's axis descriptor: a linear milli-hertz frequency
/// span along X (the renderer draws it logarithmically), the
/// scale-dependent level range along Y.
pub open spec fn spectro_axis(log_y: bool, cfg: GraphConfig, dimension: Dimension) -> AxisSpec {
    AxisSpec {
        label: if cfg.show_ui {
            Some(
                match dimension {
                    Dimension::X => AxisLabel::Frequency,
                    Dimension::Y => if log_y {
                        AxisLabel::Level
                    } else {
                        AxisLabel::Amplitude
                    },
                },
            )
        } else {
            None
        },
        bounds: match dimension {
            Dimension::X => (
                20_000i64,
                ((cfg.samples as int) * 20_000_000 / (cfg.width as int)) as i64,
            ),
            Dimension::Y => (0i64, ((cfg.scale * 15) / 2) as i64),
        },
    }
}

/// The spectroscope state after one key event: PageUp and PageDown
/// nudge the averaging count within `[1, 65535]`; `w` toggles the Hann
/// window; `l` toggles the logarithmic magnitude axis. The history
/// queues are untouched.
pub open spec fn spectro_after_event(s: Spectroscope, event: KeyEvent) -> Spectroscope {
    Spectroscope {
        average: (match event.code {
            KeyCode::PageUp => crate::app::spec_update_value_i(s.average as int, true, 1, 1, 1, 1, 65535),
            KeyCode::PageDown => crate::app::spec_update_value_i(s.average as int, false, 1, 1, 1, 1, 65535),
            _ => s.average as int,
        }) as u32,
        window: if event.code == KeyCode::Char('w') {
            !s.window
        } else {
            s.window
        },
        log_y: if event.code == KeyCode::Char('l') {
            !s.log_y
        } else {
            s.log_y
        },
        ..s
    }
}

impl Spectroscope {
    pub fn from_args(opts: &SourceOptions) -> (r: Self)
        ensures
            r.sampling_rate == opts.sample_rate,
            r.buffer_size == opts.buffer,
            r.average == 1,
            r.buf@.len() == 0,
            r.window == false,
            r.log_y == true,
    {
        Spectroscope {
            sampling_rate: opts.sample_rate,
            buffer_size: opts.buffer,
            average: 1,
            buf: Vec::new(),
            window: false,
            log_y: true,
        }
    }

    pub fn mode_str(&self) -> (r: &'static str)
        ensures
            r@ == "spectro"@,
    {
        "spectro"
    }

    /// Routes one key event to the spectroscope-private state.
    pub fn handle(&mut self, event: KeyEvent)
        ensures
            *final(self) == spectro_after_event(*old(self), event),
    {
        match event.code {
            KeyCode::PageUp => update_value_i(&mut self.average, true, 1, 1, 1, 1, 65535),
            KeyCode::PageDown => update_value_i(&mut self.average, false, 1, 1, 1, 1, 65535),
            KeyCode::Char('w') => self.window = !self.window,
            KeyCode::Char('l') => self.log_y = !self.log_y,
            _ => {},
        }
    }

    /// Pure axis descriptor: a frequency span along X (drawn
    /// logarithmically by the renderer), the scale-dependent level
    /// range along Y. Bounds are linear milli-units; the renderer
    /// applies the logarithm.
    pub fn axis(&self, cfg: &GraphConfig, dimension: Dimension) -> (a: AxisSpec)
        requires
            cfg.wf(),
        ensures
            a == spectro_axis(self.log_y, *cfg, dimension),
    {
        let (label, bounds) = match dimension {
            Dimension::X => {
                let hi = ((cfg.samples as u64) * 20_000_000) / (cfg.width as u64);
                proof {
                    vstd::arithmetic::div_mod::lemma_div_nonincreasing(
                        (cfg.samples as u64 * 20_000_000) as int,
                        cfg.width as int,
                    );
                    vstd::arithmetic::div_mod::lemma_div_pos_is_pos(
                        (cfg.samples as u64 * 20_000_000) as int,
                        cfg.width as int,
                    );
                }
                (AxisLabel::Frequency, (20_000i64, hi as i64))
            },
            Dimension::Y => (
                if self.log_y {
                    AxisLabel::Level
                } else {
                    AxisLabel::Amplitude
                },
                (0i64, (cfg.scale * 15) / 2),
            ),
        };
        AxisSpec { label: if cfg.show_ui { Some(label) } else { None }, bounds }
    }

    /// The averaging and windowing status shown in the header line.
    pub fn header(&self, _cfg: &GraphConfig) -> (h: HeaderInfo)
        ensures
            h == (HeaderInfo::Spectroscope {
                average: self.average,
                window: self.window,
                sampling_rate: self.sampling_rate,
                buffer_size: self.buffer_size,
            }),
    {
        HeaderInfo::Spectroscope {
            average: self.average,
            window: self.window,
            sampling_rate: self.sampling_rate,
            buffer_size: self.buffer_size,
        }
    }

    /// The intake half of the per-frame transform: unless paused,
    /// appends every channel of the frame to that channel's bounded
    /// history queue (FIFO, capacity `average`), then hands back one
    /// FFT workload per channel, in reverse channel order, each the
    /// concatenation of the queued frames, oldest first.
    pub fn process(&mut self, cfg: &GraphConfig, data: &Matrix<i64>) -> (reqs: Vec<SpectrumRequest>)
        ensures
            final(self).average == if old(self).average == 0 {
                1u32
            } else {
                old(self).average
            },
            final(self).sampling_rate == old(self).sampling_rate,
            final(self).buffer_size == old(self).buffer_size,
            final(self).window == old(self).window,
            final(self).log_y == old(self).log_y,
            buf_views(final(self).buf@) == buffers_after(
                buf_views(old(self).buf@),
                mat_view(data@),
                cfg.pause,
                final(self).average as int,
            ),
            reqs@.len() == final(self).buf@.len(),
            forall|k: int|
                0 <= k < reqs@.len() ==> (#[trigger] reqs@[k]).apply_window == old(self).window,
            forall|k: int|
                0 <= k < reqs@.len() ==> (#[trigger] reqs@[k]).input@ == buf_views(
                    final(self).buf@,
                )[final(self).buf@.len() - 1 - k].flatten(),
    {
        if self.average == 0 {
            self.average = 1;
        }
        let ghost ob = buf_views(self.buf@);
        let ghost fv = mat_view(data@);
        let ghost cap = self.average as int;
        let ghost osr = self.sampling_rate;
        let ghost obs = self.buffer_size;
        let ghost ow = self.window;
        let ghost oly = self.log_y;
        let ghost oavg = self.average;

        if !cfg.pause {
            let cap_u = self.average as usize;
            let mut i: usize = 0;
            while i < data.len()
                invariant
                    i <= data@.len(),
                    fv == mat_view(data@),
                    cap_u == cap,
                    cap >= 1,
                    self.average == oavg,
                    self.sampling_rate == osr,
                    self.buffer_size == obs,
                    self.window == ow,
                    self.log_y == oly,
                    buf_views(self.buf@).len() == if ob.len() >= i {
                        ob.len() as int
                    } else {
                        i as int
                    },
                    forall|c: int|
                        i <= c < ob.len() ==> buf_views(self.buf@)[c] == ob[c],
                    forall|c: int|
                        0 <= c < i ==> buf_views(self.buf@)[c] == fifo_push(
                            if c < ob.len() {
                                ob[c]
                            } else {
                                Seq::empty()
                            },
                            fv[c],
                            cap,
                        ),
                decreases data@.len() - i,
            {
                let ghost before = buf_views(self.buf@);
                if self.buf.len() <= i {
                    self.buf.push(VecDeque::new());
                    proof {
                        assert(buf_views(self.buf@) =~~= before.push(Seq::empty()));
                    }
                }
                let frame: Vec<i64> = data[i].clone();
                proof {
                    assert(frame@ =~= fv[i as int]);
                }
                let ghost mid = buf_views(self.buf@);
                let q = &mut self.buf[i];
                let ghost q0v = queue_view(q@);
                q.push_back(frame);
                let ghost fullv = q@;
                proof {
                    assert(queue_view(fullv) =~~= q0v.push(fv[i as int]));
                }
                while q.len() > cap_u
                    invariant
                        cap_u >= 1,
                        q@.len() <= fullv.len(),
                        q@ == fullv.skip((fullv.len() - q@.len()) as int),
                        q@.len() >= cap_u || q@.len() == fullv.len(),
                    decreases q@.len(),
                {
                    proof {
                        assert(fullv.skip((fullv.len() - q@.len()) as int).skip(1) =~= fullv.skip(
                            (fullv.len() - (q@.len() - 1)) as int,
                        ));
                    }
                    q.pop_front();
                }
                proof {
                    // the queue now holds the FIFO result for channel i
                    let target = fifo_push(q0v, fv[i as int], cap);
                    assert(queue_view(q@) =~~= target);
                    assert(buf_views(self.buf@) =~~= mid.update(i as int, queue_view(q@)));
                    assert(buf_views(self.buf@)[i as int] == target);
                }
                i += 1;
            }
            proof {
                assert(buf_views(self.buf@) =~~= buffers_after(ob, fv, cfg.pause, cap));
            }
        } else {
            proof {
                assert(buf_views(self.buf@) =~~= buffers_after(ob, fv, cfg.pause, cap));
            }
        }

        // hand out the FFT workloads, reverse channel order
        let ghost bv = buf_views(self.buf@);
        let mut reqs: Vec<SpectrumRequest> = Vec::new();
        let mut c: usize = self.buf.len();
        while c > 0
            invariant
                c <= self.buf@.len(),
                bv == buf_views(self.buf@),
                self.window == ow,
                reqs@.len() == self.buf@.len() - c,
                forall|k: int|
                    0 <= k < reqs@.len() ==> (#[trigger] reqs@[k]).apply_window == ow,
                forall|k: int|
                    0 <= k < reqs@.len() ==> (#[trigger] reqs@[k]).input@ == bv[bv.len() - 1
                        - k].flatten(),
            decreases c,
        {
            c -= 1;
            let q: &VecDeque<Vec<i64>> = &self.buf[c];
            let mut chunk: Vec<i64> = Vec::new();
            let mut f: usize = 0;
            while f < q.len()
                invariant
                    f <= q@.len(),
                    chunk@ == queue_view(q@).take(f as int).flatten(),
                decreases q@.len() - f,
            {
                let frame: &Vec<i64> = &q[f];
                let ghost base = chunk@;
                let mut e: usize = 0;
                while e < frame.len()
                    invariant
                        e <= frame@.len(),
                        chunk@ == base + frame@.take(e as int),
                    decreases frame@.len() - e,
                {
                    proof {
                        assert((base + frame@.take(e as int)).push(frame@[e as int]) =~= base
                            + frame@.take(e + 1int));
                    }
                    chunk.push(frame[e]);
                    e += 1;
                }
                proof {
                    let qv = queue_view(q@);
                    assert(frame@.take(frame@.len() as int) =~= frame@);
                    assert(qv.take(f + 1int) =~= qv.take(f as int).push(qv[f as int]));
                    qv.take(f as int).lemma_flatten_push(qv[f as int]);
                    assert(frame@ == qv[f as int]);
                    assert(chunk@ == qv.take(f + 1int).flatten());
                }
                f += 1;
            }
            proof {
                let qv = queue_view(q@);
                assert(qv.take(qv.len() as int) =~= qv);
                assert(chunk@ == bv[c as int].flatten());
            }
            reqs.push(SpectrumRequest { input: chunk, apply_window: self.window });
        }
        reqs
    }

    /// The output half of the per-frame transform: turns the per-bin
    /// magnitudes (milli-units, bins 0 through half the transform
    /// length, in the same reverse channel order `process` used) into
    /// one dataset per channel. Bin 0 is dropped; bin `i` plots at
    /// frequency `i * sampling_rate / (buffer_size * average)`.
    pub fn spectrum_datasets(&self, cfg: &GraphConfig, mags: &Vec<Vec<i64>>) -> (out: Vec<DataSet>)
        requires
            1 <= self.buffer_size as int * self.average as int,
            forall|k: int|
                0 <= k < mags@.len() ==> (#[trigger] mags@[k])@.len() <= self.buffer_size as int
                    * self.average as int + 1,
        ensures
            views(out@) =~~= spectrum_sets_upto(
                *cfg,
                self.sampling_rate as int,
                self.buffer_size as int * self.average as int,
                mat_view(mags@),
                mags@.len() as int,
            ),
    {
        let ghost mv = mat_view(mags@);
        proof {
            assert((self.buffer_size as u64) * (self.average as u64) < 0x1_0000_0000_0000_0000)
                by (nonlinear_arith)
                requires
                    self.buffer_size < 0x1_0000_0000,
                    self.average < 0x1_0000_0000,
            ;
        }
        let n64: u64 = (self.buffer_size as u64) * (self.average as u64);
        let ghost n = self.buffer_size as int * self.average as int;
        let ghost rate = self.sampling_rate as int;
        let mut out: Vec<DataSet> = Vec::new();
        let mut k: usize = 0;
        proof {
            assert(spectrum_sets_upto(*cfg, rate, n, mv, 0) =~~= Seq::<DataSetView>::empty());
        }
        while k < mags.len()
            invariant
                k <= mags@.len(),
                mv == mat_view(mags@),
                n == self.buffer_size as int * self.average as int,
                n64 == n,
                1 <= n,
                rate == self.sampling_rate as int,
                forall|j: int|
                    0 <= j < mags@.len() ==> (#[trigger] mags@[j])@.len() <= n + 1,
                views(out@) == spectrum_sets_upto(*cfg, rate, n, mv, k as int),
            decreases mags@.len() - k,
        {
            let m: &Vec<i64> = &mags[k];
            let chan_index = mags.len() - 1 - k;
            let mut pts: Vec<(i64, i64)> = Vec::new();
            let ghost target = spectrum_points(m@, rate, n);
            if m.len() >= 1 {
                let mut b: usize = 1;
                while b < m.len()
                    invariant
                        1 <= b <= m@.len(),
                        m@.len() <= n + 1,
                        1 <= n,
                        n64 == n,
                        rate == self.sampling_rate as int,
                        target == spectrum_points(m@, rate, n),
                        pts@ =~= target.take(b - 1),
                    decreases m@.len() - b,
                {
                    proof {
                        assert(b as int * (self.sampling_rate as int) * 1000 <= n * (rate * 1000))
                            by (nonlinear_arith)
                            requires
                                0 <= b as int <= n,
                                rate == self.sampling_rate as int,
                                0 <= rate,
                        ;
                        assert(n * (rate * 1000) <= 0xffff_ffff_ffff_ffff * (0xffff_ffff * 1000int))
                            by (nonlinear_arith)
                            requires
                                0 <= n <= 0xffff_ffff_ffff_ffff,
                                0 <= rate <= 0xffff_ffff,
                        ;
                    }
                    let freq: u128 = ((b as u128) * (self.sampling_rate as u128) * 1000) / (
                    n64 as u128);
                    proof {
                        assert(b as int * rate * 1000 == b as int * (rate * 1000))
                            by (nonlinear_arith);
                        assert(n * rate * 1000 == n * (rate * 1000)) by (nonlinear_arith);
                        vstd::arithmetic::div_mod::lemma_div_is_ordered(
                            b as int * rate * 1000,
                            n * (rate * 1000),
                            n,
                        );
                        vstd::arithmetic::div_mod::lemma_div_multiples_vanish(rate * 1000, n);
                        vstd::arithmetic::div_mod::lemma_div_pos_is_pos(b as int * rate * 1000, n);
                    }
                    pts.push((freq as i64, m[b]));
                    proof {
                        assert(pts@ =~= target.take(b as int));
                    }
                    b += 1;
                }
            }
            proof {
                assert(pts@ =~= target);
            }
            let ghost out0 = out@;
            out.push(
                DataSet::new(
                    Some(lr_channel_name(chan_index)),
                    pts,
                    cfg.marker_type,
                    if cfg.scatter {
                        GraphType::Scatter
                    } else {
                        GraphType::Line
                    },
                    cfg.palette(chan_index),
                ),
            );
            proof {
                let ki = k as int;
                assert(spectrum_sets_upto(*cfg, rate, n, mv, ki + 1) =~~= spectrum_sets_upto(
                    *cfg,
                    rate,
                    n,
                    mv,
                    ki,
                ) + seq![spectrum_channel_view(*cfg, rate, n, mv.len() - (ki + 1), mv[ki])]);
                assert(out@[out@.len() - 1]@ =~~= spectrum_channel_view(
                    *cfg,
                    rate,
                    n,
                    mv.len() - (ki + 1),
                    mv[ki],
                ));
                assert(views(out@) =~~= views(out0) + seq![
                    spectrum_channel_view(*cfg, rate, n, mv.len() - (ki + 1), mv[ki]),
                ]);
                assert(views(out@) =~~= spectrum_sets_upto(*cfg, rate, n, mv, ki + 1));
            }
            k += 1;
        }
        out
    }

    /// The guide geometry: a baseline across the window and vertical
    /// lines at fixed musically meaningful frequencies, 20 Hz through
    /// 20 kHz. Coordinates are linear milli-hertz; the renderer draws
    /// the frequency axis logarithmically.
    pub fn references(&self, cfg: &GraphConfig) -> (out: Vec<DataSet>)
        requires
            cfg.wf(),
        ensures
            views(out@) =~~= seq![
                DataSetView {
                    name: None,
                    data: seq![(1000i64, 0i64), ((cfg.samples * 1000) as i64, 0i64)],
                    marker_type: cfg.marker_type,
                    graph_type: GraphType::Line,
                    color: cfg.axis_color,
                },
            ] + Seq::new(guide_freqs().len(), |j: int| guide_line_view(*cfg, guide_freqs()[j])),
    {
        let mut out: Vec<DataSet> = Vec::new();
        let mut base: Vec<(i64, i64)> = Vec::new();
        base.push((1000, 0));
        base.push(((cfg.samples as i64) * 1000, 0));
        out.push(DataSet::new(None, base, cfg.marker_type, GraphType::Line, cfg.axis_color));

        let freqs: Vec<i32> = vec![
            20,
            30,
            40,
            50,
            60,
            70,
            80,
            90,
            100,
            200,
            300,
            400,
            500,
            600,
            700,
            800,
            900,
            1000,
            2000,
            3000,
            4000,
            5000,
            6000,
            7000,
            8000,
            9000,
            10000,
            20000,
        ];
        proof {
            assert(freqs@.map_values(|f: i32| f as int) =~= guide_freqs());
        }
        let upper: i64 = (cfg.scale * 15) / 2;
        let mut j: usize = 0;
        while j < freqs.len()
            invariant
                j <= freqs@.len(),
                freqs@.map_values(|f: i32| f as int) == guide_freqs(),
                0 <= cfg.scale <= 10_000,
                upper == (cfg.scale * 15) / 2,
                views(out@) =~~= seq![
                    DataSetView {
                        name: None,
                        data: seq![(1000i64, 0i64), ((cfg.samples * 1000) as i64, 0i64)],
                        marker_type: cfg.marker_type,
                        graph_type: GraphType::Line,
                        color: cfg.axis_color,
                    },
                ] + Seq::new(j as nat, |t: int| guide_line_view(*cfg, guide_freqs()[t])),
            decreases freqs@.len() - j,
        {
            let f = freqs[j];
            proof {
                assert(guide_freqs()[j as int] == f as int);
            }
            let mut pts: Vec<(i64, i64)> = Vec::new();
            pts.push(((f as i64) * 1000, 0));
            pts.push(((f as i64) * 1000, upper));
            let ghost out0 = out@;
            out.push(DataSet::new(None, pts, cfg.marker_type, GraphType::Line, cfg.axis_color));
            proof {
                assert(out@[out@.len() - 1]@ =~~= guide_line_view(*cfg, guide_freqs()[j as int]));
                assert(views(out@) =~~= views(out0) + seq![
                    guide_line_view(*cfg, guide_freqs()[j as int]),
                ]);
                assert(Seq::new((j + 1) as nat, |t: int| guide_line_view(*cfg, guide_freqs()[t]))
                    =~~= Seq::new(j as nat, |t: int| guide_line_view(*cfg, guide_freqs()[t]))
                    + seq![guide_line_view(*cfg, guide_freqs()[j as int])]);
            }
            j += 1;
        }
        out
    }
}

} // verus!
