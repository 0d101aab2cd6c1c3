//! The sample-source boundary: the frame container, the de-interleaver
//! that splits an interleaved stream into per-channel rows, and the
//! 16-bit PCM sample parser.

use vstd::prelude::*;

verus! {

/// One frame: one row of samples per audio channel.
pub type Matrix<T> = Vec<Vec<T>>;

/// A blocking "next frame" source. `None` means the source is exhausted
/// or broken; the main loop then terminates.
pub trait DataSource<T> {
    fn recv(&mut self) -> Option<Matrix<T>>;
}

/// A raw sample value `x`, normalized by `norm` and brought to
/// milli-units, with truncation toward zero as in integer division.
pub open spec fn scale_milli(x: int, norm: int) -> int {
    if x >= 0 {
        (x * 1000) / norm
    } else {
        -(((-x) * 1000) / norm)
    }
}

/// How many samples of an interleaved stream of length `n` fall on
/// channel `c` when there are `channels` channels.
pub open spec fn channel_len(n: int, channels: int, c: int) -> int {
    n / channels + if c < n % channels {
        1int
    } else {
        0int
    }
}

/// Converts one raw sample to milli-units of the normalized amplitude.
fn sample_to_milli(x: i64, norm: i64) -> (r: i64)
    requires
        1 <= norm,
        -MAX_RAW_SAMPLE <= x <= MAX_RAW_SAMPLE,
    ensures
        r == scale_milli(x as int, norm as int),
{
    if x >= 0 {
        (((x as u64) * 1000) / (norm as u64)) as i64
    } else {
        let m = (((-x) as u64) * 1000) / (norm as u64);
        -(m as i64)
    }
}

/// Largest raw sample magnitude the de-interleaver accepts; keeps the
/// milli-unit conversion inside 64 bits.
pub const MAX_RAW_SAMPLE: i64 = 1_000_000_000_000;

/// Separates a stream of alternating channels into a matrix of channel
/// rows:
///   L R L R L R
/// becomes
///   L L L
///   R R R
/// Each sample is divided by `norm` and emitted in milli-units.
pub fn stream_to_matrix(stream: &Vec<i64>, channels: usize, norm: i64) -> (out: Matrix<i64>)
    requires
        1 <= channels,
        1 <= norm,
        forall|k: int|
            0 <= k < stream@.len() ==> -MAX_RAW_SAMPLE <= #[trigger] stream@[k] <= MAX_RAW_SAMPLE,
    ensures
        out@.len() == channels,
        forall|c: int|
            0 <= c < channels ==> (#[trigger] out@[c])@.len() == channel_len(
                stream@.len() as int,
                channels as int,
                c,
            ),
        forall|c: int, k: int|
            0 <= c < channels && 0 <= k < out@[c]@.len() ==> #[trigger] out@[c]@[k] == scale_milli(
                stream@[k * channels + c] as int,
                norm as int,
            ),
{
    let mut out: Matrix<i64> = Vec::new();
    let mut c: usize = 0;
    while c < channels
        invariant
            c <= channels,
            out@.len() == c,
            forall|j: int| 0 <= j < c ==> (#[trigger] out@[j])@.len() == 0,
        decreases channels - c,
    {
        out.push(Vec::new());
        c += 1;
    }

    let mut s: usize = 0;
    let mut channel: usize = 0;
    while s < stream.len()
        invariant
            1 <= channels,
            1 <= norm,
            forall|k: int|
                0 <= k < stream@.len() ==> -MAX_RAW_SAMPLE <= #[trigger] stream@[k]
                    <= MAX_RAW_SAMPLE,
            s <= stream@.len(),
            channel == s % channels,
            out@.len() == channels,
            forall|j: int|
                0 <= j < channels ==> (#[trigger] out@[j])@.len() == channel_len(
                    s as int,
                    channels as int,
                    j,
                ),
            forall|j: int, k: int|
                0 <= j < channels && 0 <= k < out@[j]@.len() ==> #[trigger] out@[j]@[k]
                    == scale_milli(stream@[k * channels + j] as int, norm as int),
        decreases stream@.len() - s,
    {
        let v = sample_to_milli(stream[s], norm);
        let ghost old_out = out@;
        let ghost chan_i = channel as int;
        let row = &mut out[channel];
        let ghost prev_len = row@.len();
        proof {
            // The sample being appended sits at index prev_len of its row:
            // row index k of channel j holds stream position k * channels + j.
            assert(prev_len == channel_len(s as int, channels as int, chan_i));
            lemma_channel_len_step(s as int, channels as int, chan_i);
        }
        row.push(v);
        s += 1;
        channel += 1;
        if channel >= channels {
            channel = 0;
        }
        proof {
            assert(out@[chan_i]@ =~= old_out[chan_i]@.push(v));
            assert(forall|j: int| 0 <= j < channels && j != chan_i ==> out@[j] == old_out[j]);
            assert(forall|j: int|
                0 <= j < channels ==> (#[trigger] out@[j])@.len() == channel_len(
                    s as int,
                    channels as int,
                    j,
                ));
        }
    }
    out
}

/// Appending the sample at stream position `s` (which falls on channel
/// `s % channels`) grows exactly that channel's count by one.
proof fn lemma_channel_len_step(s: int, channels: int, c: int)
    requires
        0 <= s,
        1 <= channels,
        c == s % channels,
    ensures
        forall|j: int|
            0 <= j < channels ==> channel_len(s + 1, channels, j) == channel_len(s, channels, j)
                + if j == c {
                1int
            } else {
                0int
            },
        channel_len(s, channels, c) * channels + c == s,
        (s + 1) % channels == if c + 1 < channels {
            c + 1
        } else {
            0int
        },
{
    let q = s / channels;
    let r = s % channels;
    vstd::arithmetic::div_mod::lemma_fundamental_div_mod(s, channels);
    vstd::arithmetic::div_mod::lemma_fundamental_div_mod(s + 1, channels);
    assert(s == q * channels + r);
    if r + 1 < channels {
        vstd::arithmetic::div_mod::lemma_fundamental_div_mod_converse(s + 1, channels, q, r + 1);
    } else {
        assert(s + 1 == (q + 1) * channels + 0) by (nonlinear_arith)
            requires
                s == q * channels + r,
                r + 1 == channels,
        ;
        vstd::arithmetic::div_mod::lemma_fundamental_div_mod_converse(s + 1, channels, q + 1, 0);
    }
}

/// Parses one little-endian signed 16-bit PCM sample.
pub struct Signed16PCM;

impl Signed16PCM {
    /// The raw value of two little-endian bytes read as an `i16`.
    pub open spec fn spec_parse(lo: u8, hi: u8) -> int {
        (lo + hi * 256) as u16 as i16 as int
    }

    /// Reads bytes `chunk[0]` (low) and `chunk[1]` (high) as one signed
    /// 16-bit sample.
    pub fn parse(chunk: &[u8]) -> (r: i64)
        requires
            chunk@.len() >= 2,
        ensures
            r == Self::spec_parse(chunk@[0], chunk@[1]),
            -32768 <= r <= 32767,
    {
        let lo = chunk[0] as u16;
        let hi = chunk[1] as u16;
        let bits: u16 = lo | (hi << 8u16);
        proof {
            assert(lo | ((hi as u16) << 8u16) == ((lo + hi * 256) as u16)) by (bit_vector)
                requires
                    lo < 256,
                    hi < 256,
            ;
        }
        (bits as i16) as i64
    }
}

} // verus!
