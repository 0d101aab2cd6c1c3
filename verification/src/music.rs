//! Musical notes: parsing a note name such as `A4` or `C#2`, and tuning
//! a buffer size so that one buffer holds a whole number of periods of
//! the note.

use vstd::prelude::*;

verus! {

#[derive(Clone, Copy, PartialEq, Eq, Structural, Debug)]
pub enum Tone {
    C,
    Db,
    D,
    Eb,
    E,
    F,
    Gb,
    G,
    Ab,
    A,
    Bb,
    B,
}

/// The error of an unrecognized tone name.
#[derive(Clone, Copy, PartialEq, Eq, Structural, Debug)]
pub struct ToneError;

#[derive(Clone, Copy, PartialEq, Eq, Structural, Debug)]
pub struct Note {
    pub tone: Tone,
    pub octave: u32,
}

#[derive(Clone, Copy, PartialEq, Eq, Structural, Debug)]
pub enum NoteError {
    InvalidOctave,
    InalidNote(ToneError),
}

pub open spec fn is_space_char(c: char) -> bool {
    c == ' ' || c == '\t' || c == '\n' || c == '\r'
}

pub open spec fn is_digit_char(c: char) -> bool {
    48 <= c as u32 <= 57
}

/// Index of the first non-whitespace character, or the length if there
/// is none.
pub open spec fn trim_start_idx(s: Seq<char>) -> int
    decreases s.len(),
{
    if s.len() == 0 || !is_space_char(s[0]) {
        0
    } else {
        1 + trim_start_idx(s.drop_first())
    }
}

/// One past the index of the last non-whitespace character, or zero if
/// there is none.
pub open spec fn trim_end_idx(s: Seq<char>) -> int
    decreases s.len(),
{
    if s.len() == 0 {
        0
    } else if !is_space_char(s.last()) {
        s.len() as int
    } else {
        trim_end_idx(s.drop_last())
    }
}

/// The sequence with leading and trailing whitespace removed.
pub open spec fn spec_trim(s: Seq<char>) -> Seq<char> {
    if trim_start_idx(s) < trim_end_idx(s) {
        s.subrange(trim_start_idx(s), trim_end_idx(s))
    } else {
        Seq::empty()
    }
}

/// Index of the first ascii digit, or the length if there is none: the
/// split between the tone name and the octave number.
pub open spec fn digit_split(s: Seq<char>) -> int
    decreases s.len(),
{
    if s.len() == 0 || is_digit_char(s[0]) {
        0
    } else {
        1 + digit_split(s.drop_first())
    }
}

/// The numeric value of a digit string, most significant digit first.
pub open spec fn digits_val(s: Seq<char>) -> int
    decreases s.len(),
{
    if s.len() == 0 {
        0
    } else {
        digits_val(s.drop_last()) * 10 + (s.last() as u32 - 48)
    }
}

/// The value of a decimal string if it is non-empty, all digits and
/// fits a `u32`.
pub open spec fn parse_u32(s: Seq<char>) -> Option<u32> {
    if s.len() > 0 && (forall|j: int| 0 <= j < s.len() ==> is_digit_char(#[trigger] s[j]))
        && digits_val(s) <= u32::MAX {
        Some(digits_val(s) as u32)
    } else {
        None
    }
}

/// The octave digits parsed as a number, zero when unparsable.
pub open spec fn octave_of(s: Seq<char>) -> u32 {
    match parse_u32(s) {
        Some(v) => v,
        None => 0,
    }
}

/// The tone named by a (possibly sharp or flat) tone string.
pub open spec fn tone_of(x: Seq<char>) -> Option<Tone> {
    if x.len() == 1 {
        if x[0] == 'C' {
            Some(Tone::C)
        } else if x[0] == 'D' {
            Some(Tone::D)
        } else if x[0] == 'E' {
            Some(Tone::E)
        } else if x[0] == 'F' {
            Some(Tone::F)
        } else if x[0] == 'G' {
            Some(Tone::G)
        } else if x[0] == 'A' {
            Some(Tone::A)
        } else if x[0] == 'B' {
            Some(Tone::B)
        } else {
            None
        }
    } else if x.len() == 2 {
        if x[0] == 'C' && x[1] == '#' {
            Some(Tone::Db)
        } else if x[0] == 'D' && x[1] == 'b' {
            Some(Tone::Db)
        } else if x[0] == 'D' && x[1] == '#' {
            Some(Tone::Eb)
        } else if x[0] == 'E' && x[1] == 'b' {
            Some(Tone::Eb)
        } else if x[0] == 'F' && x[1] == '#' {
            Some(Tone::Gb)
        } else if x[0] == 'G' && x[1] == 'b' {
            Some(Tone::Gb)
        } else if x[0] == 'G' && x[1] == '#' {
            Some(Tone::Ab)
        } else if x[0] == 'A' && x[1] == 'b' {
            Some(Tone::Ab)
        } else if x[0] == 'A' && x[1] == '#' {
            Some(Tone::Bb)
        } else if x[0] == 'B' && x[1] == 'b' {
            Some(Tone::Bb)
        } else {
            None
        }
    } else {
        None
    }
}

/// What parsing a note string yields: the whitespace-trimmed text is
/// split at the first digit; the left part names the tone, the right
/// part the octave (zero when absent or unparsable).
pub open spec fn spec_parse_note(s: Seq<char>) -> Result<Note, NoteError> {
    let t = spec_trim(s);
    let split = digit_split(t);
    match tone_of(t.subrange(0, split)) {
        Some(tone) => Ok(Note { tone, octave: octave_of(t.subrange(split, t.len() as int)) }),
        None => Err(NoteError::InalidNote(ToneError)),
    }
}

proof fn lemma_trim_start(s: Seq<char>, i: int)
    requires
        0 <= i <= s.len(),
        forall|j: int| 0 <= j < i ==> is_space_char(#[trigger] s[j]),
        i < s.len() ==> !is_space_char(s[i]),
    ensures
        trim_start_idx(s) == i,
    decreases s.len(),
{
    if s.len() == 0 {
    } else if !is_space_char(s[0]) {
        assert(i == 0);
    } else {
        assert(i >= 1);
        lemma_trim_start(s.drop_first(), i - 1);
    }
}

proof fn lemma_trim_end(s: Seq<char>, e: int)
    requires
        0 <= e <= s.len(),
        forall|j: int| e <= j < s.len() ==> is_space_char(#[trigger] s[j]),
        e > 0 ==> !is_space_char(s[e - 1]),
    ensures
        trim_end_idx(s) == e,
    decreases s.len(),
{
    if s.len() == 0 {
    } else if !is_space_char(s.last()) {
        assert(e == s.len());
    } else {
        assert(e < s.len());
        lemma_trim_end(s.drop_last(), e);
    }
}

proof fn lemma_trim_end_le_len(s: Seq<char>)
    ensures
        0 <= trim_end_idx(s) <= s.len(),
    decreases s.len(),
{
    if s.len() > 0 && is_space_char(s.last()) {
        lemma_trim_end_le_len(s.drop_last());
    }
}

proof fn lemma_digit_split(s: Seq<char>, i: int)
    requires
        0 <= i <= s.len(),
        forall|j: int| 0 <= j < i ==> !is_digit_char(#[trigger] s[j]),
        i < s.len() ==> is_digit_char(s[i]),
    ensures
        digit_split(s) == i,
    decreases s.len(),
{
    if s.len() == 0 {
    } else if is_digit_char(s[0]) {
        assert(i == 0);
    } else {
        assert(i >= 1);
        lemma_digit_split(s.drop_first(), i - 1);
    }
}

proof fn lemma_digits_val_nonneg(s: Seq<char>)
    requires
        forall|j: int| 0 <= j < s.len() ==> is_digit_char(#[trigger] s[j]),
    ensures
        digits_val(s) >= 0,
    decreases s.len(),
{
    if s.len() > 0 {
        lemma_digits_val_nonneg(s.drop_last());
    }
}

/// A digit string's value only grows as more digits are appended.
proof fn lemma_digits_val_prefix_le(s: Seq<char>, k: int)
    requires
        0 <= k <= s.len(),
        forall|j: int| 0 <= j < s.len() ==> is_digit_char(#[trigger] s[j]),
    ensures
        digits_val(s.subrange(0, k)) <= digits_val(s),
    decreases s.len() - k,
{
    if k == s.len() {
        assert(s.subrange(0, k) =~= s);
    } else {
        let p = s.subrange(0, k + 1);
        assert(p.drop_last() =~= s.subrange(0, k));
        lemma_digits_val_nonneg(s.subrange(0, k));
        assert(digits_val(s.subrange(0, k)) <= digits_val(p));
        lemma_digits_val_prefix_le(s, k + 1);
    }
}

impl Note {
    /// Parses a note name such as `A4`, `C#2` or `Db3`. Whitespace
    /// around the name is ignored; a missing or unreadable octave
    /// number counts as octave zero.
    pub fn parse(s: &str) -> (r: Result<Note, NoteError>)
        ensures
            r == spec_parse_note(s@),
    {
        let n = s.unicode_len();

        let mut start: usize = 0;
        while start < n && is_space(s.get_char(start))
            invariant
                n == s@.len(),
                0 <= start <= n,
                forall|j: int| 0 <= j < start ==> is_space_char(#[trigger] s@[j]),
            decreases n - start,
        {
            start += 1;
        }
        let mut end: usize = n;
        while end > start && is_space(s.get_char(end - 1))
            invariant
                n == s@.len(),
                start <= end <= n,
                forall|j: int| end <= j < n ==> is_space_char(#[trigger] s@[j]),
            decreases end,
        {
            end -= 1;
        }
        proof {
            if start == end {
                // all whitespace: both scans met
                lemma_trim_start(s@, start as int);
            } else {
                lemma_trim_start(s@, start as int);
                lemma_trim_end(s@, end as int);
                assert(spec_trim(s@) =~= s@.subrange(start as int, end as int));
            }
        }
        let ghost t = spec_trim(s@);

        if start == end {
            // the scans met, so the whole string is whitespace
            proof {
                if start < n {
                    assert(is_space_char(s@[start as int]));  // from the end scan
                    assert(false);  // the start scan stopped on a non-space
                }
                lemma_trim_start(s@, n as int);
                lemma_trim_end_le_len(s@);
                assert(t.len() == 0);
                assert(t.subrange(0, digit_split(t)) =~= t);
            }
            return Err(NoteError::InalidNote(ToneError));
        }

        // find the split between tone name and octave digits
        let mut split: usize = start;
        while split < end && !is_ascii_digit(s.get_char(split))
            invariant
                n == s@.len(),
                start <= split <= end <= n,
                forall|j: int| start <= j < split ==> !is_digit_char(#[trigger] s@[j]),
            decreases end - split,
        {
            split += 1;
        }
        proof {
            lemma_digit_split(t, split - start);
            assert(forall|j: int| 0 <= j < t.len() ==> t[j] == s@[start + j]);
        }

        // match the tone name
        let tone_len = split - start;
        let tone: Tone = if tone_len == 1 {
            let c = s.get_char(start);
            match c {
                'C' => Tone::C,
                'D' => Tone::D,
                'E' => Tone::E,
                'F' => Tone::F,
                'G' => Tone::G,
                'A' => Tone::A,
                'B' => Tone::B,
                _ => {
                    proof {
                        assert(t.subrange(0, 1)[0] == s@[start as int]);
                    }
                    return Err(NoteError::InalidNote(ToneError));
                },
            }
        } else if tone_len == 2 {
            let c0 = s.get_char(start);
            let c1 = s.get_char(start + 1);
            proof {
                assert(t.subrange(0, 2)[0] == s@[start as int]);
                assert(t.subrange(0, 2)[1] == s@[start + 1int]);
            }
            if c0 == 'C' && c1 == '#' {
                Tone::Db
            } else if c0 == 'D' && c1 == 'b' {
                Tone::Db
            } else if c0 == 'D' && c1 == '#' {
                Tone::Eb
            } else if c0 == 'E' && c1 == 'b' {
                Tone::Eb
            } else if c0 == 'F' && c1 == '#' {
                Tone::Gb
            } else if c0 == 'G' && c1 == 'b' {
                Tone::Gb
            } else if c0 == 'G' && c1 == '#' {
                Tone::Ab
            } else if c0 == 'A' && c1 == 'b' {
                Tone::Ab
            } else if c0 == 'A' && c1 == '#' {
                Tone::Bb
            } else if c0 == 'B' && c1 == 'b' {
                Tone::Bb
            } else {
                return Err(NoteError::InalidNote(ToneError));
            }
        } else {
            proof {
                assert(t.subrange(0, tone_len as int).len() == tone_len);
            }
            return Err(NoteError::InalidNote(ToneError));
        };
        proof {
            assert(tone_of(t.subrange(0, digit_split(t))) == Some(tone));
        }

        // parse the octave digits; anything unreadable counts as zero
        let ghost o = t.subrange(digit_split(t), t.len() as int);
        proof {
            assert(forall|j: int| 0 <= j < o.len() ==> o[j] == s@[split + j]);
        }
        let mut octave: u32 = 0;
        if split < end {
            let mut k: usize = split;
            let mut acc: u64 = 0;
            let mut ok = true;
            while k < end
                invariant
                    n == s@.len(),
                    split <= k <= end <= n,
                    split < end,
                    o == spec_trim(s@).subrange(
                        digit_split(spec_trim(s@)),
                        spec_trim(s@).len() as int,
                    ),
                    o.len() == end - split,
                    forall|j: int| 0 <= j < o.len() ==> o[j] == s@[split + j],
                    ok ==> forall|j: int|
                        0 <= j < k - split ==> is_digit_char(#[trigger] o[j]),
                    ok ==> acc == digits_val(o.subrange(0, k - split)) && acc <= u32::MAX,
                    !ok ==> parse_u32(o) is None,
                decreases end - k,
            {
                let c = s.get_char(k);
                let ghost pre = o.subrange(0, k - split);
                if !is_ascii_digit(c) {
                    proof {
                        assert(o[(k - split) as int] == s@[k as int]);
                    }
                    ok = false;
                } else if ok {
                    let d = (c as u32) - 48;
                    proof {
                        assert(o[(k - split) as int] == s@[k as int]);
                        assert(o.subrange(0, (k - split + 1) as int).drop_last() =~= pre);
                        assert(o.subrange(0, (k - split + 1) as int).last() == c);
                    }
                    if acc * 10 + (d as u64) > u32::MAX as u64 {
                        proof {
                            if forall|j: int| 0 <= j < o.len() ==> is_digit_char(#[trigger] o[j]) {
                                lemma_digits_val_prefix_le(o, (k - split + 1) as int);
                            }
                        }
                        ok = false;
                    } else {
                        acc = acc * 10 + (d as u64);
                    }
                }
                k += 1;
            }
            if ok {
                proof {
                    assert(o.subrange(0, (end - split) as int) =~= o);
                }
                octave = acc as u32;
            }
        } else {
            proof {
                assert(o.len() == 0);
            }
        }
        proof {
            assert(octave == octave_of(o));
        }

        Ok(Note { tone, octave })
    }
}

/// Base frequency of each tone at octave zero, in centi-hertz.
pub open spec fn tone_freq_centi(t: Tone) -> int {
    match t {
        Tone::C => 1635,
        Tone::Db => 1732,
        Tone::D => 1835,
        Tone::Eb => 1945,
        Tone::E => 2060,
        Tone::F => 2183,
        Tone::Gb => 2312,
        Tone::G => 2450,
        Tone::Ab => 2596,
        Tone::A => 2750,
        Tone::Bb => 2914,
        Tone::B => 3087,
    }
}

/// The buffer size that holds one period of the note at the given
/// sample rate: `sample_rate / frequency`, rounded to nearest. The
/// note's frequency is its base frequency doubled once per octave.
pub open spec fn spec_tune_buffer_size(note: Note, sample_rate: u32) -> int {
    let den = tone_freq_centi(note.tone) * vstd::arithmetic::power2::pow2(note.octave as nat);
    (2 * (sample_rate as int) * 100 + den) / (2 * den)
}

impl Tone {
    /// Base frequency of the tone at octave zero, in centi-hertz.
    pub fn freq_centi_hz(&self) -> (r: u32)
        ensures
            r == tone_freq_centi(*self),
    {
        match self {
            Tone::C => 1635,
            Tone::Db => 1732,
            Tone::D => 1835,
            Tone::Eb => 1945,
            Tone::E => 2060,
            Tone::F => 2183,
            Tone::Gb => 2312,
            Tone::G => 2450,
            Tone::Ab => 2596,
            Tone::A => 2750,
            Tone::Bb => 2914,
            Tone::B => 3087,
        }
    }
}

impl Note {
    /// The buffer size holding one whole period of this note, rounded
    /// to the nearest sample.
    pub fn tune_buffer_size(&self, sample_rate: u32) -> (r: u32)
        ensures
            r == spec_tune_buffer_size(*self, sample_rate),
            r <= sample_rate / 8 + 1,
    {
        let base = self.tone.freq_centi_hz();
        let num: u128 = 2 * (sample_rate as u128) * 100;
        if self.octave >= 64 {
            // the note's frequency dwarfs the sample rate: zero samples
            proof {
                let p = vstd::arithmetic::power2::pow2(self.octave as nat);
                vstd::arithmetic::power2::lemma2_to64();
                vstd::arithmetic::power2::lemma2_to64_rest();
                if self.octave > 64 {
                    vstd::arithmetic::power2::lemma_pow2_strictly_increases(
                        64,
                        self.octave as nat,
                    );
                }
                let den = tone_freq_centi(self.tone) * p;
                assert(den >= p) by (nonlinear_arith)
                    requires
                        p >= 1,
                        tone_freq_centi(self.tone) >= 1,
                        den == tone_freq_centi(self.tone) * p,
                ;
                assert(2 * (sample_rate as int) * 100 + den < 2 * den);
                vstd::arithmetic::div_mod::lemma_basic_div(
                    2 * (sample_rate as int) * 100 + den,
                    2 * den,
                );
            }
            return 0;
        }
        let mut den: u128 = base as u128;
        let mut k: u32 = 0;
        proof {
            vstd::arithmetic::power2::lemma2_to64();
        }
        while k < self.octave
            invariant
                k <= self.octave < 64,
                1635 <= base <= 3087,
                den == base * vstd::arithmetic::power2::pow2(k as nat),
            decreases self.octave - k,
    {
            proof {
                let p = vstd::arithmetic::power2::pow2(k as nat);
                vstd::arithmetic::power2::lemma_pow2_pos(k as nat);
                if (k as nat) < 63 {
                    vstd::arithmetic::power2::lemma_pow2_strictly_increases(k as nat, 63);
                }
                vstd::arithmetic::power2::lemma2_to64();
                vstd::arithmetic::power2::lemma2_to64_rest();
                vstd::arithmetic::power2::lemma_pow2_unfold((k + 1) as nat);
                assert(den * 2 == base * (2 * p)) by (nonlinear_arith)
                    requires
                        den == base * p,
                ;
                assert(base * (2 * p) <= 3087 * (2 * p)) by (nonlinear_arith)
                    requires
                        base <= 3087,
                        p >= 0,
                ;
            }
            den = den * 2;
            k += 1;
        }
        proof {
            let p = vstd::arithmetic::power2::pow2(self.octave as nat);
            if (self.octave as nat) < 63 {
                vstd::arithmetic::power2::lemma_pow2_strictly_increases(self.octave as nat, 63);
            }
            vstd::arithmetic::power2::lemma2_to64_rest();
            assert(den <= 3087 * p) by (nonlinear_arith)
                requires
                    den == base * p,
                    base <= 3087,
                    p >= 0,
            ;
        }
        let total: u128 = num + den;
        let q: u128 = total / (2 * den);
        proof {
            let deni = den as int;
            let numi = num as int;
            let ri = sample_rate as int;
            vstd::arithmetic::div_mod::lemma_fundamental_div_mod(numi + deni, 2 * deni);
            vstd::arithmetic::div_mod::lemma_mod_bound(numi + deni, 2 * deni);
            let qi = (numi + deni) / (2 * deni);
            vstd::arithmetic::div_mod::lemma_div_pos_is_pos(numi + deni, 2 * deni);
            assert(qi * (2 * deni) <= numi + deni);
            assert(qi * 3270 <= 200 * ri + 1635) by (nonlinear_arith)
                requires
                    qi * (2 * deni) <= numi + deni,
                    numi == 2 * ri * 100,
                    deni >= 1635,
                    qi >= 0,
                    ri >= 0,
            ;
            assert(3270 * (8 * qi) <= 3270 * (ri + 8));
            assert(8 * qi <= ri + 8) by (nonlinear_arith)
                requires
                    3270 * (8 * qi) <= 3270 * (ri + 8),
            ;
            vstd::arithmetic::div_mod::lemma_div_is_ordered(8 * qi, ri + 8, 8);
            vstd::arithmetic::div_mod::lemma_div_multiples_vanish(qi, 8);
            assert((ri + 8) / 8 == ri / 8 + 1) by {
                vstd::arithmetic::div_mod::lemma_div_plus_one(ri, 8);
            }
        }
        q as u32
    }
}

impl core::str::FromStr for Note {
    type Err = NoteError;

    fn from_str(s: &str) -> Result<Note, NoteError> {
        Note::parse(s)
    }
}

/// Whether `c` is one of the whitespace characters the parser strips.
fn is_space(c: char) -> (r: bool)
    ensures
        r == is_space_char(c),
{
    c == ' ' || c == '\t' || c == '\n' || c == '\r'
}

/// Whether `c` is an ascii digit.
fn is_ascii_digit(c: char) -> (r: bool)
    ensures
        r == is_digit_char(c),
{
    let u = c as u32;
    48 <= u && u <= 57
}

} // verus!
