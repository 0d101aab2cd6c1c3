use scope_tui::cfg::SourceOptions;
use scope_tui::music::{Note, NoteError, Tone, ToneError};

#[test]
fn plain_note_names_parse() {
    assert_eq!(Note::parse("A4"), Ok(Note { tone: Tone::A, octave: 4 }));
    assert_eq!(Note::parse("C0"), Ok(Note { tone: Tone::C, octave: 0 }));
    assert_eq!(Note::parse("B12"), Ok(Note { tone: Tone::B, octave: 12 }));
}

#[test]
fn sharps_and_flats_are_the_same_tone() {
    assert_eq!(Note::parse("C#2"), Ok(Note { tone: Tone::Db, octave: 2 }));
    assert_eq!(Note::parse("Db2"), Ok(Note { tone: Tone::Db, octave: 2 }));
    assert_eq!(Note::parse("G#1"), Ok(Note { tone: Tone::Ab, octave: 1 }));
    assert_eq!(Note::parse("Ab1"), Ok(Note { tone: Tone::Ab, octave: 1 }));
    assert_eq!(Note::parse("A#3"), Ok(Note { tone: Tone::Bb, octave: 3 }));
}

#[test]
fn surrounding_whitespace_is_ignored() {
    assert_eq!(Note::parse("  A4  "), Ok(Note { tone: Tone::A, octave: 4 }));
    assert_eq!(Note::parse("\tE2\n"), Ok(Note { tone: Tone::E, octave: 2 }));
}

#[test]
fn missing_or_unreadable_octave_counts_as_zero() {
    assert_eq!(Note::parse("A"), Ok(Note { tone: Tone::A, octave: 0 }));
    assert_eq!(Note::parse("A4x"), Ok(Note { tone: Tone::A, octave: 0 }));
    // an octave too large for the number type also counts as zero
    assert_eq!(
        Note::parse("A99999999999"),
        Ok(Note { tone: Tone::A, octave: 0 })
    );
}

#[test]
fn unknown_tone_names_are_rejected() {
    assert_eq!(Note::parse("H2"), Err(NoteError::InalidNote(ToneError)));
    assert_eq!(Note::parse(""), Err(NoteError::InalidNote(ToneError)));
    assert_eq!(Note::parse("   "), Err(NoteError::InalidNote(ToneError)));
    assert_eq!(Note::parse("Cbb4"), Err(NoteError::InalidNote(ToneError)));
    assert_eq!(Note::parse("4"), Err(NoteError::InalidNote(ToneError)));
}

#[test]
fn from_str_goes_through_the_same_parser() {
    let parsed: Result<Note, NoteError> = "F#3".parse();
    assert_eq!(parsed, Ok(Note { tone: Tone::Gb, octave: 3 }));
    assert!("X9".parse::<Note>().is_err());
}

#[test]
fn base_frequencies_follow_the_tempered_scale() {
    assert_eq!(Tone::C.freq_centi_hz(), 1635);
    assert_eq!(Tone::A.freq_centi_hz(), 2750);
    assert_eq!(Tone::B.freq_centi_hz(), 3087);
}

#[test]
fn tuned_buffer_holds_one_period_of_the_note() {
    // A4 is 440 Hz: 48000 / 440 rounds to 109 samples
    let a4 = Note { tone: Tone::A, octave: 4 };
    assert_eq!(a4.tune_buffer_size(48000), 109);
    // A0 is 27.5 Hz: 48000 / 27.5 rounds to 1745
    let a0 = Note { tone: Tone::A, octave: 0 };
    assert_eq!(a0.tune_buffer_size(48000), 1745);
    // C4 is 261.6 Hz: 44100 / 261.6 rounds to 169
    let c4 = Note { tone: Tone::C, octave: 4 };
    assert_eq!(c4.tune_buffer_size(44100), 169);
}

#[test]
fn absurd_octaves_tune_to_an_empty_buffer() {
    let n = Note { tone: Tone::A, octave: 4_000_000 };
    assert_eq!(n.tune_buffer_size(48000), 0);
}

#[test]
fn tune_pads_the_buffer_to_whole_frames() {
    let mut opts = SourceOptions {
        channels: 2,
        buffer: 2048,
        sample_rate: 48000,
        tune: Some(String::from("A4")),
    };
    assert!(opts.tune());
    // 109 padded up to the next multiple of channels * 2 = 4
    assert_eq!(opts.buffer, 112);
}

#[test]
fn unrecognized_tune_request_is_reported_and_ignored() {
    let mut opts = SourceOptions {
        channels: 2,
        buffer: 2048,
        sample_rate: 48000,
        tune: Some(String::from("H4")),
    };
    assert!(!opts.tune());
    assert_eq!(opts.buffer, 2048);
}

#[test]
fn absent_tune_request_changes_nothing() {
    let mut opts = SourceOptions {
        channels: 2,
        buffer: 2048,
        sample_rate: 48000,
        tune: None,
    };
    assert!(opts.tune());
    assert_eq!(opts.buffer, 2048);
}
