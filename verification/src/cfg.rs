//! Startup options: where samples come from and how the UI starts out.

use vstd::prelude::*;

use crate::music::{spec_parse_note, spec_tune_buffer_size, Note};

verus! {

/// Which capture backend to read samples from.
pub enum ScopeSource {
    /// An audio-server record stream.
    Pulse { device: Option<String>, server_buffer: u32 },
    /// A file or pipe on the filesystem.
    File { path: String, limit_rate: bool },
    /// A device opened through the system audio layer.
    Audio { device: Option<String>, timeout: u64 },
}

/// Initial UI settings. `scale` is a milli-unit amplitude scale.
pub struct UiOptions {
    pub scale: i64,
    pub scatter: bool,
    pub no_reference: bool,
    pub no_ui: bool,
    pub no_braille: bool,
}

/// Source settings: channel count, buffer size and sample rate, plus an
/// optional note name to retune the buffer size to.
pub struct SourceOptions {
    pub channels: usize,
    pub buffer: u32,
    pub sample_rate: u32,
    pub tune: Option<String>,
}

/// The smallest multiple of `d` that is at least `b`.
pub open spec fn align_up(b: int, d: int) -> int {
    if b % d == 0 {
        b
    } else {
        b + d - b % d
    }
}

impl SourceOptions {
    /// Retunes the buffer size to hold a whole number of periods of the
    /// requested note, then pads it to a multiple of one 16-bit frame
    /// across all channels. Returns false when a note was requested but
    /// could not be read; the options are then left unchanged.
    pub fn tune(&mut self) -> (recognized: bool)
        requires
            1 <= old(self).channels <= 65535,
        ensures
            final(self).channels == old(self).channels,
            final(self).sample_rate == old(self).sample_rate,
            final(self).tune == old(self).tune,
            match old(self).tune {
                None => final(self).buffer == old(self).buffer && recognized,
                Some(txt) => match spec_parse_note(txt@) {
                    Ok(note) => recognized && final(self).buffer == align_up(
                        spec_tune_buffer_size(note, old(self).sample_rate),
                        2 * old(self).channels as int,
                    ),
                    Err(_) => !recognized && final(self).buffer == old(self).buffer,
                },
            },
    {
        let has_note: Option<Note> = match &self.tune {
            None => {
                return true;
            },
            Some(txt) => match Note::parse(txt.as_str()) {
                Ok(note) => Some(note),
                Err(_) => None,
            },
        };
        match has_note {
            None => false,
            Some(note) => {
                let mut buffer = note.tune_buffer_size(self.sample_rate);
                let d: u32 = (self.channels as u32) * 2;
                // pad to the next multiple of one 16-bit frame
                let r = buffer % d;
                if r != 0 {
                    buffer = buffer + (d - r);
                }
                proof {
                    vstd::arithmetic::div_mod::lemma_mod_bound(
                        spec_tune_buffer_size(note, self.sample_rate),
                        d as int,
                    );
                }
                self.buffer = buffer;
                true
            },
        }
    }
}

} // verus!
