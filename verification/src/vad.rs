//! Voice-activity detection: a stateful envelope detector that turns audio
//! chunk energies into speech edges, with echo suppression while the system
//! itself is speaking and for a grace period afterwards.

use vstd::prelude::*;
use crate::event::AudioSignal;
use crate::score::{Score, score_ok};

verus! {

/// Baseline energy threshold for speech.
pub const BASE_THRESHOLD: u32 = 300;

/// Multiplier on the threshold while the system speaks or just stopped.
pub const ADAPTIVE_FACTOR: u32 = 3;

/// How long speech must persist before an edge fires, in milliseconds.
pub const MIN_SPEECH_MS: u64 = 120;

/// How long silence must persist before speech ends, in milliseconds.
pub const MIN_SILENCE_MS: u64 = 500;

/// How long after playback the raised threshold protects against echo tails.
pub const GRACE_PERIOD_MS: u64 = 300;

/// The envelope detector. All state is plain and the step is a pure
/// function of it and the chunk's energy.
#[derive(Debug, Clone, Copy, PartialEq, Eq, Structural)]
pub struct AudioMonitor {
    pub sample_rate: u32,
    pub is_speaking: bool,
    pub consecutive_speech_ms: u64,
    pub consecutive_silence_ms: u64,
    pub system_speaking: bool,
    pub playback_end_ms: Option<u64>,
    pub current_time_ms: u64,
}

/// Saturating addition of durations.
pub open spec fn spec_sat_add_u64(a: u64, b: u64) -> u64 {
    if a + b <= u64::MAX {
        (a + b) as u64
    } else {
        u64::MAX
    }
}

/// The duration of a chunk of samples at the monitor's rate.
pub open spec fn spec_chunk_ms(samples: int, sample_rate: u32) -> int {
    samples * 1000 / (sample_rate as int)
}

/// The threshold in force at an instant: raised while the system speaks and
/// during the echo grace period after playback ends.
pub open spec fn spec_effective_threshold(m: AudioMonitor) -> u32 {
    if m.system_speaking {
        (BASE_THRESHOLD * ADAPTIVE_FACTOR) as u32
    } else {
        match m.playback_end_ms {
            Some(end) => if m.current_time_ms >= end && m.current_time_ms - end < GRACE_PERIOD_MS {
                (BASE_THRESHOLD * ADAPTIVE_FACTOR) as u32
            } else {
                BASE_THRESHOLD
            },
            None => BASE_THRESHOLD,
        }
    }
}

/// One detector step: what the monitor becomes and what edge, if any, it
/// emits, as a pure function of the previous state, the chunk energy and
/// the chunk duration. The clock has already advanced when the threshold is
/// read.
pub open spec fn spec_vad_step(pre: AudioMonitor, energy: Score, chunk_ms: u64) -> (
    AudioMonitor,
    Option<AudioSignal>,
) {
    let timed = AudioMonitor {
        current_time_ms: spec_sat_add_u64(pre.current_time_ms, chunk_ms),
        ..pre
    };
    let threshold = spec_effective_threshold(timed);
    if energy > threshold {
        let speech = spec_sat_add_u64(timed.consecutive_speech_ms, chunk_ms);
        if !timed.is_speaking && speech >= MIN_SPEECH_MS {
            (
                AudioMonitor {
                    is_speaking: true,
                    consecutive_speech_ms: speech,
                    consecutive_silence_ms: 0,
                    ..timed
                },
                Some(AudioSignal::SpeechStart),
            )
        } else {
            (
                AudioMonitor {
                    consecutive_speech_ms: speech,
                    consecutive_silence_ms: 0,
                    ..timed
                },
                None,
            )
        }
    } else {
        let silence = spec_sat_add_u64(timed.consecutive_silence_ms, chunk_ms);
        if timed.is_speaking && silence >= MIN_SILENCE_MS {
            (
                AudioMonitor {
                    is_speaking: false,
                    consecutive_speech_ms: 0,
                    consecutive_silence_ms: silence,
                    ..timed
                },
                Some(AudioSignal::SpeechEnd),
            )
        } else {
            (
                AudioMonitor {
                    consecutive_speech_ms: 0,
                    consecutive_silence_ms: silence,
                    ..timed
                },
                None,
            )
        }
    }
}

impl AudioMonitor {
    /// A fresh detector at the given sample rate.
    pub fn new(sample_rate: u32) -> (r: Self)
        requires
            sample_rate > 0,
        ensures
            r == (AudioMonitor {
                sample_rate,
                is_speaking: false,
                consecutive_speech_ms: 0u64,
                consecutive_silence_ms: 0u64,
                system_speaking: false,
                playback_end_ms: None::<u64>,
                current_time_ms: 0u64,
            }),
    {
        AudioMonitor {
            sample_rate,
            is_speaking: false,
            consecutive_speech_ms: 0,
            consecutive_silence_ms: 0,
            system_speaking: false,
            playback_end_ms: None,
            current_time_ms: 0,
        }
    }

    /// Report whether the system's own playback is running; the end of
    /// playback stamps the start of the echo grace period.
    pub fn set_system_speaking(&mut self, speaking: bool)
        ensures
            *final(self) == (AudioMonitor {
                system_speaking: speaking,
                playback_end_ms: if old(self).system_speaking && !speaking {
                    Some(old(self).current_time_ms)
                } else {
                    old(self).playback_end_ms
                },
                ..*old(self)
            }),
    {
        if self.system_speaking && !speaking {
            self.playback_end_ms = Some(self.current_time_ms);
        }
        self.system_speaking = speaking;
    }

    /// Whether the system's own playback is running.
    pub fn is_system_speaking(&self) -> (r: bool)
        ensures
            r == self.system_speaking,
    {
        self.system_speaking
    }

    /// Process one chunk: its measured energy and its length in samples.
    /// An empty chunk changes nothing; otherwise the detector takes one
    /// step and may emit a speech edge.
    pub fn process(&mut self, energy: Score, samples: usize) -> (r: Option<AudioSignal>)
        requires
            old(self).sample_rate > 0,
            samples as int * 1000 <= u64::MAX,
        ensures
            samples == 0 ==> *final(self) == *old(self) && r is None,
            samples > 0 ==> (*final(self), r) == spec_vad_step(
                *old(self),
                energy,
                (spec_chunk_ms(samples as int, old(self).sample_rate)) as u64,
            ),
    {
        if samples == 0 {
            return None;
        }
        let chunk_ms: u64 = (samples as u64 * 1000) / (self.sample_rate as u64);
        self.current_time_ms = if self.current_time_ms <= u64::MAX - chunk_ms {
            self.current_time_ms + chunk_ms
        } else {
            u64::MAX
        };
        let threshold: u32 = if self.system_speaking {
            BASE_THRESHOLD * ADAPTIVE_FACTOR
        } else {
            match self.playback_end_ms {
                Some(end) => {
                    if self.current_time_ms >= end && self.current_time_ms - end < GRACE_PERIOD_MS {
                        BASE_THRESHOLD * ADAPTIVE_FACTOR
                    } else {
                        BASE_THRESHOLD
                    }
                },
                None => BASE_THRESHOLD,
            }
        };
        if energy > threshold {
            self.consecutive_speech_ms = if self.consecutive_speech_ms <= u64::MAX - chunk_ms {
                self.consecutive_speech_ms + chunk_ms
            } else {
                u64::MAX
            };
            self.consecutive_silence_ms = 0;
            if !self.is_speaking && self.consecutive_speech_ms >= MIN_SPEECH_MS {
                self.is_speaking = true;
                return Some(AudioSignal::SpeechStart);
            }
        } else {
            self.consecutive_silence_ms = if self.consecutive_silence_ms <= u64::MAX - chunk_ms {
                self.consecutive_silence_ms + chunk_ms
            } else {
                u64::MAX
            };
            self.consecutive_speech_ms = 0;
            if self.is_speaking && self.consecutive_silence_ms >= MIN_SILENCE_MS {
                self.is_speaking = false;
                return Some(AudioSignal::SpeechEnd);
            }
        }
        None
    }
}

} // verus!
