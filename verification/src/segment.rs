//! Per-utterance audio segments: buffered while the user speaks, then
//! finalized and transcribed lazily.

use vstd::prelude::*;
use crate::tick::Tick;

verus! {

/// The lifecycle stage of an audio segment.
#[derive(Debug, Clone, Copy, PartialEq, Eq, Structural)]
pub enum SegmentStatus {
    /// The user is still speaking into this segment.
    Buffering,
    /// Captured, waiting for a decision.
    Pending,
    /// A transcription request is in flight.
    Transcribing,
    /// Text is available.
    Transcribed,
    /// Purged or ignored.
    Discarded,
}

/// One utterance's audio. Frames are opaque sample words the kernel stores
/// but never interprets.
#[derive(Debug)]
pub struct AudioSegment {
    pub id: u64,
    pub frames: Vec<u32>,
    pub start_tick: Tick,
    pub end_tick: Option<Tick>,
    pub status: SegmentStatus,
    pub transcription: Option<String>,
}

/// Content equality for segments: every field agrees, the frame buffer
/// compared element for element.
pub open spec fn seg_eq(a: AudioSegment, b: AudioSegment) -> bool {
    &&& a.id == b.id
    &&& a.frames@ == b.frames@
    &&& a.start_tick == b.start_tick
    &&& a.end_tick == b.end_tick
    &&& a.status == b.status
    &&& a.transcription == b.transcription
}

impl Clone for AudioSegment {
    /// Clones preserve the segment's content.
    fn clone(&self) -> (r: Self)
        ensures
            seg_eq(r, *self),
    {
        let frames = self.frames.clone();
        proof {
            assert(frames@ =~= self.frames@);
        }
        let transcription = match &self.transcription {
            Some(t) => Some(t.clone()),
            None => None,
        };
        AudioSegment {
            id: self.id,
            frames,
            start_tick: self.start_tick,
            end_tick: self.end_tick,
            status: self.status,
            transcription,
        }
    }
}

impl AudioSegment {
    /// A fresh segment, buffering from `start_tick`.
    pub fn new(id: u64, start_tick: Tick) -> (s: AudioSegment)
        ensures
            s.id == id,
            s.frames@.len() == 0,
            s.start_tick == start_tick,
            s.end_tick is None,
            s.status == SegmentStatus::Buffering,
            s.transcription is None,
    {
        AudioSegment {
            id,
            frames: Vec::new(),
            start_tick,
            end_tick: None,
            status: SegmentStatus::Buffering,
            transcription: None,
        }
    }
}

} // verus!
