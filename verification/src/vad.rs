//! Speech segmentation over detector frames: 16 kHz mono, 256 samples per
//! frame. The detector's probability for a frame is compared with the two
//! thresholds by the caller; the segmenter sees only the outcome.
use vstd::prelude::*;

use crate::converter::ConvertError;
use crate::intervals::AudioInterval;
use crate::text::owned;

verus! {

/// Samples per detector frame.
pub const FRAME: usize = 256;
/// Consecutive frames at or above the start threshold that start speech.
pub const START_FRAMES: u64 = 3;
/// Frames of lookback kept before speech starts, confirmation included.
pub const LOOKBACK_FRAMES: u64 = 6;
/// Frames at or above the continuation threshold a segment needs.
pub const MIN_VOICE_FRAMES: u64 = 4;
/// Frames below the continuation threshold that end a segment.
pub const END_SILENCE_FRAMES: u64 = 10;

/// How a frame's speech probability compares with the continuation
/// threshold (0.5) and the start threshold (0.5 to 1.0).
#[derive(Debug, Clone, Copy, PartialEq, Eq, Structural)]
pub enum FrameLevel {
    /// Below the continuation threshold.
    Silent,
    /// At or above the continuation threshold, below the start threshold.
    Weak,
    /// At or above the start threshold.
    Strong,
}

/// The segmenter's state between frames.
#[derive(Debug, Clone, Copy, PartialEq, Eq, Structural)]
pub struct Tracker {
    /// Samples seen so far.
    pub position: u64,
    /// Where the current candidate segment starts.
    pub candidate: Option<u64>,
    /// Voice frames counted for the candidate segment.
    pub voiced: u64,
    /// Consecutive frames at the start level before activation.
    pub consecutive: u64,
    /// Whether speech has started.
    pub active: bool,
    /// Where the last voice frame ended.
    pub last_voice_end: u64,
}

pub open spec fn initial_tracker() -> Tracker {
    Tracker {
        position: 0,
        candidate: None,
        voiced: 0,
        consecutive: 0,
        active: false,
        last_voice_end: 0,
    }
}

/// Ends the current segment; it is emitted when speech had started and
/// held enough voice frames.
pub open spec fn closed(t: Tracker) -> (Tracker, Option<AudioInterval>) {
    (
        Tracker { candidate: None, voiced: 0, consecutive: 0, active: false, ..t },
        if t.active && t.voiced >= 4 {
            Some(AudioInterval { start_frame: t.candidate.unwrap(), end_frame: t.last_voice_end })
        } else {
            None
        },
    )
}

/// One frame of `samples` samples at `level`: the next state and the
/// segment it ends, or `None` when the position would overflow.
pub open spec fn accepted(t: Tracker, level: FrameLevel, samples: u64) -> Option<
    (Tracker, Option<AudioInterval>),
> {
    if t.position + samples > u64::MAX {
        None
    } else {
        let start = t.position;
        let position = (t.position + samples) as u64;
        if level != FrameLevel::Silent {
            let first = match t.candidate {
                Some(c) => c,
                None => start,
            };
            if !t.active {
                let lower = if start >= 5 * 256 {
                    (start - 5 * 256) as u64
                } else {
                    0u64
                };
                let consecutive = if level == FrameLevel::Strong {
                    (t.consecutive + 1) as u64
                } else {
                    0u64
                };
                Some(
                    (
                        Tracker {
                            position,
                            candidate: Some(if first >= lower { first } else { lower }),
                            voiced: if t.voiced + 1 <= 6 { (t.voiced + 1) as u64 } else { 6u64 },
                            consecutive,
                            active: consecutive >= 3,
                            last_voice_end: position,
                        },
                        None,
                    ),
                )
            } else {
                Some(
                    (
                        Tracker {
                            position,
                            candidate: Some(first),
                            voiced: (t.voiced + 1) as u64,
                            last_voice_end: position,
                            ..t
                        },
                        None,
                    ),
                )
            }
        } else {
            let quiet = Tracker { position, consecutive: 0, ..t };
            if !t.active {
                Some((Tracker { candidate: None, voiced: 0, ..quiet }, None))
            } else if position - t.last_voice_end >= 10 * 256 {
                Some(closed(quiet))
            } else {
                Some((quiet, None))
            }
        }
    }
}

/// Intervals each non-empty, in order and not overlapping.
pub open spec fn ordered_segments(s: Seq<AudioInterval>) -> bool {
    &&& forall|i: int| 0 <= i < s.len() ==> (#[trigger] s[i]).start_frame < s[i].end_frame
    &&& forall|i: int, j: int|
        0 <= i < j < s.len() ==> (#[trigger] s[i]).end_frame <= (#[trigger] s[j]).start_frame
}

/// Bounds that every reachable tracker keeps, together with the segments
/// already emitted.
pub open spec fn consistent(t: Tracker, emitted: Seq<AudioInterval>) -> bool {
    &&& t.consecutive <= 3
    &&& !t.active ==> t.consecutive < 3
    &&& t.voiced <= t.position
    &&& t.last_voice_end <= t.position
    &&& t.active ==> t.candidate is Some
    &&& (t.candidate matches Some(c) ==> c < t.last_voice_end)
    &&& ordered_segments(emitted)
    &&& emitted.len() > 0 ==> emitted.last().end_frame <= t.position
    &&& emitted.len() > 0 ==> (t.candidate matches Some(c) ==> emitted.last().end_frame <= c)
}

proof fn lemma_emit_keeps_order(s: Seq<AudioInterval>, x: AudioInterval)
    requires
        ordered_segments(s),
        x.start_frame < x.end_frame,
        s.len() > 0 ==> s.last().end_frame <= x.start_frame,
    ensures
        ordered_segments(s.push(x)),
{
    assert forall|i: int, j: int| 0 <= i < j < s.push(x).len() implies (#[trigger] s.push(
        x,
    )[i]).end_frame <= (#[trigger] s.push(x)[j]).start_frame by {
        if j == s.len() {
            if i < s.len() - 1 {
                assert(s[i].end_frame <= s[s.len() - 1].start_frame);
            }
        } else {
            assert(s[i].end_frame <= s[j].start_frame);
        }
    }
}

/// Splits a stream of samples into detector frames.
pub struct FrameAssembler {
    pending: Vec<i16>,
}

pub open spec fn frames_flat(frames: Seq<Vec<i16>>) -> Seq<i16>
    decreases frames.len(),
{
    if frames.len() == 0 {
        Seq::empty()
    } else {
        frames_flat(frames.drop_last()) + frames.last()@
    }
}

impl FrameAssembler {
    /// Samples waiting for a full frame.
    pub closed spec fn pending_samples(&self) -> Seq<i16> {
        self.pending@
    }

    pub fn new() -> (r: FrameAssembler)
        ensures
            r.pending_samples().len() == 0,
    {
        FrameAssembler { pending: Vec::new() }
    }

    /// Appends samples and returns the frames they complete, in order.
    pub fn push(&mut self, samples: &[i16]) -> (frames: Vec<Vec<i16>>)
        requires
            old(self).pending_samples().len() < 256,
        ensures
            final(self).pending_samples().len() < 256,
            forall|i: int| 0 <= i < frames@.len() ==> (#[trigger] frames@[i])@.len() == 256,
            frames_flat(frames@) + final(self).pending_samples() == old(self).pending_samples()
                + samples@,
    {
        let ghost original = self.pending@;
        let mut frames: Vec<Vec<i16>> = Vec::new();
        let mut i: usize = 0;
        while i < samples.len()
            invariant
                0 <= i <= samples@.len(),
                self.pending@.len() < 256,
                forall|k: int| 0 <= k < frames@.len() ==> (#[trigger] frames@[k])@.len() == 256,
                frames_flat(frames@) + self.pending@ == original + samples@.take(i as int),
            decreases samples@.len() - i,
        {
            let ghost before = frames_flat(frames@) + self.pending@;
            self.pending.push(samples[i]);
            proof {
                assert(samples@.take(i as int + 1) =~= samples@.take(i as int).push(samples@[i as int]));
                assert(frames_flat(frames@) + self.pending@ =~= before.push(samples@[i as int]));
            }
            if self.pending.len() == 256 {
                let mut full: Vec<i16> = Vec::new();
                std::mem::swap(&mut full, &mut self.pending);
                let ghost old_frames = frames@;
                frames.push(full);
                proof {
                    assert(frames@.drop_last() =~= old_frames);
                    assert(frames_flat(frames@) + self.pending@ =~= frames_flat(old_frames)
                        + full@);
                }
            }
            i = i + 1;
        }
        proof {
            assert(samples@.take(samples@.len() as int) =~= samples@);
        }
        frames
    }

    /// The last, partial frame padded with zeros, and how many of its
    /// samples are real; `None` when no sample is waiting.
    pub fn finish(self) -> (r: Option<(Vec<i16>, u64)>)
        requires
            self.pending_samples().len() < 256,
        ensures
            match r {
                None => self.pending_samples().len() == 0,
                Some((frame, used)) => {
                    &&& used == self.pending_samples().len()
                    &&& 0 < used < 256
                    &&& frame@.len() == 256
                    &&& frame@.take(used as int) == self.pending_samples()
                    &&& forall|k: int| used <= k < 256 ==> frame@[k] == 0
                },
            },
    {
        let used = self.pending.len();
        if used == 0 {
            return None;
        }
        let mut frame = self.pending;
        while frame.len() < 256
            invariant
                used <= frame@.len() <= 256,
                frame@.take(used as int) == self.pending@,
                forall|k: int| used <= k < frame@.len() ==> frame@[k] == 0,
            decreases 256 - frame@.len(),
        {
            let ghost before = frame@;
            frame.push(0);
            proof {
                assert(frame@.take(used as int) =~= before.take(used as int));
            }
        }
        Some((frame, used as u64))
    }
}

/// Speech segmentation over detector frames.
pub struct Segmenter {
    tracker: Tracker,
    intervals: Vec<AudioInterval>,
}

impl Segmenter {
    pub closed spec fn state(&self) -> Tracker {
        self.tracker
    }

    /// The segments emitted so far.
    pub closed spec fn segments(&self) -> Seq<AudioInterval> {
        self.intervals@
    }

    pub open spec fn wf(&self) -> bool {
        consistent(self.state(), self.segments())
    }

    pub fn new() -> (r: Segmenter)
        ensures
            r.wf(),
            r.state() == initial_tracker(),
            r.segments().len() == 0,
    {
        Segmenter {
            tracker: Tracker {
                position: 0,
                candidate: None,
                voiced: 0,
                consecutive: 0,
                active: false,
                last_voice_end: 0,
            },
            intervals: Vec::new(),
        }
    }

    /// Voice frames counted for the current candidate segment.
    pub fn voiced(&self) -> (r: u64)
        ensures
            r == self.state().voiced,
    {
        self.tracker.voiced
    }

    /// The segments emitted so far, without the one in progress.
    pub fn segments_so_far(&self) -> (r: &Vec<AudioInterval>)
        ensures
            r@ == self.segments(),
    {
        &self.intervals
    }

    fn emit(&mut self, closing: (Tracker, Option<AudioInterval>))
        requires
            consistent(old(self).state(), old(self).segments()),
            closing == closed(old(self).state()),
        ensures
            final(self).state() == closing.0,
            final(self).segments() == match closing.1 {
                Some(x) => old(self).segments().push(x),
                None => old(self).segments(),
            },
            consistent(final(self).state(), final(self).segments()),
    {
        let (tracker, emitted) = closing;
        if let Some(x) = emitted {
            proof {
                lemma_emit_keeps_order(self.intervals@, x);
            }
            self.intervals.push(x);
        }
        self.tracker = tracker;
    }

    /// Takes one frame of `samples` (at least one) samples at `level`.
    pub fn accept(&mut self, level: FrameLevel, samples: u64) -> (r: Result<(), ConvertError>)
        requires
            old(self).wf(),
            samples >= 1,
        ensures
            final(self).wf(),
            match accepted(old(self).state(), level, samples) {
                None => r is Err && final(self).state() == old(self).state()
                    && final(self).segments() == old(self).segments(),
                Some((t, emitted)) => r is Ok && final(self).state() == t && final(self).segments()
                    == match emitted {
                    Some(x) => old(self).segments().push(x),
                    None => old(self).segments(),
                },
            },
    {
        let t = self.tracker;
        if t.position > u64::MAX - samples {
            return Err(ConvertError::Failed { message: owned("VAD position overflow") });
        }
        let start = t.position;
        let position = t.position + samples;
        if level != FrameLevel::Silent {
            let first = match t.candidate {
                Some(c) => c,
                None => start,
            };
            if !t.active {
                let lower = if start >= 5 * 256 {
                    start - 5 * 256
                } else {
                    0
                };
                let consecutive = if level == FrameLevel::Strong {
                    t.consecutive + 1
                } else {
                    0
                };
                self.tracker = Tracker {
                    position,
                    candidate: Some(
                        if first >= lower {
                            first
                        } else {
                            lower
                        },
                    ),
                    voiced: if t.voiced + 1 <= 6 {
                        t.voiced + 1
                    } else {
                        6
                    },
                    consecutive,
                    active: consecutive >= 3,
                    last_voice_end: position,
                };
            } else {
                self.tracker = Tracker {
                    position,
                    candidate: Some(first),
                    voiced: t.voiced + 1,
                    last_voice_end: position,
                    ..t
                };
            }
        } else {
            let quiet = Tracker { position, consecutive: 0, ..t };
            if !t.active {
                self.tracker = Tracker { candidate: None, voiced: 0, ..quiet };
            } else if position - t.last_voice_end >= 10 * 256 {
                self.tracker = quiet;
                self.emit(
                    (
                        Tracker { candidate: None, voiced: 0, consecutive: 0, active: false, ..quiet },
                        if quiet.active && quiet.voiced >= 4 {
                            Some(
                                AudioInterval {
                                    start_frame: quiet.candidate.unwrap(),
                                    end_frame: quiet.last_voice_end,
                                },
                            )
                        } else {
                            None
                        },
                    ),
                );
            } else {
                self.tracker = quiet;
            }
        }
        Ok(())
    }

    /// Ends the input: takes the last partial frame of `tail_samples`
    /// samples at `tail_level` when there is one (`tail_samples > 0`), then
    /// closes the segment in progress, and returns every segment.
    pub fn finish(self, tail_level: FrameLevel, tail_samples: u64) -> (r: Result<
        Vec<AudioInterval>,
        ConvertError,
    >)
        requires
            self.wf(),
        ensures
            match r {
                Ok(v) => ordered_segments(v@) && finished(
                    self.state(),
                    self.segments(),
                    tail_level,
                    tail_samples,
                ) == Some(v@),
                Err(_) => finished(self.state(), self.segments(), tail_level, tail_samples) is None,
            },
    {
        let mut this = self;
        if tail_samples > 0 {
            this.accept(tail_level, tail_samples)?;
        }
        let t = this.tracker;
        this.emit(
            (
                Tracker { candidate: None, voiced: 0, consecutive: 0, active: false, ..t },
                if t.active && t.voiced >= 4 {
                    Some(AudioInterval { start_frame: t.candidate.unwrap(), end_frame: t.last_voice_end })
                } else {
                    None
                },
            ),
        );
        Ok(this.intervals)
    }
}

/// The segments at the end of the input (see [`Segmenter::finish`]), or
/// `None` when the position overflows.
pub open spec fn finished(
    t: Tracker,
    emitted: Seq<AudioInterval>,
    tail_level: FrameLevel,
    tail_samples: u64,
) -> Option<Seq<AudioInterval>> {
    let after_tail = if tail_samples > 0 {
        match accepted(t, tail_level, tail_samples) {
            None => None,
            Some((t2, e)) => Some(
                (
                    t2,
                    match e {
                        Some(x) => emitted.push(x),
                        None => emitted,
                    },
                ),
            ),
        }
    } else {
        Some((t, emitted))
    };
    match after_tail {
        None => None,
        Some((t3, e3)) => Some(
            match closed(t3).1 {
                Some(x) => e3.push(x),
                None => e3,
            },
        ),
    }
}

/// Speech starts only on the third consecutive frame at the start level,
/// and only segments with at least four voice frames are emitted.
pub proof fn speech_needs_three_strong_frames(t: Tracker, level: FrameLevel, samples: u64)
    requires
        consistent(t, Seq::empty()),
        accepted(t, level, samples) is Some,
    ensures
        ({
            let (t2, emitted) = accepted(t, level, samples).unwrap();
            &&& (!t.active && t2.active) ==> level == FrameLevel::Strong && t.consecutive == 2
            &&& (emitted matches Some(_) ==> t.active && t.voiced >= MIN_VOICE_FRAMES)
        }),
{
}

} // verus!
