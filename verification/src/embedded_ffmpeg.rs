//! The embedded converter's decisions around the native conversion: the
//! checks before it starts, the speech intervals handed to it, and how its
//! status is read. The native library itself is linked only in release
//! builds; without it conversion reports `LibAvUnavailable`.
use vstd::prelude::*;

use crate::converter::{paths_equal, ConvertError};
use crate::intervals::AudioInterval;
use crate::text::{lower, owned, push_chars, push_str, signed_decimal, string_of};

verus! {

/// Converts with the FFmpeg libraries linked into the program.
#[derive(Debug, Default, Clone, Copy)]
pub struct EmbeddedFfmpegConverter;

impl EmbeddedFfmpegConverter {
    /// The checks before converting: a canceled request stops at once, and
    /// the output may not be the input (the same text ignoring ASCII case,
    /// or `same_file`: both exist and resolve to one file).
    pub fn precheck(&self, canceled: bool, input: &str, output: &str, same_file: bool) -> (r:
        Result<(), ConvertError>)
        ensures
            canceled ==> (r matches Err(ConvertError::Canceled)),
            !canceled && (lower(input@) == lower(output@) || same_file) ==> (r matches Err(
                ConvertError::SamePath,
            )),
            !canceled && !(lower(input@) == lower(output@) || same_file) ==> r is Ok,
    {
        if canceled {
            return Err(ConvertError::Canceled);
        }
        if paths_equal(input, output) || same_file {
            return Err(ConvertError::SamePath);
        }
        Ok(())
    }
}

/// The message of a native failure: its own text, or the status code.
pub open spec fn native_failure_text(code: int, message: Seq<char>) -> Seq<char> {
    if message.len() == 0 {
        "libav failed: "@ + signed_decimal(code)
    } else {
        message
    }
}

/// Reads a native conversion status: cancellation first, then a negative
/// status as a failure with the native message.
pub fn native_result(canceled: bool, code: i32, message: &str) -> (r: Result<(), ConvertError>)
    ensures
        canceled ==> (r matches Err(ConvertError::Canceled)),
        !canceled && code < 0 ==> (r matches Err(ConvertError::Failed { message: m }) && m@
            == native_failure_text(code as int, message@)),
        !canceled && code >= 0 ==> r is Ok,
{
    if canceled {
        return Err(ConvertError::Canceled);
    }
    if code < 0 {
        if message.is_empty() {
            let mut out: Vec<char> = Vec::new();
            push_str(&mut out, "libav failed: ");
            push_chars(&mut out, crate::text::signed_decimal_chars(code as i64).as_slice());
            return Err(ConvertError::Failed { message: string_of(out.as_slice()) });
        }
        return Err(ConvertError::Failed { message: owned(message) });
    }
    Ok(())
}

/// The text `TryFromIntError` displays.
pub open spec fn conversion_overflow_text() -> Seq<char> {
    "out of range integral type conversion attempted"@
}

pub open spec fn overflows(intervals: Seq<AudioInterval>) -> bool {
    exists|i: int|
        0 <= i < intervals.len() && ((#[trigger] intervals[i]).start_frame > i64::MAX
            || intervals[i].end_frame > i64::MAX)
}

pub open spec fn signed_ranges(intervals: Seq<AudioInterval>) -> Seq<(i64, i64)> {
    intervals.map_values(|x: AudioInterval| (x.start_frame as i64, x.end_frame as i64))
}

/// The kept ranges as the signed 64-bit pairs the native side takes; no
/// range at all means no speech.
pub fn native_ranges(intervals: &Vec<AudioInterval>) -> (r: Result<Vec<(i64, i64)>, ConvertError>)
    ensures
        overflows(intervals@) ==> (r matches Err(ConvertError::Failed { message }) && message@
            == conversion_overflow_text()),
        !overflows(intervals@) && intervals@.len() == 0 ==> (r matches Err(ConvertError::NoSpeech)),
        !overflows(intervals@) && intervals@.len() > 0 ==> (r matches Ok(v) && v@ == signed_ranges(
            intervals@,
        )),
{
    let mut out: Vec<(i64, i64)> = Vec::new();
    let mut i: usize = 0;
    while i < intervals.len()
        invariant
            0 <= i <= intervals@.len(),
            out@ == signed_ranges(intervals@.take(i as int)),
            forall|k: int|
                0 <= k < i ==> (#[trigger] intervals@[k]).start_frame <= i64::MAX
                    && intervals@[k].end_frame <= i64::MAX,
        decreases intervals@.len() - i,
    {
        let x = intervals[i];
        if x.start_frame > 0x7fff_ffff_ffff_ffff || x.end_frame > 0x7fff_ffff_ffff_ffff {
            assert(overflows(intervals@));
            return Err(ConvertError::Failed { message: owned("out of range integral type conversion attempted") });
        }
        out.push((x.start_frame as i64, x.end_frame as i64));
        proof {
            assert(signed_ranges(intervals@.take(i as int + 1)) =~= signed_ranges(intervals@.take(i as int)).push(
                (x.start_frame as i64, x.end_frame as i64),
            ));
        }
        i = i + 1;
    }
    proof {
        assert(intervals@.take(intervals@.len() as int) =~= intervals@);
    }
    if out.len() == 0 {
        return Err(ConvertError::NoSpeech);
    }
    Ok(out)
}

} // verus!
