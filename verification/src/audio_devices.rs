//! Input-device descriptions and the PCM capture format read from a
//! `WAVEFORMATEX` / `WAVEFORMATEXTENSIBLE` structure.
use vstd::prelude::*;

use crate::text::owned;

verus! {

/// An active capture endpoint: its stable ID, display name and whether it is
/// the system default.
#[derive(Debug, Clone)]
pub struct InputDevice {
    pub id: String,
    pub name: String,
    pub is_default: bool,
}

/// The exact PCM format of a capture stream. `wave_format` keeps the raw
/// structure so valid bits and channel mask survive into the temporary WAV.
#[derive(Debug, Clone)]
pub struct CaptureFormat {
    pub sample_rate: u32,
    pub channels: u16,
    pub bits_per_sample: u16,
    pub valid_bits: u16,
    pub is_float: bool,
    pub block_align: u16,
    pub wave_format: Vec<u8>,
}

/// Little-endian 16-bit value at `i`.
pub open spec fn le16(b: Seq<u8>, i: int) -> int {
    b[i] + 256 * b[i + 1]
}

/// Little-endian 32-bit value at `i`.
pub open spec fn le32(b: Seq<u8>, i: int) -> int {
    b[i] + 256 * b[i + 1] + 65536 * b[i + 2] + 16777216 * b[i + 3]
}

/// The tail of `KSDATAFORMAT_SUBTYPE_PCM` / `_IEEE_FLOAT` after the first
/// four bytes.
pub open spec fn subtype_tail() -> Seq<u8> {
    seq![0u8, 0, 16, 0, 128, 0, 0, 170, 0, 56, 155, 113]
}

/// Length of the structure: the 18-byte header plus its declared extension.
pub open spec fn format_size(b: Seq<u8>) -> int {
    18 + le16(b, 16)
}

pub open spec fn is_extensible(b: Seq<u8>) -> bool {
    le16(b, 0) == 0xfffe
}

/// The encoding tag: the subtype's first dword when extensible, else the tag.
pub open spec fn encoding(b: Seq<u8>) -> int {
    if is_extensible(b) {
        le32(b, 24)
    } else {
        le16(b, 0)
    }
}

pub open spec fn valid_bits_of(b: Seq<u8>) -> int {
    if is_extensible(b) {
        le16(b, 18)
    } else {
        le16(b, 14)
    }
}

/// Integer PCM (tag 1) or 32-bit float (tag 3), with a consistent block
/// alignment and byte rate.
pub open spec fn supported_pcm(b: Seq<u8>) -> bool {
    let channels = le16(b, 2);
    let rate = le32(b, 4);
    let bits = le16(b, 14);
    let valid = valid_bits_of(b);
    let enc = encoding(b);
    &&& enc == 1 || enc == 3
    &&& channels != 0
    &&& rate != 0
    &&& bits == 8 || bits == 16 || bits == 24 || bits == 32
    &&& valid != 0
    &&& valid <= bits
    &&& enc == 3 ==> bits == 32 && valid == 32
    &&& le16(b, 12) == channels * (bits / 8)
    &&& rate * le16(b, 12) == le32(b, 8)
}

/// Why a structure is refused, or `None` when it is accepted.
pub open spec fn format_refusal(b: Seq<u8>) -> Option<Seq<char>> {
    if b.len() < 18 {
        Some("incomplete capture format"@)
    } else if format_size(b) > b.len() {
        Some("incomplete extended capture format"@)
    } else if is_extensible(b) && (format_size(b) < 40 || b.subrange(28, 40) != subtype_tail()) {
        Some("unsupported capture subtype"@)
    } else if !supported_pcm(b) {
        Some("unsupported or invalid PCM capture format"@)
    } else {
        None
    }
}

/// The fields of an accepted structure.
pub open spec fn format_fields(b: Seq<u8>, f: CaptureFormat) -> bool {
    &&& f.sample_rate == le32(b, 4)
    &&& f.channels == le16(b, 2)
    &&& f.bits_per_sample == le16(b, 14)
    &&& f.valid_bits == valid_bits_of(b)
    &&& f.is_float == (encoding(b) == 3)
    &&& f.block_align == le16(b, 12)
    &&& f.wave_format@ == b.take(format_size(b))
}

fn word(b: &[u8], i: usize) -> (r: u16)
    requires
        i + 1 < b@.len(),
    ensures
        r == le16(b@, i as int),
{
    b[i] as u16 + (b[i + 1] as u16) * 256
}

fn dword(b: &[u8], i: usize) -> (r: u32)
    requires
        i + 3 < b@.len(),
    ensures
        r == le32(b@, i as int),
{
    b[i] as u32 + (b[i + 1] as u32) * 256 + (b[i + 2] as u32) * 65536 + (b[i + 3] as u32)
        * 16777216
}

impl CaptureFormat {
    /// Reads a `WAVEFORMATEX` or `WAVEFORMATEXTENSIBLE` structure, accepting
    /// only integer PCM and 32-bit float with consistent sizes.
    pub fn from_wave_format(bytes: &[u8]) -> (r: Result<Self, String>)
        ensures
            match r {
                Ok(f) => format_refusal(bytes@) is None && format_fields(bytes@, f),
                Err(m) => format_refusal(bytes@) == Some(m@),
            },
    {
        if bytes.len() < 18 {
            return Err(owned("incomplete capture format"));
        }
        let tag = word(bytes, 0);
        let channels = word(bytes, 2);
        let sample_rate = dword(bytes, 4);
        let block_align = word(bytes, 12);
        let bits_per_sample = word(bytes, 14);
        let size: usize = 18 + word(bytes, 16) as usize;
        if size > bytes.len() {
            return Err(owned("incomplete extended capture format"));
        }
        let tail: [u8; 12] = [0, 0, 16, 0, 128, 0, 0, 170, 0, 56, 155, 113];
        let (encoding, valid_bits) = if tag == 0xfffe {
            if size < 40 {
                return Err(owned("unsupported capture subtype"));
            }
            let mut k: usize = 0;
            while k < 12
                invariant
                    0 <= k <= 12,
                    size <= bytes@.len(),
                    bytes@.len() >= 18,
                    size == format_size(bytes@),
                    is_extensible(bytes@),
                    40 <= size,
                    tail@ == subtype_tail(),
                    forall|j: int| 0 <= j < k ==> bytes@[28 + j] == subtype_tail()[j],
                decreases 12 - k,
            {
                if bytes[28 + k] != tail[k] {
                    proof {
                        assert(bytes@.subrange(28, 40)[k as int] != subtype_tail()[k as int]);
                    }
                    return Err(owned("unsupported capture subtype"));
                }
                k = k + 1;
            }
            proof {
                assert(bytes@.subrange(28, 40) =~= subtype_tail());
            }
            (dword(bytes, 24), word(bytes, 18))
        } else {
            (tag as u32, bits_per_sample)
        };
        proof {
            assert(channels * (bits_per_sample / 8) <= u16::MAX * u16::MAX) by (nonlinear_arith)
                requires
                    channels <= u16::MAX,
                    bits_per_sample / 8 <= u16::MAX,
            ;
            assert(0 <= channels * (bits_per_sample / 8)) by (nonlinear_arith)
                requires
                    0 <= channels,
                    0 <= bits_per_sample / 8,
            ;
        }
        let expected_align: u64 = (channels as u64) * ((bits_per_sample / 8) as u64);
        proof {
            assert(sample_rate * block_align <= u32::MAX * u16::MAX) by (nonlinear_arith)
                requires
                    sample_rate <= u32::MAX,
                    block_align <= u16::MAX,
            ;
            assert(0 <= sample_rate * block_align) by (nonlinear_arith)
                requires
                    0 <= sample_rate,
                    0 <= block_align,
            ;
        }
        if !(encoding == 1 || encoding == 3) || channels == 0 || sample_rate == 0 || !(
        bits_per_sample == 8 || bits_per_sample == 16 || bits_per_sample == 24 || bits_per_sample
            == 32) || valid_bits == 0 || valid_bits > bits_per_sample || (encoding == 3 && (
        bits_per_sample != 32 || valid_bits != 32)) || (block_align as u64) != expected_align || (sample_rate as u64) * (block_align as u64) != (
        dword(bytes, 8) as u64) {
            return Err(owned("unsupported or invalid PCM capture format"));
        }
        let mut wave_format: Vec<u8> = Vec::new();
        let mut i: usize = 0;
        while i < size
            invariant
                0 <= i <= size <= bytes@.len(),
                wave_format@ == bytes@.take(i as int),
            decreases size - i,
        {
            wave_format.push(bytes[i]);
            proof {
                assert(bytes@.take(i as int + 1) =~= bytes@.take(i as int).push(bytes@[i as int]));
            }
            i = i + 1;
        }
        Ok(CaptureFormat {
            sample_rate,
            channels,
            bits_per_sample,
            valid_bits,
            is_float: encoding == 3,
            block_align,
            wave_format,
        })
    }
}

/// Why capture endpoints cannot be listed or opened here: capture goes
/// through WASAPI, which this build does not link.
pub open spec fn capture_unavailable_text() -> Seq<char> {
    "Microphone capture is only available on Windows"@
}

/// Lists active capture endpoints only. No API configuration is required.
/// Without WASAPI there is no endpoint to ask, so this reports why.
pub fn list_input_devices() -> (r: Result<Vec<InputDevice>, String>)
    ensures
        r matches Err(m) && m@ == capture_unavailable_text(),
{
    Err(owned("Microphone capture is only available on Windows"))
}

/// The format that would be used for an input (an empty ID is the default
/// one), without starting to record. Opening an input needs WASAPI, so this
/// reports why it cannot.
pub fn input_device_format(device_id: &str) -> (r: Result<CaptureFormat, String>)
    ensures
        r matches Err(m) && m@ == capture_unavailable_text(),
{
    let _ = device_id;
    Err(owned("Microphone capture is only available on Windows"))
}

} // verus!
