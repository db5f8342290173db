//! The bytes of a lossless capture WAV: the header built from the capture
//! format, packets packed without conversion, and the size fields written
//! when the recording ends. Writing them to a file is left to the caller.
use vstd::prelude::*;

use crate::audio_devices::CaptureFormat;

verus! {

/// A capture format this encoder can store: integer or float PCM whose
/// sizes agree, as [`CaptureFormat::from_wave_format`] guarantees.
pub open spec fn storable(f: CaptureFormat) -> bool {
    &&& 18 <= f.wave_format@.len() <= 65553
    &&& f.bits_per_sample == 8 || f.bits_per_sample == 16 || f.bits_per_sample == 24
        || f.bits_per_sample == 32
    &&& 1 <= f.valid_bits <= f.bits_per_sample
    &&& f.channels >= 1
    &&& f.block_align == f.channels * (f.bits_per_sample / 8)
    &&& f.sample_rate * f.block_align <= u32::MAX
}

/// Every format that `from_wave_format` accepts can be stored.
pub proof fn accepted_formats_are_storable(b: Seq<u8>, f: CaptureFormat)
    requires
        crate::audio_devices::format_refusal(b) is None,
        crate::audio_devices::format_fields(b, f),
    ensures
        storable(f),
{
    assert(f.wave_format@.len() == crate::audio_devices::format_size(b));
    assert(crate::audio_devices::le32(b, 8) <= u32::MAX);
}

/// The four little-endian bytes of `n`.
pub open spec fn le32_bytes(n: int) -> Seq<u8> {
    seq![
        (n % 256) as u8,
        ((n / 256) % 256) as u8,
        ((n / 65536) % 256) as u8,
        ((n / 16777216) % 256) as u8,
    ]
}

pub open spec fn le16_bytes(n: int) -> Seq<u8> {
    seq![(n % 256) as u8, ((n / 256) % 256) as u8]
}

/// Bytes kept per sample: the valid bits rounded up to whole bytes.
pub open spec fn stored_bytes_of(f: CaptureFormat) -> int {
    (f.valid_bits + 7) / 8
}

pub open spec fn stored_align_of(f: CaptureFormat) -> int {
    f.channels * stored_bytes_of(f)
}

/// The format structure with byte rate, block alignment and container bits
/// rewritten for the packed samples.
pub open spec fn stored_format(f: CaptureFormat) -> Seq<u8> {
    let w = f.wave_format@;
    w.take(8) + le32_bytes(f.sample_rate * stored_align_of(f)) + le16_bytes(stored_align_of(f))
        + le16_bytes(stored_bytes_of(f) * 8) + w.skip(16)
}

/// `RIFF`, a size to be patched, `WAVE`, and the `fmt ` chunk id.
pub open spec fn riff_intro() -> Seq<u8> {
    seq![82u8, 73, 70, 70, 0, 0, 0, 0, 87, 65, 86, 69, 102, 109, 116, 32]
}

/// A `fact` chunk whose sample count is patched later, then the `data` chunk
/// header whose size is patched later.
pub open spec fn fact_and_data() -> Seq<u8> {
    seq![102u8, 97, 99, 116, 4, 0, 0, 0, 0, 0, 0, 0, 100, 97, 116, 97, 0, 0, 0, 0]
}

/// The header written when the capture file is created.
pub open spec fn wav_header(f: CaptureFormat) -> Seq<u8> {
    let fmt = stored_format(f);
    riff_intro() + le32_bytes(fmt.len() as int) + fmt + (if fmt.len() % 2 == 1 {
        seq![0u8]
    } else {
        Seq::empty()
    }) + fact_and_data()
}

/// One sample packed: the top `stored` bytes of `input` little-endian bytes;
/// a single kept byte is flipped to unsigned 8-bit PCM.
pub open spec fn pack_sample(sample: Seq<u8>, stored: int) -> Seq<u8> {
    let kept = sample.skip(sample.len() - stored);
    if stored == 1 {
        seq![kept[0] ^ 0x80u8]
    } else {
        kept
    }
}

/// A packet packed sample by sample; unchanged when nothing is dropped.
pub open spec fn pack_samples(b: Seq<u8>, input: int, stored: int) -> Seq<u8>
    decreases b.len(),
{
    if input <= 0 || b.len() < input {
        Seq::empty()
    } else {
        pack_samples(b.take(b.len() - input), input, stored) + pack_sample(
            b.subrange(b.len() - input, b.len() as int),
            stored,
        )
    }
}

pub open spec fn packed(b: Seq<u8>, input: int, stored: int) -> Seq<u8> {
    if input == stored {
        b
    } else {
        pack_samples(b, input, stored)
    }
}

/// Incremental encoder of a capture WAV file.
pub struct WavEncoder {
    format: CaptureFormat,
    data_size: u32,
    data_start: u64,
    block_align: u16,
    input_block_align: u16,
    input_bytes: usize,
    stored_bytes: usize,
}

impl WavEncoder {
    pub closed spec fn wf(self) -> bool {
        &&& storable(self.format)
        &&& self.input_bytes == self.format.bits_per_sample / 8
        &&& self.stored_bytes == stored_bytes_of(self.format)
        &&& 1 <= self.stored_bytes <= self.input_bytes <= 4
        &&& self.block_align == stored_align_of(self.format)
        &&& self.input_block_align == self.format.block_align
        &&& self.input_block_align == self.format.channels * self.input_bytes
        &&& self.data_start == wav_header(self.format).len()
        &&& self.data_start >= 12
        &&& self.block_align >= 1
        &&& self.input_block_align >= 1
    }

    /// The capture format this file stores.
    pub closed spec fn capture_format(self) -> CaptureFormat {
        self.format
    }

    /// Bytes of sample data written so far.
    pub closed spec fn data_len(self) -> u32 {
        self.data_size
    }

    /// Offset of the first sample byte.
    pub closed spec fn data_offset(self) -> int {
        self.data_start as int
    }

    /// Starts a file: returns the encoder and the header to write first.
    pub fn new(format: CaptureFormat) -> (r: (WavEncoder, Vec<u8>))
        requires
            storable(format),
        ensures
            r.0.wf(),
            r.0.capture_format() == format,
            r.0.data_len() == 0,
            r.1@ == wav_header(format),
            r.0.data_offset() == r.1@.len(),
    {
        let input_bytes: usize = (format.bits_per_sample / 8) as usize;
        let stored_bytes: usize = ((format.valid_bits + 7) / 8) as usize;
        proof {
            assert(stored_bytes <= input_bytes);
            assert(format.channels * stored_bytes <= format.channels * input_bytes)
                by (nonlinear_arith)
                requires
                    stored_bytes <= input_bytes,
                    0 <= format.channels,
            ;
            assert(format.sample_rate * (format.channels * stored_bytes) <= format.sample_rate * (
            format.channels * input_bytes)) by (nonlinear_arith)
                requires
                    format.channels * stored_bytes <= format.channels * input_bytes,
                    0 <= format.sample_rate,
            ;
            assert(1 <= format.channels * stored_bytes) by (nonlinear_arith)
                requires
                    1 <= format.channels,
                    1 <= stored_bytes,
            ;
        }
        let block_align: u16 = (format.channels as usize * stored_bytes) as u16;
        let stored_bits: u16 = (stored_bytes as u16) * 8;
        let byte_rate: u32 = format.sample_rate * (block_align as u32);
        let w = &format.wave_format;
        let mut header: Vec<u8> = Vec::new();
        let intro: [u8; 16] = [82u8, 73, 70, 70, 0, 0, 0, 0, 87, 65, 86, 69, 102, 109, 116, 32];
        push_bytes(&mut header, intro.as_slice());
        push_le32(&mut header, w.len() as u32);
        let ghost fmt_start = header@.len();
        proof {
            assert(header@ =~= riff_intro() + le32_bytes(w@.len() as int));
            assert(header@.take(fmt_start as int) =~= header@);
            assert(header@.skip(fmt_start as int) =~= w@.take(0));
            assert(format.block_align >= 1) by (nonlinear_arith)
                requires
                    format.block_align == format.channels * (format.bits_per_sample / 8),
                    format.channels >= 1,
                    format.bits_per_sample / 8 >= 1,
            ;
        }
        let mut i: usize = 0;
        while i < w.len()
            invariant
                0 <= i <= w@.len(),
                w@.len() >= 18,
                header@.len() == fmt_start + i,
                header@.take(fmt_start as int) == riff_intro() + le32_bytes(w@.len() as int),
                header@.skip(fmt_start as int) == (if i <= 8 {
                    w@.take(i as int)
                } else if i <= 12 {
                    w@.take(8) + le32_bytes(byte_rate as int).take(i - 8)
                } else if i <= 14 {
                    w@.take(8) + le32_bytes(byte_rate as int) + le16_bytes(block_align as int).take(
                        i - 12,
                    )
                } else if i <= 16 {
                    w@.take(8) + le32_bytes(byte_rate as int) + le16_bytes(block_align as int)
                        + le16_bytes(stored_bits as int).take(i - 14)
                } else {
                    w@.take(8) + le32_bytes(byte_rate as int) + le16_bytes(block_align as int)
                        + le16_bytes(stored_bits as int) + w@.subrange(16, i as int)
                }),
            decreases w@.len() - i,
        {
            let byte: u8 = if i < 8 {
                w[i]
            } else if i < 12 {
                le32_byte(byte_rate, i - 8)
            } else if i < 14 {
                le16_byte(block_align, i - 12)
            } else if i < 16 {
                le16_byte(stored_bits, i - 14)
            } else {
                w[i]
            };
            let ghost before = header@;
            header.push(byte);
            proof {
                assert(header@.take(fmt_start as int) =~= before.take(fmt_start as int));
                assert(header@.skip(fmt_start as int) =~= before.skip(fmt_start as int).push(byte));
                if i < 8 {
                    assert(w@.take(i as int + 1) =~= w@.take(i as int).push(w@[i as int]));
                } else if i < 12 {
                    assert(le32_bytes(byte_rate as int).take(i - 7) =~= le32_bytes(
                        byte_rate as int,
                    ).take(i - 8).push(byte));
                    if i == 11 {
                        assert(le32_bytes(byte_rate as int).take(4) =~= le32_bytes(
                            byte_rate as int,
                        ));
                    }
                } else if i < 14 {
                    assert(le16_bytes(block_align as int).take(i - 11) =~= le16_bytes(
                        block_align as int,
                    ).take(i - 12).push(byte));
                    if i == 13 {
                        assert(le16_bytes(block_align as int).take(2) =~= le16_bytes(
                            block_align as int,
                        ));
                    }
                    if i == 12 {
                        assert(le32_bytes(byte_rate as int).take(4) =~= le32_bytes(
                            byte_rate as int,
                        ));
                    }
                } else if i < 16 {
                    assert(le16_bytes(stored_bits as int).take(i - 13) =~= le16_bytes(
                        stored_bits as int,
                    ).take(i - 14).push(byte));
                    if i == 15 {
                        assert(le16_bytes(stored_bits as int).take(2) =~= le16_bytes(
                            stored_bits as int,
                        ));
                    }
                    if i == 14 {
                        assert(le16_bytes(block_align as int).take(2) =~= le16_bytes(
                            block_align as int,
                        ));
                    }
                } else {
                    assert(w@.subrange(16, i as int + 1) =~= w@.subrange(16, i as int).push(
                        w@[i as int],
                    ));
                    if i == 16 {
                        assert(le16_bytes(stored_bits as int).take(2) =~= le16_bytes(
                            stored_bits as int,
                        ));
                    }
                }
            }
            i = i + 1;
        }
        proof {
            assert(w@.subrange(16, w@.len() as int) =~= w@.skip(16));
            assert(header@.skip(fmt_start as int) =~= stored_format(format));
            assert(header@ =~= header@.take(fmt_start as int) + header@.skip(fmt_start as int));
        }
        if w.len() % 2 == 1 {
            header.push(0);
        }
        let chunks: [u8; 20] = [
            102u8, 97, 99, 116, 4, 0, 0, 0, 0, 0, 0, 0, 100, 97, 116, 97, 0, 0, 0, 0,
        ];
        push_bytes(&mut header, chunks.as_slice());
        proof {
            assert(header@ =~= wav_header(format));
        }
        let data_start = header.len() as u64;
        let input_block_align = format.block_align;
        let encoder = WavEncoder {
            format,
            data_size: 0,
            data_start,
            block_align,
            input_block_align,
            input_bytes,
            stored_bytes,
        };
        (encoder, header)
    }

    /// Accepts one capture packet of whole frames and returns the bytes to
    /// append: the same bytes, or each sample reduced to its valid bytes.
    pub fn write(&mut self, packet: &[u8]) -> (r: Result<Vec<u8>, String>)
        requires
            old(self).wf(),
        ensures
            final(self).wf(),
            final(self).capture_format() == old(self).capture_format(),
            final(self).data_offset() == old(self).data_offset(),
            (packet@.len() as int) % (old(self).capture_format().block_align as int) != 0 ==> (r
                matches Err(m) && m@ == "capture packet contains an incomplete frame"@),
            match r {
                Ok(bytes) => {
                    &&& (packet@.len() as int) % (old(self).capture_format().block_align as int) == 0
                    &&& bytes@ == packed(
                        packet@,
                        (old(self).capture_format().bits_per_sample / 8) as int,
                        stored_bytes_of(old(self).capture_format()),
                    )
                    &&& final(self).data_len() == old(self).data_len() + bytes@.len()
                    &&& final(self).data_len() + old(self).data_offset() + 1 <= u32::MAX
                },
                Err(_) => final(self).data_len() == old(self).data_len(),
            },
    {
        let samples = packet.len() / self.input_bytes;
        proof {
            assert(samples * self.stored_bytes <= packet@.len() as int) by (nonlinear_arith)
                requires
                    samples as int == (packet@.len() as int) / (self.input_bytes as int),
                    1 <= self.stored_bytes <= self.input_bytes,
            ;
        }
        let added = (samples * self.stored_bytes) as u128;
        let new_size: u128 = self.data_size as u128 + added;
        if packet.len() % (self.input_block_align as usize) != 0 {
            return Err(crate::text::string_of(
                crate::text::chars_of("capture packet contains an incomplete frame").as_slice(),
            ));
        }
        if new_size + self.data_start as u128 + 1 > u32::MAX as u128 {
            return Err(crate::text::string_of(
                crate::text::chars_of("recording exceeds WAV size limit").as_slice(),
            ));
        }
        proof {
            lemma_multiple_of_frame(packet@.len() as int, self.format.channels as int,
                self.input_bytes as int);
        }
        let out = if self.input_bytes == self.stored_bytes {
            copy_bytes(packet)
        } else {
            pack_packet(packet, self.input_bytes, self.stored_bytes)
        };
        proof {
            if self.input_bytes != self.stored_bytes {
                lemma_pack_samples_len(packet@, self.input_bytes as int, self.stored_bytes as int);
            }
            if self.input_bytes == self.stored_bytes {
                assert(packet@.len() as int == samples * self.stored_bytes) by (nonlinear_arith)
                    requires
                        samples as int == (packet@.len() as int) / (self.input_bytes as int),
                        (packet@.len() as int) % (self.input_bytes as int) == 0,
                        self.input_bytes == self.stored_bytes,
                        self.input_bytes >= 1,
                ;
            }
        }
        self.data_size = new_size as u32;
        Ok(out)
    }

    /// Finishes the file: the bytes to append (a pad byte when the data size
    /// is odd) and the patches `(offset, bytes)` for the RIFF size, the
    /// `fact` sample-frame count and the `data` size.
    pub fn finish(&self) -> (r: (Vec<u8>, Vec<(u64, Vec<u8>)>))
        requires
            self.wf(),
            self.data_len() + self.data_offset() + 1 <= u32::MAX,
        ensures
            r.0@ == (if self.data_len() % 2 == 1 { seq![0u8] } else { Seq::<u8>::empty() }),
            r.1@.len() == 3,
            r.1@[0].0 == 4,
            r.1@[0].1@ == le32_bytes(self.data_offset() - 8 + self.data_len() + r.0@.len()),
            r.1@[1].0 == self.data_offset() - 12,
            r.1@[1].1@ == le32_bytes((self.data_len() as int) / stored_align_of(self.capture_format())),
            r.1@[2].0 == self.data_offset() - 4,
            r.1@[2].1@ == le32_bytes(self.data_len() as int),
    {
        let padding: u32 = self.data_size % 2;
        let mut tail: Vec<u8> = Vec::new();
        if padding != 0 {
            tail.push(0);
        }
        let riff: u32 = (self.data_start - 8) as u32 + self.data_size + padding;
        let frames: u32 = self.data_size / (self.block_align as u32);
        let mut patches: Vec<(u64, Vec<u8>)> = Vec::new();
        patches.push((4, le32_vec(riff)));
        patches.push((self.data_start - 12, le32_vec(frames)));
        patches.push((self.data_start - 4, le32_vec(self.data_size)));
        proof {
            assert(tail@ =~= (if self.data_size % 2 == 1 {
                seq![0u8]
            } else {
                Seq::<u8>::empty()
            }));
        }
        (tail, patches)
    }
}

proof fn lemma_pack_samples_len(b: Seq<u8>, input: int, stored: int)
    requires
        1 <= stored <= input,
        (b.len() as int) % input == 0,
    ensures
        pack_samples(b, input, stored).len() == ((b.len() as int) / input) * stored,
    decreases b.len(),
{
    let n = b.len() as int;
    if n >= input {
        let t = b.take(n - input);
        let m = t.len() as int;
        assert(m % input == 0 && m / input == n / input - 1) by (nonlinear_arith)
            requires
                m == n - input,
                n % input == 0,
                n >= input,
                input >= 1,
        ;
        lemma_pack_samples_len(t, input, stored);
        let last = b.subrange(n - input, n);
        assert(pack_samples(b, input, stored) == pack_samples(t, input, stored) + pack_sample(
            last,
            stored,
        ));
        assert(last.skip(last.len() - stored).len() == stored);
        assert(pack_sample(last, stored).len() == stored);
        let q = n / input;
        assert((q - 1) * stored + stored == q * stored) by (nonlinear_arith);
        assert(pack_samples(t, input, stored).len() == (q - 1) * stored);
    } else {
        assert(n == 0) by (nonlinear_arith)
            requires
                n % input == 0,
                0 <= n < input,
                input >= 1,
        ;
        assert((n / input) * stored == 0) by (nonlinear_arith)
            requires
                n == 0,
                input >= 1,
        ;
    }
}

proof fn lemma_multiple_of_frame(len: int, channels: int, input: int)
    requires
        channels >= 1,
        input >= 1,
    ensures
        len % (channels * input) == 0 ==> len % input == 0,
{
    if len % (channels * input) == 0 {
        assert(channels * input > 0) by (nonlinear_arith)
            requires
                channels >= 1,
                input >= 1,
        ;
        let q = len / (channels * input);
        vstd::arithmetic::div_mod::lemma_fundamental_div_mod(len, channels * input);
        assert(len == (q * channels) * input) by (nonlinear_arith)
            requires
                len == (channels * input) * q + 0,
        ;
        vstd::arithmetic::div_mod::lemma_mod_multiples_basic(q * channels, input);
    }
}

fn le32_byte(n: u32, k: usize) -> (r: u8)
    requires
        k < 4,
    ensures
        r == le32_bytes(n as int)[k as int],
{
    if k == 0 {
        (n % 256) as u8
    } else if k == 1 {
        ((n / 256) % 256) as u8
    } else if k == 2 {
        ((n / 65536) % 256) as u8
    } else {
        ((n / 16777216) % 256) as u8
    }
}

fn le16_byte(n: u16, k: usize) -> (r: u8)
    requires
        k < 2,
    ensures
        r == le16_bytes(n as int)[k as int],
{
    if k == 0 {
        (n % 256) as u8
    } else {
        ((n / 256) % 256) as u8
    }
}

fn le32_vec(n: u32) -> (r: Vec<u8>)
    ensures
        r@ == le32_bytes(n as int),
{
    let mut r: Vec<u8> = Vec::new();
    r.push((n % 256) as u8);
    r.push(((n / 256) % 256) as u8);
    r.push(((n / 65536) % 256) as u8);
    r.push(((n / 16777216) % 256) as u8);
    proof {
        assert(r@ =~= le32_bytes(n as int));
    }
    r
}

fn push_le32(v: &mut Vec<u8>, n: u32)
    ensures
        final(v)@ == old(v)@ + le32_bytes(n as int),
{
    let bytes = le32_vec(n);
    push_bytes(v, bytes.as_slice());
}

fn push_bytes(v: &mut Vec<u8>, w: &[u8])
    ensures
        final(v)@ == old(v)@ + w@,
{
    let ghost start = v@;
    let mut i: usize = 0;
    while i < w.len()
        invariant
            0 <= i <= w@.len(),
            v@ == start + w@.take(i as int),
        decreases w@.len() - i,
    {
        v.push(w[i]);
        proof {
            assert(start + w@.take(i as int + 1) =~= (start + w@.take(i as int)).push(w@[i as int]));
        }
        i = i + 1;
    }
    proof {
        assert(w@.take(w@.len() as int) =~= w@);
    }
}

fn copy_bytes(w: &[u8]) -> (r: Vec<u8>)
    ensures
        r@ == w@,
{
    let mut r: Vec<u8> = Vec::new();
    push_bytes(&mut r, w);
    proof {
        assert(Seq::<u8>::empty() + w@ =~= w@);
    }
    r
}

fn pack_packet(b: &[u8], input: usize, stored: usize) -> (r: Vec<u8>)
    requires
        1 <= stored <= input <= 4,
        (b@.len() as int) % (input as int) == 0,
    ensures
        r@ == pack_samples(b@, input as int, stored as int),
{
    let mut r: Vec<u8> = Vec::new();
    let mut pos: usize = 0;
    while pos < b.len()
        invariant
            1 <= stored <= input <= 4,
            (b@.len() as int) % (input as int) == 0,
            pos % input == 0,
            0 <= pos <= b@.len(),
            r@ == pack_samples(b@.take(pos as int), input as int, stored as int),
        decreases b@.len() - pos,
    {
        proof {
            assert(pos + input <= b@.len()) by (nonlinear_arith)
                requires
                    pos % input == 0,
                    (b@.len() as int) % (input as int) == 0,
                    pos < b@.len(),
                    input >= 1,
            ;
        }
        let start = pos + input - stored;
        let ghost before = r@;
        if stored == 1 {
            r.push(b[start] ^ 0x80u8);
        } else {
            let mut k = start;
            let end = pos + input;
            while k < end
                invariant
                    end == pos + input,
                    end <= b@.len(),
                    start <= k <= end,
                    r@ == before + b@.subrange(start as int, k as int),
                decreases pos + input - k,
            {
                r.push(b[k]);
                proof {
                    assert(b@.subrange(start as int, k + 1) =~= b@.subrange(start as int, k as int).push(
                        b@[k as int],
                    ));
                }
                k = k + 1;
            }
        }
        proof {
            let t = b@.take(pos + input);
            assert(t.take(t.len() - input) =~= b@.take(pos as int));
            let sample = t.subrange(t.len() - input, t.len() as int);
            assert(sample =~= b@.subrange(pos as int, pos + input));
            assert(sample.skip(sample.len() - stored) =~= b@.subrange(start as int, pos + input));
            assert(r@ =~= pack_samples(t, input as int, stored as int));
            assert((pos + input) % (input as int) == 0) by (nonlinear_arith)
                requires
                    pos % input == 0,
                    input >= 1,
            ;
        }
        pos = pos + input;
    }
    proof {
        assert(b@.take(b@.len() as int) =~= b@);
    }
    r
}

} // verus!
