//! The audio settings offered in the settings window: codec aliases,
//! containers, rates and bitrates per codec, and how an explicit selection
//! reconciles the other fields. Loading never rewrites a configuration.
use vstd::prelude::*;

use crate::config::{config_problem, known_codec, known_container, Config};
use crate::converter::{codec_encoder, settings_spec};
use crate::hotkey::round_trip::lemma_decimal_reads_back;
use crate::text::{
    chars_of, decimal, eq_str, is_ascii_upper, lemma_lower_idempotent, lower, lower_chars, owned, parse_i32, parsed_i32, push_str,
    same_chars, signed_decimal, signed_decimal_chars, string_of,
};

verus! {

pub open spec fn str_views(s: Seq<&str>) -> Seq<Seq<char>> {
    s.map_values(|x: &str| x@)
}

/// The configuration keys of the six audio fields, in field order.
pub fn keys() -> (r: [&'static str; 6])
    ensures
        str_views(r@) == seq![
            "CHANNELS"@,
            "SAMPLING_RATE_DEPTH"@,
            "SAMPLING_RATE"@,
            "BIT_RATE"@,
            "CODECS"@,
            "CONTAINER"@,
        ],
{
    let r = ["CHANNELS", "SAMPLING_RATE_DEPTH", "SAMPLING_RATE", "BIT_RATE", "CODECS", "CONTAINER"];
    assert(str_views(r@) =~= seq![
        "CHANNELS"@,
        "SAMPLING_RATE_DEPTH"@,
        "SAMPLING_RATE"@,
        "BIT_RATE"@,
        "CODECS"@,
        "CONTAINER"@,
    ]);
    r
}

/// The sampling rates offered, ascending.
pub open spec fn rate_presets() -> Seq<i32> {
    seq![
        7350i32, 8000, 11025, 12000, 16000, 22050, 24000, 32000, 44100, 48000, 64000, 88200,
        96000, 176400, 192000,
    ]
}

/// The bitrates (kbit/s) offered, ascending.
pub open spec fn bitrate_presets() -> Seq<i32> {
    seq![
        6i32, 8, 10, 12, 16, 20, 24, 28, 32, 40, 44, 48, 50, 56, 60, 64, 80, 96, 100, 112, 120, 128,
        140, 144, 160, 180, 190, 192, 200, 224, 240, 250, 256, 288, 320, 352, 384, 448, 500, 510,
        512, 576, 640,
    ]
}

/// The AMR-WB modes (kbit/s).
pub open spec fn amr_wb_bitrates() -> Seq<i32> {
    seq![7i32, 9, 13, 14, 16, 18, 20, 23, 24]
}

pub fn rate_preset_list() -> (r: Vec<i32>)
    ensures
        r@ == rate_presets(),
{
    let items = [
        7350i32, 8000, 11025, 12000, 16000, 22050, 24000, 32000, 44100, 48000, 64000, 88200,
        96000, 176400, 192000,
    ];
    let r = vstd::slice::slice_to_vec(items.as_slice());
    assert(r@ =~= rate_presets());
    r
}

pub fn bitrate_preset_list() -> (r: Vec<i32>)
    ensures
        r@ == bitrate_presets(),
{
    let items = [
        6i32, 8, 10, 12, 16, 20, 24, 28, 32, 40, 44, 48, 50, 56, 60, 64, 80, 96, 100, 112, 120, 128,
        140, 144, 160, 180, 190, 192, 200, 224, 240, 250, 256, 288, 320, 352, 384, 448, 500, 510,
        512, 576, 640,
    ];
    let r = vstd::slice::slice_to_vec(items.as_slice());
    assert(r@ =~= bitrate_presets());
    r
}

fn amr_wb_bitrate_list() -> (r: Vec<i32>)
    ensures
        r@ == amr_wb_bitrates(),
{
    let items = [7i32, 9, 13, 14, 16, 18, 20, 23, 24];
    let r = vstd::slice::slice_to_vec(items.as_slice());
    assert(r@ =~= amr_wb_bitrates());
    r
}

/// The codecs offered, in menu order.
pub open spec fn codec_names() -> Seq<Seq<char>> {
    seq![
        "opus"@, "mp3"@, "aac"@, "vorbis"@, "flac"@, "alac"@, "ac3"@, "eac3"@, "mp2"@, "adpcm"@,
        "amr"@, "amr_wb"@, "speex"@, "wavpack"@, "wmav1"@, "wmav2"@, "pcm_s8"@, "pcm_alaw"@,
        "pcm_mulaw"@, "pcm"@, "pcm_f32le"@, "pcm_f64le"@, "pcm_s64le"@, "pcm_s16be"@,
        "pcm_s24be"@, "pcm_s32be"@, "pcm_f32be"@, "pcm_f64be"@,
    ]
}

/// The codecs offered with their display names, in menu order.
pub fn codec_choices() -> (r: Vec<(&'static str, &'static str)>)
    ensures
        r@.map_values(|c: (&str, &str)| c.0@) == codec_names(),
{
    let items = [
        ("opus", "Opus"),
        ("mp3", "MP3"),
        ("aac", "AAC"),
        ("vorbis", "Vorbis"),
        ("flac", "FLAC"),
        ("alac", "ALAC"),
        ("ac3", "AC-3"),
        ("eac3", "E-AC-3"),
        ("mp2", "MP2"),
        ("adpcm", "ADPCM (MS)"),
        ("amr", "AMR-NB"),
        ("amr_wb", "AMR-WB"),
        ("speex", "Speex"),
        ("wavpack", "WavPack"),
        ("wmav1", "WMA v1"),
        ("wmav2", "WMA v2"),
        ("pcm_s8", "PCM 8-bit (signed)"),
        ("pcm_alaw", "PCM A-law"),
        ("pcm_mulaw", "PCM \u{3bc}-law"),
        ("pcm", "PCM"),
        ("pcm_f32le", "PCM Float 32-bit"),
        ("pcm_f64le", "PCM Float 64-bit"),
        ("pcm_s64le", "PCM 64-bit (LE)"),
        ("pcm_s16be", "PCM 16-bit (BE)"),
        ("pcm_s24be", "PCM 24-bit (BE)"),
        ("pcm_s32be", "PCM 32-bit (BE)"),
        ("pcm_f32be", "PCM Float 32-bit (BE)"),
        ("pcm_f64be", "PCM Float 64-bit (BE)"),
    ];
    let r = vstd::slice::slice_to_vec(items.as_slice());
    assert(r@.map_values(|c: (&str, &str)| c.0@) =~= codec_names());
    r
}

/// The menu name of a codec or alias (lowercase).
pub open spec fn canonical_of(value: Seq<char>) -> Seq<char> {
    let l = lower(value);
    if l == "libspeex"@ {
        "speex"@
    } else if l == "libvo_amrwbenc"@ {
        "amr_wb"@
    } else if l == "libopencore_amrnb"@ {
        "amr"@
    } else if l == "libopus"@ {
        "opus"@
    } else if l == "libvorbis"@ || l == "vorb"@ {
        "vorbis"@
    } else if l == "pcm_s16le"@ || l == "pcm_s24le"@ || l == "pcm_s32le"@ {
        "pcm"@
    } else {
        l
    }
}

fn canonical_chars(value: &[char]) -> (r: Vec<char>)
    ensures
        r@ == canonical_of(value@),
{
    let l = lower_chars(value);
    if eq_str(l.as_slice(), "libspeex") {
        chars_of("speex")
    } else if eq_str(l.as_slice(), "libvo_amrwbenc") {
        chars_of("amr_wb")
    } else if eq_str(l.as_slice(), "libopencore_amrnb") {
        chars_of("amr")
    } else if eq_str(l.as_slice(), "libopus") {
        chars_of("opus")
    } else if eq_str(l.as_slice(), "libvorbis") || eq_str(l.as_slice(), "vorb") {
        chars_of("vorbis")
    } else if eq_str(l.as_slice(), "pcm_s16le") || eq_str(l.as_slice(), "pcm_s24le") || eq_str(
        l.as_slice(),
        "pcm_s32le",
    ) {
        chars_of("pcm")
    } else {
        l
    }
}

/// The menu name of a codec or alias.
pub fn canonical(value: &str) -> (r: String)
    ensures
        r@ == canonical_of(value@),
{
    string_of(canonical_chars(chars_of(value).as_slice()).as_slice())
}


/// Whether a codec takes a sampling rate from the presets.
pub open spec fn rate_allowed(codec: Seq<char>, r: int) -> bool {
    if codec == "opus"@ {
        r == 8000 || r == 12000 || r == 16000 || r == 24000 || r == 48000
    } else if codec == "mp3"@ {
        8000 <= r <= 48000
    } else if codec == "mp2"@ {
        r == 16000 || r == 22050 || r == 24000 || r == 32000 || r == 44100 || r == 48000
    } else if codec == "ac3"@ || codec == "eac3"@ {
        r == 32000 || r == 44100 || r == 48000
    } else if codec == "amr"@ {
        r == 8000
    } else if codec == "amr_wb"@ {
        r == 16000
    } else if codec == "speex"@ {
        r == 8000 || r == 16000 || r == 32000
    } else if codec == "wmav1"@ || codec == "wmav2"@ {
        8000 <= r <= 48000
    } else if codec == "aac"@ {
        r <= 96000
    } else if codec == "vorbis"@ {
        8000 <= r <= 48000
    } else {
        true
    }
}

fn rate_allowed_exec(codec: &[char], r: i32) -> (b: bool)
    ensures
        b == rate_allowed(codec@, r as int),
{
    if eq_str(codec, "opus") {
        r == 8000 || r == 12000 || r == 16000 || r == 24000 || r == 48000
    } else if eq_str(codec, "mp3") {
        8000 <= r && r <= 48000
    } else if eq_str(codec, "mp2") {
        r == 16000 || r == 22050 || r == 24000 || r == 32000 || r == 44100 || r == 48000
    } else if eq_str(codec, "ac3") || eq_str(codec, "eac3") {
        r == 32000 || r == 44100 || r == 48000
    } else if eq_str(codec, "amr") {
        r == 8000
    } else if eq_str(codec, "amr_wb") {
        r == 16000
    } else if eq_str(codec, "speex") {
        r == 8000 || r == 16000 || r == 32000
    } else if eq_str(codec, "wmav1") || eq_str(codec, "wmav2") {
        8000 <= r && r <= 48000
    } else if eq_str(codec, "aac") {
        r <= 96000
    } else if eq_str(codec, "vorbis") {
        8000 <= r && r <= 48000
    } else {
        true
    }
}

/// The presets a codec allows, in order.
pub open spec fn kept_rates(codec: Seq<char>, s: Seq<i32>) -> Seq<i32>
    decreases s.len(),
{
    if s.len() == 0 {
        Seq::empty()
    } else if rate_allowed(codec, s.last() as int) {
        kept_rates(codec, s.drop_last()).push(s.last())
    } else {
        kept_rates(codec, s.drop_last())
    }
}

/// Integer division rounding toward zero.
pub open spec fn div_trunc(a: int, b: int) -> int {
    if a >= 0 {
        a / b
    } else {
        -((-a) / b)
    }
}

/// Bitrates that the codec's encoder accepts at `rate` Hz with `channels`
/// channels.
pub open spec fn supports_bitrate(codec: Seq<char>, rate: int, channels: int, b: int) -> bool {
    let low_rate_set = seq![8int, 16, 24, 32, 40, 48, 56, 64, 80, 96, 112, 128, 144, 160];
    if codec == "opus"@ {
        6 <= b && b <= if 256 * channels <= 510 {
            256 * channels
        } else {
            510
        }
    } else if codec == "mp3"@ {
        if rate < 32000 {
            low_rate_set.contains(b)
        } else {
            seq![32int, 40, 48, 56, 64, 80, 96, 112, 128, 160, 192, 224, 256, 320].contains(b)
        }
    } else if codec == "mp2"@ {
        if rate < 32000 {
            low_rate_set.contains(b)
        } else {
            seq![32int, 48, 56, 64, 80, 96, 112, 128, 160, 192, 224, 256, 320, 384].contains(b)
        }
    } else if codec == "ac3"@ {
        seq![
            32int, 40, 48, 56, 64, 80, 96, 112, 128, 160, 192, 224, 256, 320, 384, 448, 512,
            576, 640,
        ].contains(b)
    } else if codec == "eac3"@ {
        b >= 32 && b <= div_trunc(128 * rate, 1000)
    } else if codec == "aac"@ {
        b >= 8 && b <= div_trunc(6 * rate * channels, 1000)
    } else if codec == "vorbis"@ {
        let stereo = channels == 2;
        let (low, high) = if 0 <= rate <= 8999 {
            if stereo {
                (6int, 32int)
            } else {
                (8, 42)
            }
        } else if 9000 <= rate <= 14999 {
            if stereo {
                (8, 44)
            } else {
                (12, 50)
            }
        } else if 15000 <= rate <= 18999 {
            if stereo {
                (12, 86)
            } else {
                (16, 100)
            }
        } else if 19000 <= rate <= 25999 {
            if stereo {
                (15, 86)
            } else {
                (16, 90)
            }
        } else if 26000 <= rate <= 39999 {
            if stereo {
                (18, 190)
            } else {
                (30, 190)
            }
        } else if stereo {
            (23, 250)
        } else {
            (32, 240)
        };
        b >= low * channels && b <= high * channels
    } else if codec == "amr"@ {
        b == 6 || b == 8 || b == 10 || b == 12
    } else if codec == "amr_wb"@ {
        seq![7int, 9, 13, 14, 16, 18, 20, 23, 24].contains(b)
    } else if codec == "speex"@ {
        6 <= b <= 44
    } else if codec == "wmav1"@ || codec == "wmav2"@ {
        24 <= b <= 320
    } else {
        false
    }
}

fn member(b: i64, items: &[i64]) -> (r: bool)
    ensures
        r == items@.map_values(|x: i64| x as int).contains(b as int),
{
    let ghost view = items@.map_values(|x: i64| x as int);
    let mut i: usize = 0;
    while i < items.len()
        invariant
            0 <= i <= items@.len(),
            view == items@.map_values(|x: i64| x as int),
            forall|k: int| 0 <= k < i ==> view[k] != b as int,
        decreases items@.len() - i,
    {
        if items[i] == b {
            assert(view[i as int] == b as int);
            return true;
        }
        i = i + 1;
    }
    false
}

proof fn lemma_int_list(items: Seq<i64>, spec_list: Seq<int>)
    requires
        items.len() == spec_list.len(),
        forall|k: int| 0 <= k < items.len() ==> items[k] as int == spec_list[k],
    ensures
        items.map_values(|x: i64| x as int) == spec_list,
{
    assert(items.map_values(|x: i64| x as int) =~= spec_list);
}

fn supports_bitrate_exec(codec: &[char], rate: i64, channels: i64, b: i64) -> (r: bool)
    requires
        -0x8000_0000 <= rate <= 0x7fff_ffff,
        1 <= channels <= 0x7fff_ffff,
    ensures
        r == supports_bitrate(codec@, rate as int, channels as int, b as int),
{
    let low_rate_set = [8i64, 16, 24, 32, 40, 48, 56, 64, 80, 96, 112, 128, 144, 160];
    proof {
        lemma_int_list(low_rate_set@, seq![8int, 16, 24, 32, 40, 48, 56, 64, 80, 96, 112, 128, 144, 160]);
    }
    if eq_str(codec, "opus") {
        let cap: i64 = if channels <= 1 {
            256
        } else if channels <= 2 {
            510
        } else {
            510
        };
        assert(cap == if 256 * channels <= 510 { 256 * channels } else { 510 });
        6 <= b && b <= cap
    } else if eq_str(codec, "mp3") {
        if rate < 32000 {
            member(b, low_rate_set.as_slice())
        } else {
            let high = [32i64, 40, 48, 56, 64, 80, 96, 112, 128, 160, 192, 224, 256, 320];
            proof {
                lemma_int_list(high@, seq![32int, 40, 48, 56, 64, 80, 96, 112, 128, 160, 192, 224, 256, 320]);
            }
            member(b, high.as_slice())
        }
    } else if eq_str(codec, "mp2") {
        if rate < 32000 {
            member(b, low_rate_set.as_slice())
        } else {
            let high = [32i64, 48, 56, 64, 80, 96, 112, 128, 160, 192, 224, 256, 320, 384];
            proof {
                lemma_int_list(high@, seq![32int, 48, 56, 64, 80, 96, 112, 128, 160, 192, 224, 256, 320, 384]);
            }
            member(b, high.as_slice())
        }
    } else if eq_str(codec, "ac3") {
        let all = [
            32i64, 40, 48, 56, 64, 80, 96, 112, 128, 160, 192, 224, 256, 320, 384, 448, 512, 576,
            640,
        ];
        proof {
            lemma_int_list(all@, seq![
                32int, 40, 48, 56, 64, 80, 96, 112, 128, 160, 192, 224, 256, 320, 384, 448, 512,
                576, 640,
            ]);
        }
        member(b, all.as_slice())
    } else if eq_str(codec, "eac3") {
        let n: i64 = 128 * rate;
        let limit = if n >= 0 {
            n / 1000
        } else {
            -((-n) / 1000)
        };
        b >= 32 && b <= limit
    } else if eq_str(codec, "aac") {
        assert(-6 * 0x8000_0000 * 0x7fff_ffff <= 6 * rate * channels <= 6 * 0x7fff_ffff * 0x7fff_ffff)
            by (nonlinear_arith)
            requires
                -0x8000_0000 <= rate <= 0x7fff_ffff,
                1 <= channels <= 0x7fff_ffff,
        ;
        let n: i128 = 6 * (rate as i128) * (channels as i128);
        let limit: i128 = if n >= 0 {
            n / 1000
        } else {
            -((-n) / 1000)
        };
        b >= 8 && (b as i128) <= limit
    } else if eq_str(codec, "vorbis") {
        let stereo = channels == 2;
        let (low, high): (i64, i64) = if 0 <= rate && rate <= 8999 {
            if stereo {
                (6, 32)
            } else {
                (8, 42)
            }
        } else if 9000 <= rate && rate <= 14999 {
            if stereo {
                (8, 44)
            } else {
                (12, 50)
            }
        } else if 15000 <= rate && rate <= 18999 {
            if stereo {
                (12, 86)
            } else {
                (16, 100)
            }
        } else if 19000 <= rate && rate <= 25999 {
            if stereo {
                (15, 86)
            } else {
                (16, 90)
            }
        } else if 26000 <= rate && rate <= 39999 {
            if stereo {
                (18, 190)
            } else {
                (30, 190)
            }
        } else if stereo {
            (23, 250)
        } else {
            (32, 240)
        };
        assert(low * channels <= 250 * 0x7fff_ffff && high * channels <= 250 * 0x7fff_ffff)
            by (nonlinear_arith)
            requires
                0 <= low <= 250,
                0 <= high <= 250,
                1 <= channels <= 0x7fff_ffff,
        ;
        b >= low * channels && b <= high * channels
    } else if eq_str(codec, "amr") {
        b == 6 || b == 8 || b == 10 || b == 12
    } else if eq_str(codec, "amr_wb") {
        let modes = [7i64, 9, 13, 14, 16, 18, 20, 23, 24];
        proof {
            lemma_int_list(modes@, seq![7int, 9, 13, 14, 16, 18, 20, 23, 24]);
        }
        member(b, modes.as_slice())
    } else if eq_str(codec, "speex") {
        6 <= b && b <= 44
    } else if eq_str(codec, "wmav1") || eq_str(codec, "wmav2") {
        24 <= b && b <= 320
    } else {
        false
    }
}

/// The presets a codec allows at a rate and channel count, in order.
pub open spec fn kept_bitrates(codec: Seq<char>, rate: int, channels: int, s: Seq<i32>) -> Seq<
    i32,
>
    decreases s.len(),
{
    if s.len() == 0 {
        Seq::empty()
    } else if supports_bitrate(codec, rate, channels, s.last() as int) {
        kept_bitrates(codec, rate, channels, s.drop_last()).push(s.last())
    } else {
        kept_bitrates(codec, rate, channels, s.drop_last())
    }
}

/// The six field texts of a configuration, exactly as configured.
pub open spec fn draft_texts(config: Config) -> Seq<Seq<char>> {
    seq![
        signed_decimal(config.channels as int),
        signed_decimal(config.sampling_rate_depth as int),
        signed_decimal(config.sampling_rate as int),
        signed_decimal(config.bit_rate as int),
        config.codecs@,
        config.container@,
    ]
}

/// The menu codec of the six field texts.
pub open spec fn codec_of(values: Seq<Seq<char>>) -> Seq<char> {
    canonical_of(values[4])
}

/// The sampling rate field as a number, 16000 when it is not one.
pub open spec fn rate_of(values: Seq<Seq<char>>) -> int {
    match parsed_i32(values[2]) {
        Some(r) => r,
        None => 16000,
    }
}

/// The channel field as a number, at least 1 (1 when it is not a number).
pub open spec fn channels_of(values: Seq<Seq<char>>) -> int {
    let c = match parsed_i32(values[0]) {
        Some(c) => c,
        None => 1,
    };
    if c >= 1 {
        c
    } else {
        1
    }
}

pub open spec fn rate_choices(values: Seq<Seq<char>>) -> Seq<i32> {
    kept_rates(codec_of(values), rate_presets())
}

pub open spec fn bitrate_choices(values: Seq<Seq<char>>) -> Seq<i32> {
    if codec_of(values) == "amr_wb"@ {
        amr_wb_bitrates()
    } else {
        kept_bitrates(codec_of(values), rate_of(values), channels_of(values), bitrate_presets())
    }
}

pub open spec fn numbers_text(s: Seq<i32>) -> Seq<Seq<char>> {
    s.map_values(|v: i32| signed_decimal(v as int))
}

/// The choices offered for a field.
pub open spec fn field_options(values: Seq<Seq<char>>, field: int) -> Seq<Seq<char>> {
    let codec = codec_of(values);
    if field == 0 {
        if codec == "amr"@ || codec == "amr_wb"@ {
            seq!["1"@]
        } else {
            seq!["1"@, "2"@]
        }
    } else if field == 1 {
        seq!["16"@, "24"@, "32"@]
    } else if field == 2 {
        numbers_text(rate_choices(values))
    } else if field == 3 {
        numbers_text(bitrate_choices(values))
    } else if field == 4 {
        codec_names()
    } else if field == 5 {
        container_choices(codec, lower(values[4]), rate_of(values))
    } else {
        Seq::empty()
    }
}

/// Whether a field can be edited: the depth only for PCM, the bitrate only
/// for encoders that take one.
pub open spec fn field_enabled(values: Seq<Seq<char>>, field: int) -> bool {
    if field == 1 {
        codec_of(values) == "pcm"@
    } else if field == 3 {
        match codec_encoder(lower(values[4])) {
            Some((_, takes_bitrate)) => takes_bitrate,
            None => false,
        }
    } else {
        true
    }
}

/// The option to fall back to: `default` when offered, else the first.
pub open spec fn fallback(options: Seq<Seq<char>>, default: Seq<char>) -> Option<Seq<char>> {
    if options.contains(default) {
        Some(default)
    } else if options.len() > 0 {
        Some(options[0])
    } else {
        None
    }
}

/// A field keeps its value when it is offered (ignoring ASCII case), or,
/// for the bitrate, when the encoder supports it; otherwise it falls back.
pub open spec fn keep_or_default(values: Seq<Seq<char>>, field: int, default: Seq<char>) -> Seq<
    Seq<char>,
> {
    let options = field_options(values, field);
    if field == 3 && (parsed_i32(values[3]) matches Some(v) && supports_bitrate(
        codec_of(values),
        rate_of(values),
        channels_of(values),
        v,
    )) {
        values
    } else if exists|i: int| 0 <= i < options.len() && lower(#[trigger] options[i]) == lower(values[field]) {
        values
    } else {
        match fallback(options, default) {
            Some(x) => values.update(field, x),
            None => values,
        }
    }
}

/// The first container offered, `opus` when none is.
pub open spec fn first_container(values: Seq<Seq<char>>) -> Seq<char> {
    let c = field_options(values, 5);
    if c.len() > 0 {
        c[0]
    } else {
        "opus"@
    }
}

/// PCM's codec name follows the depth: `pcm_s<depth>le`.
pub open spec fn map_pcm(values: Seq<Seq<char>>) -> Seq<Seq<char>> {
    values.update(4, "pcm_s"@ + values[1] + "le"@)
}

/// The most channels a codec takes.
pub open spec fn max_channels(codec: Seq<char>) -> int {
    if codec == "amr"@ || codec == "amr_wb"@ {
        1
    } else if codec == "mp3"@ || codec == "mp2"@ || codec == "adpcm"@ || codec == "speex"@
        || codec == "wmav1"@ || codec == "wmav2"@ {
        2
    } else if codec == "ac3"@ || codec == "eac3"@ {
        6
    } else {
        8
    }
}

/// Whether an encoder takes any positive rate, not only the presets.
pub open spec fn takes_any_rate(codec: Seq<char>) -> bool {
    (codec.len() >= 3 && codec.take(3) == "pcm"@) || codec == "flac"@ || codec == "alac"@
        || codec == "adpcm"@ || codec == "wavpack"@
}

/// What a codec selection changes: PCM gets a valid depth and its name,
/// the channels are reset when the codec cannot take them, and the
/// container and (for preset-only encoders) the rate are reconciled.
pub open spec fn codec_selected(v: Seq<Seq<char>>) -> Seq<Seq<char>> {
    let a = if codec_of(v) == "pcm"@ {
        let b = if v[1] == "16"@ || v[1] == "24"@ || v[1] == "32"@ {
            v
        } else {
            v.update(1, "16"@)
        };
        map_pcm(b)
    } else {
        v
    };
    let b = if (parsed_i32(a[0]) matches Some(n) && 1 <= n <= max_channels(codec_of(a))) {
        a
    } else {
        a.update(0, "1"@)
    };
    let c = keep_or_default(b, 5, first_container(b));
    if !takes_any_rate(codec_of(c)) {
        keep_or_default(c, 2, "16000"@)
    } else {
        c
    }
}

/// The fields after the user selects `value` for `field`; only explicit
/// selections reconcile the other fields.
pub open spec fn selected(values: Seq<Seq<char>>, field: int, value: Seq<char>) -> Seq<Seq<char>> {
    let v1 = values.update(field, value);
    let v2 = if field == 4 {
        codec_selected(v1)
    } else {
        v1
    };
    let v3 = if field == 1 && codec_of(v2) == "pcm"@ {
        map_pcm(v2)
    } else {
        v2
    };
    let v4 = if field == 2 || (field == 1 && codec_of(v3) == "pcm"@) {
        keep_or_default(v3, 5, first_container(v3))
    } else {
        v3
    };
    if (field == 0 || field == 2 || field == 4) && field_enabled(v4, 3) {
        keep_or_default(v4, 3, "128"@)
    } else {
        v4
    }
}

/// The containers offered for a codec (`raw`: the lowercase codec text,
/// which tells PCM depths apart; `rate`: the sampling rate).
pub open spec fn container_choices(codec: Seq<char>, raw: Seq<char>, rate: int) -> Seq<Seq<char>> {
    if codec == "opus"@ {
        seq!["opus"@, "ogg"@, "webm"@, "mp4"@, "mkv"@, "mka"@]
    } else if codec == "vorbis"@ {
        seq!["ogg"@, "webm"@, "mkv"@, "mka"@]
    } else if codec == "aac"@ {
        seq!["m4a"@, "mp4"@, "aac"@, "wav"@, "flv"@, "mkv"@, "mka"@, "mov"@]
    } else if codec == "mp3"@ {
        if rate == 11025 {
            seq!["mp3"@, "wav"@, "avi"@, "flv"@, "mkv"@, "mka"@, "mpeg"@]
        } else if rate < 16000 {
            seq!["mp3"@, "wav"@, "avi"@, "mkv"@, "mka"@, "mpeg"@]
        } else if rate == 22050 || rate == 44100 || rate == 48000 {
            seq!["mp3"@, "wav"@, "mp4"@, "avi"@, "flv"@, "mkv"@, "mka"@, "mpeg"@]
        } else {
            seq!["mp3"@, "wav"@, "mp4"@, "avi"@, "mkv"@, "mka"@, "mpeg"@]
        }
    } else if codec == "alac"@ {
        seq!["m4a"@, "mp4"@, "mov"@]
    } else if codec == "flac"@ {
        seq!["flac"@, "ogg"@, "mkv"@, "mka"@]
    } else if codec == "ac3"@ {
        seq!["ac3"@, "m4a"@, "mp4"@, "wav"@, "avi"@, "mkv"@, "mka"@, "mpeg"@]
    } else if codec == "eac3"@ {
        seq!["eac3"@, "mp4"@, "mkv"@, "mka"@]
    } else if codec == "amr"@ {
        seq!["amr"@, "wav"@]
    } else if codec == "amr_wb"@ {
        seq!["amr"@]
    } else if codec == "speex"@ {
        seq!["spx"@, "ogg"@]
    } else if codec == "wavpack"@ {
        seq!["wv"@]
    } else if codec == "wmav1"@ || codec == "wmav2"@ {
        seq!["wma"@, "asf"@]
    } else if codec == "pcm_s8"@ {
        seq!["aiff"@, "s8"@]
    } else if codec == "pcm_alaw"@ {
        seq!["wav"@, "alaw"@]
    } else if codec == "pcm_mulaw"@ {
        seq!["wav"@, "mulaw"@]
    } else if codec == "pcm_s64le"@ || codec == "adpcm"@ {
        seq!["wav"@]
    } else if codec == "mp2"@ {
        seq!["wav"@, "mp4"@, "mpeg"@]
    } else if codec == "pcm"@ {
        if raw == "pcm_s24le"@ {
            seq!["wav"@, "mp4"@, "mov"@, "s24le"@]
        } else if raw == "pcm_s32le"@ {
            seq!["wav"@, "mp4"@, "mov"@, "s32le"@]
        } else {
            seq!["wav"@, "mp4"@, "mov"@, "avi"@, "s16le"@]
        }
    } else if codec == "pcm_f32le"@ {
        seq!["wav"@, "mp4"@, "f32le"@]
    } else if codec == "pcm_f64le"@ {
        seq!["wav"@, "mp4"@, "f64le"@]
    } else if codec == "pcm_s16be"@ {
        seq!["aiff"@, "mp4"@, "s16be"@]
    } else if codec == "pcm_s24be"@ {
        seq!["aiff"@, "mp4"@, "s24be"@]
    } else if codec == "pcm_s32be"@ {
        seq!["aiff"@, "mp4"@, "s32be"@]
    } else if codec == "pcm_f32be"@ {
        seq!["aiff"@, "mp4"@, "f32be"@]
    } else if codec == "pcm_f64be"@ {
        seq!["aiff"@, "mp4"@, "f64be"@]
    } else {
        Seq::empty()
    }
}

fn container_list(codec: &[char], raw: &[char], rate: i32) -> (r: Vec<&'static str>)
    ensures
        str_views(r@) == container_choices(codec@, raw@, rate as int),
{
    let items: &[&'static str] = 
    if eq_str(codec, "opus") {
        ["opus", "ogg", "webm", "mp4", "mkv", "mka"].as_slice()
    } else if eq_str(codec, "vorbis") {
        ["ogg", "webm", "mkv", "mka"].as_slice()
    } else if eq_str(codec, "aac") {
        ["m4a", "mp4", "aac", "wav", "flv", "mkv", "mka", "mov"].as_slice()
    } else if eq_str(codec, "mp3") {
        if rate == 11025 {
            ["mp3", "wav", "avi", "flv", "mkv", "mka", "mpeg"].as_slice()
        } else if rate < 16000 {
            ["mp3", "wav", "avi", "mkv", "mka", "mpeg"].as_slice()
        } else if rate == 22050 || rate == 44100 || rate == 48000 {
            ["mp3", "wav", "mp4", "avi", "flv", "mkv", "mka", "mpeg"].as_slice()
        } else {
            ["mp3", "wav", "mp4", "avi", "mkv", "mka", "mpeg"].as_slice()
        }
    } else if eq_str(codec, "alac") {
        ["m4a", "mp4", "mov"].as_slice()
    } else if eq_str(codec, "flac") {
        ["flac", "ogg", "mkv", "mka"].as_slice()
    } else if eq_str(codec, "ac3") {
        ["ac3", "m4a", "mp4", "wav", "avi", "mkv", "mka", "mpeg"].as_slice()
    } else if eq_str(codec, "eac3") {
        ["eac3", "mp4", "mkv", "mka"].as_slice()
    } else if eq_str(codec, "amr") {
        ["amr", "wav"].as_slice()
    } else if eq_str(codec, "amr_wb") {
        ["amr"].as_slice()
    } else if eq_str(codec, "speex") {
        ["spx", "ogg"].as_slice()
    } else if eq_str(codec, "wavpack") {
        ["wv"].as_slice()
    } else if eq_str(codec, "wmav1") || eq_str(codec, "wmav2") {
        ["wma", "asf"].as_slice()
    } else if eq_str(codec, "pcm_s8") {
        ["aiff", "s8"].as_slice()
    } else if eq_str(codec, "pcm_alaw") {
        ["wav", "alaw"].as_slice()
    } else if eq_str(codec, "pcm_mulaw") {
        ["wav", "mulaw"].as_slice()
    } else if eq_str(codec, "pcm_s64le") || eq_str(codec, "adpcm") {
        ["wav"].as_slice()
    } else if eq_str(codec, "mp2") {
        ["wav", "mp4", "mpeg"].as_slice()
    } else if eq_str(codec, "pcm") {
        if eq_str(raw, "pcm_s24le") {
            ["wav", "mp4", "mov", "s24le"].as_slice()
        } else if eq_str(raw, "pcm_s32le") {
            ["wav", "mp4", "mov", "s32le"].as_slice()
        } else {
            ["wav", "mp4", "mov", "avi", "s16le"].as_slice()
        }
    } else if eq_str(codec, "pcm_f32le") {
        ["wav", "mp4", "f32le"].as_slice()
    } else if eq_str(codec, "pcm_f64le") {
        ["wav", "mp4", "f64le"].as_slice()
    } else if eq_str(codec, "pcm_s16be") {
        ["aiff", "mp4", "s16be"].as_slice()
    } else if eq_str(codec, "pcm_s24be") {
        ["aiff", "mp4", "s24be"].as_slice()
    } else if eq_str(codec, "pcm_s32be") {
        ["aiff", "mp4", "s32be"].as_slice()
    } else if eq_str(codec, "pcm_f32be") {
        ["aiff", "mp4", "f32be"].as_slice()
    } else if eq_str(codec, "pcm_f64be") {
        ["aiff", "mp4", "f64be"].as_slice()
    } else {
        [].as_slice()
    };
    let r = vstd::slice::slice_to_vec(items);
    proof {
        assert(str_views(r@) =~= container_choices(codec@, raw@, rate as int));
    }
    r
}
/// The six audio fields as the settings window edits them: channels,
/// depth, rate, bitrate, codec, container.
#[derive(Clone, Debug)]
pub struct AudioDraft {
    pub values: [String; 6],
}

proof fn lemma_views_push(v: Seq<String>, s: String)
    ensures
        v.push(s).map_values(|x: String| x@) == v.map_values(|x: String| x@).push(s@),
{
    assert(v.push(s).map_values(|x: String| x@) =~= v.map_values(|x: String| x@).push(s@));
}

fn number_text(v: i32) -> (r: String)
    ensures
        r@ == signed_decimal(v as int),
{
    string_of(signed_decimal_chars(v as i64).as_slice())
}

fn number_texts(v: &Vec<i32>) -> (r: Vec<String>)
    ensures
        r@.map_values(|s: String| s@) == numbers_text(v@),
{
    let mut r: Vec<String> = Vec::new();
    let mut i: usize = 0;
    while i < v.len()
        invariant
            0 <= i <= v@.len(),
            r@.map_values(|s: String| s@) == numbers_text(v@.take(i as int)),
        decreases v@.len() - i,
    {
        let item = number_text(v[i]);
        let ghost before = r@;
        let ghost pushed = item;
        r.push(item);
        proof {
            lemma_views_push(before, pushed);
            assert(v@.take(i as int + 1) =~= v@.take(i as int).push(v@[i as int]));
            assert(numbers_text(v@.take(i as int + 1)) =~= numbers_text(v@.take(i as int)).push(
                signed_decimal(v@[i as int] as int),
            ));
        }
        i = i + 1;
    }
    proof {
        assert(v@.take(v@.len() as int) =~= v@);
    }
    r
}

impl AudioDraft {
    /// The field texts.
    pub open spec fn texts(&self) -> Seq<Seq<char>> {
        self.values@.map_values(|s: String| s@)
    }

    /// The fields of a configuration, exactly as configured: loading never
    /// rounds a value to a preset or rewrites an alias.
    pub fn new(config: &Config) -> (r: AudioDraft)
        ensures
            r.texts() == draft_texts(*config),
    {
        let r = AudioDraft {
            values: [
                number_text(config.channels),
                number_text(config.sampling_rate_depth),
                number_text(config.sampling_rate),
                number_text(config.bit_rate),
                config.codecs.clone(),
                config.container.clone(),
            ],
        };
        assert(r.texts() =~= seq![
            signed_decimal(config.channels as int),
            signed_decimal(config.sampling_rate_depth as int),
            signed_decimal(config.sampling_rate as int),
            signed_decimal(config.bit_rate as int),
            config.codecs@,
            config.container@,
        ]);
        r
    }

    fn field_chars(&self, field: usize) -> (r: Vec<char>)
        requires
            field < 6,
        ensures
            r@ == self.texts()[field as int],
    {
        chars_of(self.values[field].as_str())
    }

    fn codec_chars(&self) -> (r: Vec<char>)
        ensures
            r@ == codec_of(self.texts()),
    {
        canonical_chars(self.field_chars(4).as_slice())
    }

    /// The menu codec of the codec field.
    pub fn codec(&self) -> (r: String)
        ensures
            r@ == codec_of(self.texts()),
    {
        string_of(self.codec_chars().as_slice())
    }

    fn rate_value(&self) -> (r: i32)
        ensures
            r == rate_of(self.texts()),
    {
        match parse_i32(self.field_chars(2).as_slice()) {
            Some(r) => r,
            None => 16000,
        }
    }

    fn channel_value(&self) -> (r: i32)
        ensures
            r == channels_of(self.texts()),
            r >= 1,
    {
        let c = match parse_i32(self.field_chars(0).as_slice()) {
            Some(c) => c,
            None => 1,
        };
        if c >= 1 {
            c
        } else {
            1
        }
    }

    /// The containers offered for the codec.
    pub fn containers(&self) -> (r: Vec<&'static str>)
        ensures
            str_views(r@) == field_options(self.texts(), 5),
    {
        let codec = self.codec_chars();
        let raw = lower_chars(self.field_chars(4).as_slice());
        container_list(codec.as_slice(), raw.as_slice(), self.rate_value())
    }

    /// The sampling rates offered for the codec.
    pub fn rates(&self) -> (r: Vec<i32>)
        ensures
            r@ == rate_choices(self.texts()),
    {
        let codec = self.codec_chars();
        let presets = rate_preset_list();
        let mut r: Vec<i32> = Vec::new();
        let mut i: usize = 0;
        while i < presets.len()
            invariant
                0 <= i <= presets@.len(),
                presets@ == rate_presets(),
                codec@ == codec_of(self.texts()),
                r@ == kept_rates(codec@, presets@.take(i as int)),
            decreases presets@.len() - i,
        {
            proof {
                assert(presets@.take(i as int + 1).drop_last() =~= presets@.take(i as int));
            }
            if rate_allowed_exec(codec.as_slice(), presets[i]) {
                r.push(presets[i]);
            }
            i = i + 1;
        }
        proof {
            assert(presets@.take(presets@.len() as int) =~= presets@);
        }
        r
    }

    /// Whether the encoder takes `bitrate` at the draft's rate and channels.
    pub fn supports_bitrate(&self, bitrate: i32) -> (r: bool)
        ensures
            r == supports_bitrate(
                codec_of(self.texts()),
                rate_of(self.texts()),
                channels_of(self.texts()),
                bitrate as int,
            ),
    {
        let codec = self.codec_chars();
        supports_bitrate_exec(
            codec.as_slice(),
            self.rate_value() as i64,
            self.channel_value() as i64,
            bitrate as i64,
        )
    }

    /// The bitrates offered for the codec, rate and channels.
    pub fn bitrates(&self) -> (r: Vec<i32>)
        ensures
            r@ == bitrate_choices(self.texts()),
    {
        let codec = self.codec_chars();
        if eq_str(codec.as_slice(), "amr_wb") {
            return amr_wb_bitrate_list();
        }
        let rate = self.rate_value() as i64;
        let channels = self.channel_value() as i64;
        let presets = bitrate_preset_list();
        let mut r: Vec<i32> = Vec::new();
        let mut i: usize = 0;
        while i < presets.len()
            invariant
                0 <= i <= presets@.len(),
                presets@ == bitrate_presets(),
                codec@ == codec_of(self.texts()),
                rate == rate_of(self.texts()),
                channels == channels_of(self.texts()),
                -0x8000_0000 <= rate <= 0x7fff_ffff,
                1 <= channels <= 0x7fff_ffff,
                r@ == kept_bitrates(codec@, rate as int, channels as int, presets@.take(i as int)),
            decreases presets@.len() - i,
        {
            proof {
                assert(presets@.take(i as int + 1).drop_last() =~= presets@.take(i as int));
            }
            if supports_bitrate_exec(codec.as_slice(), rate, channels, presets[i] as i64) {
                r.push(presets[i]);
            }
            i = i + 1;
        }
        proof {
            assert(presets@.take(presets@.len() as int) =~= presets@);
        }
        r
    }

    /// Whether a field can be edited.
    pub fn enabled(&self, field: usize) -> (r: bool)
        ensures
            r == field_enabled(self.texts(), field as int),
    {
        if field == 1 {
            eq_str(self.codec_chars().as_slice(), "pcm")
        } else if field == 3 {
            match crate::converter::ffmpeg_codec_for(self.values[4].as_str()) {
                Some((_, takes_bitrate)) => takes_bitrate,
                None => false,
            }
        } else {
            true
        }
    }

    /// The choices offered for a field.
    pub fn options(&self, field: usize) -> (r: Vec<String>)
        ensures
            r@.map_values(|s: String| s@) == field_options(self.texts(), field as int),
    {
        let mut r: Vec<String> = Vec::new();
        if field == 0 {
            let codec = self.codec_chars();
            r.push(owned("1"));
            if !(eq_str(codec.as_slice(), "amr") || eq_str(codec.as_slice(), "amr_wb")) {
                r.push(owned("2"));
            }
            assert(r@.map_values(|s: String| s@) =~= field_options(self.texts(), field as int));
            r
        } else if field == 1 {
            r.push(owned("16"));
            r.push(owned("24"));
            r.push(owned("32"));
            assert(r@.map_values(|s: String| s@) =~= field_options(self.texts(), field as int));
            r
        } else if field == 2 {
            number_texts(&self.rates())
        } else if field == 3 {
            number_texts(&self.bitrates())
        } else if field == 4 {
            let codecs = codec_choices();
            let mut i: usize = 0;
            while i < codecs.len()
                invariant
                    0 <= i <= codecs@.len(),
                    codecs@.map_values(|c: (&str, &str)| c.0@) == codec_names(),
                    r@.map_values(|s: String| s@) == codec_names().take(i as int),
                decreases codecs@.len() - i,
            {
                let item = owned(codecs[i].0);
                let ghost before = r@;
                let ghost pushed = item;
                r.push(item);
                proof {
                    lemma_views_push(before, pushed);
                    assert(codecs@.map_values(|c: (&str, &str)| c.0@)[i as int] == codecs@[i as int].0@);
                    assert(codec_names().take(i as int + 1) =~= codec_names().take(i as int).push(
                        codec_names()[i as int],
                    ));
                }
                i = i + 1;
            }
            proof {
                assert(codec_names().take(codecs@.len() as int) =~= codec_names());
            }
            r
        } else if field == 5 {
            let containers = self.containers();
            let mut i: usize = 0;
            while i < containers.len()
                invariant
                    0 <= i <= containers@.len(),
                    str_views(containers@) == field_options(self.texts(), 5),
                    r@.map_values(|s: String| s@) == str_views(containers@).take(i as int),
                decreases containers@.len() - i,
            {
                let item = owned(containers[i]);
                let ghost before = r@;
                let ghost pushed = item;
                r.push(item);
                proof {
                    lemma_views_push(before, pushed);
                    assert(str_views(containers@).take(i as int + 1) =~= str_views(containers@).take(
                        i as int,
                    ).push(containers@[i as int]@));
                }
                i = i + 1;
            }
            proof {
                assert(str_views(containers@).take(containers@.len() as int) =~= str_views(containers@));
            }
            r
        } else {
            assert(r@.map_values(|s: String| s@) =~= field_options(self.texts(), field as int));
            r
        }
    }

    fn set_field(&mut self, field: usize, value: String)
        requires
            field < 6,
        ensures
            final(self).texts() == old(self).texts().update(field as int, value@),
    {
        let ghost v = value@;
        self.values[field] = value;
        assert(self.texts() =~= old(self).texts().update(field as int, v));
    }

    fn map_pcm(&mut self)
        ensures
            final(self).texts() == map_pcm(old(self).texts()),
    {
        let mut out: Vec<char> = Vec::new();
        push_str(&mut out, "pcm_s");
        push_str(&mut out, self.values[1].as_str());
        push_str(&mut out, "le");
        let name = string_of(out.as_slice());
        self.set_field(4, name);
    }

    fn keep_or_default(&mut self, field: usize, default: &[char])
        requires
            field < 6,
        ensures
            final(self).texts() == keep_or_default(old(self).texts(), field as int, default@),
    {
        let ghost values = self.texts();
        let options = self.options(field);
        let ghost opts = options@.map_values(|s: String| s@);
        if field == 3 {
            if let Some(v) = parse_i32(self.field_chars(3).as_slice()) {
                if self.supports_bitrate(v) {
                    assert(parsed_i32(values[3]) == Some(v as int));
                    assert(keep_or_default(values, field as int, default@) == values);
                    return;
                }
            }
        }
        let ghost keeps_bitrate = field == 3 && (parsed_i32(values[3]) matches Some(v)
            && supports_bitrate(codec_of(values), rate_of(values), channels_of(values), v));
        assert(!keeps_bitrate);
        let current = lower_chars(self.field_chars(field).as_slice());
        let mut i: usize = 0;
        while i < options.len()
            invariant
                0 <= i <= options@.len(),
                field < 6,
                !keeps_bitrate,
                keeps_bitrate == (field == 3 && (parsed_i32(values[3]) matches Some(v)
                    && supports_bitrate(codec_of(values), rate_of(values), channels_of(values), v))),
                values == self.texts(),
                opts == options@.map_values(|s: String| s@),
                opts == field_options(values, field as int),
                current@ == lower(values[field as int]),
                forall|k: int| 0 <= k < i ==> lower(#[trigger] opts[k]) != lower(values[field as int]),
            decreases options@.len() - i,
        {
            let candidate = lower_chars(chars_of(options[i].as_str()).as_slice());
            if same_chars(candidate.as_slice(), current.as_slice()) {
                proof {
                    assert(lower(opts[i as int]) == lower(values[field as int]));
                }
                return;
            }
            i = i + 1;
        }
        let mut j: usize = 0;
        while j < options.len()
            invariant
                0 <= j <= options@.len(),
                field < 6,
                !keeps_bitrate,
                keeps_bitrate == (field == 3 && (parsed_i32(values[3]) matches Some(v)
                    && supports_bitrate(codec_of(values), rate_of(values), channels_of(values), v))),
                opts == options@.map_values(|s: String| s@),
                opts == field_options(values, field as int),
                self.texts() == values,
                old(self).texts() == values,
                forall|k: int| 0 <= k < options@.len() ==> lower(#[trigger] opts[k]) != lower(values[field as int]),
                forall|k: int| 0 <= k < j ==> #[trigger] opts[k] != default@,
            decreases options@.len() - j,
        {
            if same_chars(chars_of(options[j].as_str()).as_slice(), default) {
                proof {
                    assert(opts[j as int] == default@);
                    assert(opts.contains(default@));
                }
                self.set_field(field, string_of(default));
                return;
            }
            j = j + 1;
        }
        proof {
            assert(!opts.contains(default@));
        }
        if options.len() > 0 {
            let first = options[0].clone();
            self.set_field(field, first);
        }
    }

    /// The user selects `value` for `field`: the field takes it, and the
    /// dependent fields are reconciled (see [`selected`]).
    pub fn select(&mut self, field: usize, value: String)
        requires
            field < 6,
        ensures
            final(self).texts() == selected(old(self).texts(), field as int, value@),
    {
        self.set_field(field, value);
        if field == 4 {
            if eq_str(self.codec_chars().as_slice(), "pcm") {
                let depth = self.field_chars(1);
                if !(eq_str(depth.as_slice(), "16") || eq_str(depth.as_slice(), "24") || eq_str(
                    depth.as_slice(),
                    "32",
                )) {
                    self.set_field(1, owned("16"));
                }
                self.map_pcm();
            }
            let codec = self.codec_chars();
            let max: i32 = if eq_str(codec.as_slice(), "amr") || eq_str(codec.as_slice(), "amr_wb") {
                1
            } else if eq_str(codec.as_slice(), "mp3") || eq_str(codec.as_slice(), "mp2") || eq_str(
                codec.as_slice(),
                "adpcm",
            ) || eq_str(codec.as_slice(), "speex") || eq_str(codec.as_slice(), "wmav1") || eq_str(
                codec.as_slice(),
                "wmav2",
            ) {
                2
            } else if eq_str(codec.as_slice(), "ac3") || eq_str(codec.as_slice(), "eac3") {
                6
            } else {
                8
            };
            let keeps_channels = match parse_i32(self.field_chars(0).as_slice()) {
                Some(n) => 1 <= n && n <= max,
                None => false,
            };
            if !keeps_channels {
                self.set_field(0, owned("1"));
            }
            let first = self.first_container();
            self.keep_or_default(5, first.as_slice());
            let codec = self.codec_chars();
            let any_rate = (codec.len() >= 3 && codec[0] == 'p' && codec[1] == 'c' && codec[2]
                == 'm') || eq_str(codec.as_slice(), "flac") || eq_str(codec.as_slice(), "alac")
                || eq_str(codec.as_slice(), "adpcm") || eq_str(codec.as_slice(), "wavpack");
            proof {
                reveal_strlit("pcm");
                if codec@.len() >= 3 {
                    if codec@.take(3) == "pcm"@ {
                        assert(codec@[0] == codec@.take(3)[0]);
                        assert(codec@[1] == codec@.take(3)[1]);
                        assert(codec@[2] == codec@.take(3)[2]);
                    }
                    if codec@[0] == 'p' && codec@[1] == 'c' && codec@[2] == 'm' {
                        assert(codec@.take(3) =~= "pcm"@);
                    }
                }
            }
            if !any_rate {
                self.keep_or_default(2, chars_of("16000").as_slice());
            }
        }
        if field == 1 && eq_str(self.codec_chars().as_slice(), "pcm") {
            self.map_pcm();
        }
        if field == 2 || (field == 1 && eq_str(self.codec_chars().as_slice(), "pcm")) {
            let first = self.first_container();
            self.keep_or_default(5, first.as_slice());
        }
        if (field == 0 || field == 2 || field == 4) && self.enabled(3) {
            self.keep_or_default(3, chars_of("128").as_slice());
        }
    }

    fn first_container(&self) -> (r: Vec<char>)
        ensures
            r@ == first_container(self.texts()),
    {
        let containers = self.containers();
        if containers.len() > 0 {
            chars_of(containers[0])
        } else {
            chars_of("opus")
        }
    }
}

/// Choosing a bitrate or a container changes that field alone; nothing is
/// reconciled behind the user's back.
pub proof fn bitrate_and_container_choices_change_nothing_else(
    values: Seq<Seq<char>>,
    field: int,
    value: Seq<char>,
)
    requires
        values.len() == 6,
        field == 3 || field == 5,
    ensures
        selected(values, field, value) == values.update(field, value),
{
}

/// Strictly ascending.
pub open spec fn ascending(s: Seq<i32>) -> bool {
    forall|i: int, j: int| 0 <= i < j < s.len() ==> s[i] < s[j]
}

/// Each of the first `n` values is below the next one.
spec fn rises(s: Seq<i32>, n: nat) -> bool
    decreases n,
{
    n <= 1 || (s[n - 2] < s[n - 1] && rises(s, (n - 1) as nat))
}

proof fn lemma_rises(s: Seq<i32>, n: nat)
    requires
        n <= s.len(),
        rises(s, n),
    ensures
        forall|i: int, j: int| 0 <= i < j < n ==> s[i] < s[j],
    decreases n,
{
    if n > 1 {
        lemma_rises(s, (n - 1) as nat);
        assert forall|i: int, j: int| 0 <= i < j < n implies s[i] < s[j] by {
            if j == n - 1 && i < n - 2 {
                assert(s[i] < s[n - 2]);
            }
        }
    }
}

proof fn lemma_presets_ascend()
    ensures
        ascending(rate_presets()),
        ascending(bitrate_presets()),
        ascending(amr_wb_bitrates()),
{
    assert(rises(rate_presets(), 15)) by {
        reveal_with_fuel(rises, 16);
    }
    lemma_rises(rate_presets(), 15);
    assert(rises(bitrate_presets(), 43)) by {
        reveal_with_fuel(rises, 44);
    }
    lemma_rises(bitrate_presets(), 43);
    assert(rises(amr_wb_bitrates(), 9)) by {
        reveal_with_fuel(rises, 10);
    }
    lemma_rises(amr_wb_bitrates(), 9);
}

/// What a codec keeps is taken from the presets, in their order.
proof fn lemma_kept_rates_ascend(codec: Seq<char>, s: Seq<i32>)
    requires
        ascending(s),
    ensures
        ascending(kept_rates(codec, s)),
        forall|k: int|
            0 <= k < kept_rates(codec, s).len() ==> exists|i: int|
                0 <= i < s.len() && s[i] == #[trigger] kept_rates(codec, s)[k],
    decreases s.len(),
{
    if s.len() > 0 {
        let rest = s.drop_last();
        lemma_kept_rates_ascend(codec, rest);
        let kept = kept_rates(codec, rest);
        assert forall|k: int| 0 <= k < kept.len() implies #[trigger] kept[k] < s.last() by {
            let i = choose|i: int| 0 <= i < rest.len() && rest[i] == kept[k];
            assert(s[i] < s[s.len() - 1]);
        }
        assert forall|k: int| 0 <= k < kept_rates(codec, s).len() implies exists|i: int|
            0 <= i < s.len() && s[i] == #[trigger] kept_rates(codec, s)[k] by {
            if k < kept.len() {
                let i = choose|i: int| 0 <= i < rest.len() && rest[i] == kept[k];
                assert(s[i] == kept_rates(codec, s)[k]);
            } else {
                assert(s[s.len() - 1] == kept_rates(codec, s)[k]);
            }
        }
    }
}

proof fn lemma_kept_bitrates_ascend(codec: Seq<char>, rate: int, channels: int, s: Seq<i32>)
    requires
        ascending(s),
    ensures
        ascending(kept_bitrates(codec, rate, channels, s)),
        forall|k: int|
            0 <= k < kept_bitrates(codec, rate, channels, s).len() ==> exists|i: int|
                0 <= i < s.len() && s[i] == #[trigger] kept_bitrates(codec, rate, channels, s)[k],
    decreases s.len(),
{
    if s.len() > 0 {
        let rest = s.drop_last();
        lemma_kept_bitrates_ascend(codec, rate, channels, rest);
        let kept = kept_bitrates(codec, rate, channels, rest);
        assert forall|k: int| 0 <= k < kept.len() implies #[trigger] kept[k] < s.last() by {
            let i = choose|i: int| 0 <= i < rest.len() && rest[i] == kept[k];
            assert(s[i] < s[s.len() - 1]);
        }
        assert forall|k: int| 0 <= k < kept_bitrates(codec, rate, channels, s).len() implies exists|
            i: int,
        | 0 <= i < s.len() && s[i] == #[trigger] kept_bitrates(codec, rate, channels, s)[k] by {
            if k < kept.len() {
                let i = choose|i: int| 0 <= i < rest.len() && rest[i] == kept[k];
                assert(s[i] == kept_bitrates(codec, rate, channels, s)[k]);
            } else {
                assert(s[s.len() - 1] == kept_bitrates(codec, rate, channels, s)[k]);
            }
        }
    }
}

/// The sampling rates and bitrates offered are strictly ascending, whatever
/// the fields of the draft hold.
pub proof fn offered_rates_and_bitrates_ascend(values: Seq<Seq<char>>)
    ensures
        ascending(rate_choices(values)),
        ascending(bitrate_choices(values)),
{
    lemma_presets_ascend();
    lemma_kept_rates_ascend(codec_of(values), rate_presets());
    lemma_kept_bitrates_ascend(
        codec_of(values),
        rate_of(values),
        channels_of(values),
        bitrate_presets(),
    );
}

/// Every codec in the menu offers at least one container, whatever the
/// sampling rate and the PCM variant in the draft.
pub proof fn menu_codecs_offer_containers(values: Seq<Seq<char>>)
    requires
        codec_names().contains(codec_of(values)),
    ensures
        field_options(values, 5).len() > 0,
{
    let k = choose|k: int| 0 <= k < codec_names().len() && codec_names()[k] == codec_of(values);
    assert(0 <= k < 28);
    assert(k == 0 || k == 1 || k == 2 || k == 3 || k == 4 || k == 5 || k == 6 || k == 7 || k == 8
        || k == 9 || k == 10 || k == 11 || k == 12 || k == 13 || k == 14 || k == 15 || k == 16
        || k == 17 || k == 18 || k == 19 || k == 20 || k == 21 || k == 22 || k == 23 || k == 24
        || k == 25 || k == 26 || k == 27);
}

/// The first `n` characters of `t` are not uppercase ASCII letters.
spec fn lowercase_upto(t: Seq<char>, n: nat) -> bool
    decreases n,
{
    n == 0 || (!is_ascii_upper(t[n - 1]) && lowercase_upto(t, (n - 1) as nat))
}

proof fn lemma_lowercase_upto(t: Seq<char>, n: nat)
    requires
        n <= t.len(),
        lowercase_upto(t, n),
    ensures
        forall|i: int| 0 <= i < n ==> !is_ascii_upper(#[trigger] t[i]),
    decreases n,
{
    if n > 0 {
        lemma_lowercase_upto(t, (n - 1) as nat);
    }
}

/// A word without uppercase ASCII letters is its own lowercase form.
proof fn lemma_lowercase_word(t: Seq<char>)
    requires
        lowercase_upto(t, t.len()),
    ensures
        lower(t) == t,
{
    lemma_lowercase_upto(t, t.len());
    assert(lower(t) =~= t);
}

/// Every codec in the menu passes the configuration's codec check, so a
/// draft with it has conversion settings.
pub proof fn menu_codecs_pass_the_codec_check(k: int)
    requires
        0 <= k < codec_names().len(),
    ensures
        known_codec(lower(codec_names()[k])),
{
    reveal_with_fuel(lowercase_upto, 10);
    reveal_strlit("opus");
    lemma_lowercase_word("opus"@);
    reveal_strlit("mp3");
    lemma_lowercase_word("mp3"@);
    reveal_strlit("aac");
    lemma_lowercase_word("aac"@);
    reveal_strlit("vorbis");
    lemma_lowercase_word("vorbis"@);
    reveal_strlit("flac");
    lemma_lowercase_word("flac"@);
    reveal_strlit("alac");
    lemma_lowercase_word("alac"@);
    reveal_strlit("ac3");
    lemma_lowercase_word("ac3"@);
    reveal_strlit("eac3");
    lemma_lowercase_word("eac3"@);
    reveal_strlit("mp2");
    lemma_lowercase_word("mp2"@);
    reveal_strlit("adpcm");
    lemma_lowercase_word("adpcm"@);
    reveal_strlit("amr");
    lemma_lowercase_word("amr"@);
    reveal_strlit("amr_wb");
    lemma_lowercase_word("amr_wb"@);
    reveal_strlit("speex");
    lemma_lowercase_word("speex"@);
    reveal_strlit("wavpack");
    lemma_lowercase_word("wavpack"@);
    reveal_strlit("wmav1");
    lemma_lowercase_word("wmav1"@);
    reveal_strlit("wmav2");
    lemma_lowercase_word("wmav2"@);
    reveal_strlit("pcm_s8");
    lemma_lowercase_word("pcm_s8"@);
    reveal_strlit("pcm_alaw");
    lemma_lowercase_word("pcm_alaw"@);
    reveal_strlit("pcm_mulaw");
    lemma_lowercase_word("pcm_mulaw"@);
    reveal_strlit("pcm");
    lemma_lowercase_word("pcm"@);
    reveal_strlit("pcm_f32le");
    lemma_lowercase_word("pcm_f32le"@);
    reveal_strlit("pcm_f64le");
    lemma_lowercase_word("pcm_f64le"@);
    reveal_strlit("pcm_s64le");
    lemma_lowercase_word("pcm_s64le"@);
    reveal_strlit("pcm_s16be");
    lemma_lowercase_word("pcm_s16be"@);
    reveal_strlit("pcm_s24be");
    lemma_lowercase_word("pcm_s24be"@);
    reveal_strlit("pcm_s32be");
    lemma_lowercase_word("pcm_s32be"@);
    reveal_strlit("pcm_f32be");
    lemma_lowercase_word("pcm_f32be"@);
    reveal_strlit("pcm_f64be");
    lemma_lowercase_word("pcm_f64be"@);
    assert(k == 0 || k == 1 || k == 2 || k == 3 || k == 4 || k == 5 || k == 6 || k == 7 || k == 8
        || k == 9 || k == 10 || k == 11 || k == 12 || k == 13 || k == 14 || k == 15 || k == 16
        || k == 17 || k == 18 || k == 19 || k == 20 || k == 21 || k == 22 || k == 23 || k == 24
        || k == 25 || k == 26 || k == 27);
}

/// Every container offered with a codec passes the configuration's
/// container check, whatever the rate and the PCM variant.
pub proof fn offered_containers_pass_the_container_check(codec: Seq<char>, raw: Seq<char>, rate: int)
    ensures
        forall|j: int|
            0 <= j < container_choices(codec, raw, rate).len() ==> known_container(
                lower(#[trigger] container_choices(codec, raw, rate)[j]),
            ),
{
    reveal_with_fuel(lowercase_upto, 6);
    reveal_strlit("opus");
    lemma_lowercase_word("opus"@);
    reveal_strlit("ogg");
    lemma_lowercase_word("ogg"@);
    reveal_strlit("webm");
    lemma_lowercase_word("webm"@);
    reveal_strlit("mp4");
    lemma_lowercase_word("mp4"@);
    reveal_strlit("mkv");
    lemma_lowercase_word("mkv"@);
    reveal_strlit("mka");
    lemma_lowercase_word("mka"@);
    reveal_strlit("m4a");
    lemma_lowercase_word("m4a"@);
    reveal_strlit("aac");
    lemma_lowercase_word("aac"@);
    reveal_strlit("wav");
    lemma_lowercase_word("wav"@);
    reveal_strlit("flv");
    lemma_lowercase_word("flv"@);
    reveal_strlit("mov");
    lemma_lowercase_word("mov"@);
    reveal_strlit("mp3");
    lemma_lowercase_word("mp3"@);
    reveal_strlit("avi");
    lemma_lowercase_word("avi"@);
    reveal_strlit("mpeg");
    lemma_lowercase_word("mpeg"@);
    reveal_strlit("flac");
    lemma_lowercase_word("flac"@);
    reveal_strlit("ac3");
    lemma_lowercase_word("ac3"@);
    reveal_strlit("eac3");
    lemma_lowercase_word("eac3"@);
    reveal_strlit("amr");
    lemma_lowercase_word("amr"@);
    reveal_strlit("spx");
    lemma_lowercase_word("spx"@);
    reveal_strlit("wv");
    lemma_lowercase_word("wv"@);
    reveal_strlit("wma");
    lemma_lowercase_word("wma"@);
    reveal_strlit("asf");
    lemma_lowercase_word("asf"@);
    reveal_strlit("aiff");
    lemma_lowercase_word("aiff"@);
    reveal_strlit("s8");
    lemma_lowercase_word("s8"@);
    reveal_strlit("alaw");
    lemma_lowercase_word("alaw"@);
    reveal_strlit("mulaw");
    lemma_lowercase_word("mulaw"@);
    reveal_strlit("s24le");
    lemma_lowercase_word("s24le"@);
    reveal_strlit("s32le");
    lemma_lowercase_word("s32le"@);
    reveal_strlit("s16le");
    lemma_lowercase_word("s16le"@);
    reveal_strlit("f32le");
    lemma_lowercase_word("f32le"@);
    reveal_strlit("f64le");
    lemma_lowercase_word("f64le"@);
    reveal_strlit("s16be");
    lemma_lowercase_word("s16be"@);
    reveal_strlit("s24be");
    lemma_lowercase_word("s24be"@);
    reveal_strlit("s32be");
    lemma_lowercase_word("s32be"@);
    reveal_strlit("f32be");
    lemma_lowercase_word("f32be"@);
    reveal_strlit("f64be");
    lemma_lowercase_word("f64be"@);
    let offered = container_choices(codec, raw, rate);
    assert forall|j: int| 0 <= j < offered.len() implies known_container(
        lower(#[trigger] offered[j]),
    ) by {
        assert(j == 0 || j == 1 || j == 2 || j == 3 || j == 4 || j == 5 || j == 6 || j == 7);
    }
}


/// A codec name that is already canonical stays as it is: canonicalizing
/// twice is canonicalizing once.
pub proof fn canonical_is_idempotent(value: Seq<char>)
    ensures
        canonical_of(canonical_of(value)) == canonical_of(value),
{
    reveal_with_fuel(lowercase_upto, 7);
    reveal_strlit("speex");
    lemma_lowercase_word("speex"@);
    reveal_strlit("amr_wb");
    lemma_lowercase_word("amr_wb"@);
    reveal_strlit("amr");
    lemma_lowercase_word("amr"@);
    reveal_strlit("opus");
    lemma_lowercase_word("opus"@);
    reveal_strlit("vorbis");
    lemma_lowercase_word("vorbis"@);
    reveal_strlit("pcm");
    lemma_lowercase_word("pcm"@);
    reveal_strlit("libspeex");
    reveal_strlit("libvo_amrwbenc");
    reveal_strlit("libopencore_amrnb");
    reveal_strlit("libopus");
    reveal_strlit("libvorbis");
    reveal_strlit("vorb");
    reveal_strlit("pcm_s16le");
    reveal_strlit("pcm_s24le");
    reveal_strlit("pcm_s32le");
    lemma_lower_idempotent(value);
    assert(canonical_of("speex"@) == "speex"@);
    assert(canonical_of("amr_wb"@) == "amr_wb"@);
    assert(canonical_of("amr"@) == "amr"@);
    assert("opus"@[0] != "vorb"@[0]);
    assert(canonical_of("opus"@) == "opus"@);
    assert(canonical_of("vorbis"@) == "vorbis"@);
    assert(canonical_of("pcm"@) == "pcm"@);
}

/// Choosing a channel count sets that field and may only reconcile the
/// bitrate; the depth, rate, codec and container stay as they were.
pub proof fn channel_choice_changes_only_the_bitrate(
    values: Seq<Seq<char>>,
    value: Seq<char>,
)
    requires
        values.len() == 6,
    ensures
        selected(values, 0, value).len() == 6,
        selected(values, 0, value)[0] == value,
        forall|f: int|
            0 <= f < 6 && f != 0 && f != 3 ==> #[trigger] selected(values, 0, value)[f]
                == values[f],
{
}


/// Whether the container field names one of the containers the fields
/// offer, ignoring ASCII case.
pub open spec fn container_offered(values: Seq<Seq<char>>) -> bool {
    exists|i: int|
        0 <= i < field_options(values, 5).len() && lower(#[trigger] field_options(values, 5)[i])
            == lower(values[5])
}

proof fn lemma_container_step(b: Seq<Seq<char>>, default: Seq<char>)
    requires
        b.len() == 6,
    ensures
        keep_or_default(b, 5, default).len() == 6,
        forall|j: int| 0 <= j < 6 && j != 5 ==> #[trigger] keep_or_default(b, 5, default)[j] == b[j],
        field_options(b, 5).len() > 0 ==> exists|i: int|
            0 <= i < field_options(b, 5).len() && lower(#[trigger] field_options(b, 5)[i]) == lower(
                keep_or_default(b, 5, default)[5],
            ),
{
    let options = field_options(b, 5);
    let c = keep_or_default(b, 5, default);
    if options.len() > 0 {
        if exists|i: int| 0 <= i < options.len() && lower(#[trigger] options[i]) == lower(b[5]) {
        } else if options.contains(default) {
            let i = choose|i: int| 0 <= i < options.len() && options[i] == default;
            assert(lower(options[i]) == lower(c[5]));
        } else {
            assert(lower(options[0]) == lower(c[5]));
        }
    }
}

proof fn lemma_other_step(w: Seq<Seq<char>>, field: int, default: Seq<char>)
    requires
        w.len() == 6,
        0 <= field < 6,
    ensures
        keep_or_default(w, field, default).len() == 6,
        forall|j: int|
            0 <= j < 6 && j != field ==> #[trigger] keep_or_default(w, field, default)[j] == w[j],
{
}

/// Choosing a codec leaves a container that the codec offers (ignoring
/// ASCII case) at the sampling rate the draft had when the codec was
/// chosen, whenever the codec offers any. So unless the choice also reset
/// the rate, the container is one the resulting fields offer.
pub proof fn codec_choice_keeps_an_offered_container(values: Seq<Seq<char>>, codec: Seq<char>)
    requires
        values.len() == 6,
    ensures
        ({
            let r = selected(values, 4, codec);
            field_options(r.update(2, values[2]), 5).len() > 0 ==> container_offered(
                r.update(2, values[2]),
            )
        }),
        ({
            let r = selected(values, 4, codec);
            r[2] == values[2] && field_options(r, 5).len() > 0 ==> container_offered(r)
        }),
{
    let v = values.update(4, codec);
    let a = if codec_of(v) == "pcm"@ {
        let b0 = if v[1] == "16"@ || v[1] == "24"@ || v[1] == "32"@ {
            v
        } else {
            v.update(1, "16"@)
        };
        map_pcm(b0)
    } else {
        v
    };
    let b = if (parsed_i32(a[0]) matches Some(n) && 1 <= n <= max_channels(codec_of(a))) {
        a
    } else {
        a.update(0, "1"@)
    };
    assert(b.len() == 6 && b[2] == values[2]);
    let c = keep_or_default(b, 5, first_container(b));
    lemma_container_step(b, first_container(b));
    let d = if !takes_any_rate(codec_of(c)) {
        keep_or_default(c, 2, "16000"@)
    } else {
        c
    };
    lemma_other_step(c, 2, "16000"@);
    assert(codec_selected(v) == d);
    assert(d.len() == 6 && d[4] == b[4] && d[5] == c[5]);
    let r = selected(values, 4, codec);
    lemma_other_step(d, 3, "128"@);
    assert(r.len() == 6 && r[4] == b[4] && r[5] == c[5]);
    let at_choice = r.update(2, values[2]);
    assert(at_choice[4] == b[4] && at_choice[2] == b[2] && at_choice[5] == c[5]);
    assert(field_options(at_choice, 5) == field_options(b, 5));
    if field_options(at_choice, 5).len() > 0 {
        let i = choose|i: int|
            0 <= i < field_options(b, 5).len() && lower(#[trigger] field_options(b, 5)[i]) == lower(
                c[5],
            );
        assert(lower(field_options(at_choice, 5)[i]) == lower(at_choice[5]));
    }
    if r[2] == values[2] {
        assert(at_choice =~= r);
    }
}


/// A positive number's decimal text parses back to it.
proof fn lemma_positive_text_parses(n: int)
    requires
        0 < n <= 0x7fff_ffff,
    ensures
        parsed_i32(signed_decimal(n)) == Some(n),
{
    lemma_decimal_reads_back(n as nat);
    let s = decimal(n as nat);
    assert(crate::text::is_ascii_digit(s[0]));
}

/// A field either keeps its text or takes one of the options offered.
proof fn lemma_kept_or_offered(w: Seq<Seq<char>>, f: int, d: Seq<char>)
    requires
        w.len() == 6,
        0 <= f < 6,
    ensures
        keep_or_default(w, f, d)[f] == w[f] || exists|i: int|
            0 <= i < field_options(w, f).len() && keep_or_default(w, f, d)[f]
                == #[trigger] field_options(w, f)[i],
{
    let options = field_options(w, f);
    let r = keep_or_default(w, f, d);
    if r[f] != w[f] {
        if options.contains(d) {
            let i = choose|i: int| 0 <= i < options.len() && options[i] == d;
            assert(r[f] == options[i]);
        } else {
            assert(r[f] == options[0]);
        }
    }
}

/// The sampling rates and bitrates offered are positive numbers.
proof fn lemma_offered_numbers_parse(w: Seq<Seq<char>>, f: int, i: int)
    requires
        f == 2 || f == 3,
        0 <= i < field_options(w, f).len(),
    ensures
        parsed_i32(field_options(w, f)[i]) matches Some(n) && n > 0,
{
    lemma_presets_ascend();
    if f == 2 {
        let s = rate_presets();
        lemma_kept_rates_ascend(codec_of(w), s);
        let kept = rate_choices(w);
        let j = choose|j: int| 0 <= j < s.len() && s[j] == #[trigger] kept[i];
        assert(s[0] > 0);
        assert(s[j] >= s[0]);
        lemma_positive_text_parses(kept[i] as int);
    } else if codec_of(w) == "amr_wb"@ {
        let s = amr_wb_bitrates();
        assert(s[0] > 0);
        assert(s[i] >= s[0]);
        lemma_positive_text_parses(s[i] as int);
    } else {
        let s = bitrate_presets();
        lemma_kept_bitrates_ascend(codec_of(w), rate_of(w), channels_of(w), s);
        let kept = bitrate_choices(w);
        let j = choose|j: int| 0 <= j < s.len() && s[j] == #[trigger] kept[i];
        assert(s[0] > 0);
        assert(s[j] >= s[0]);
        lemma_positive_text_parses(kept[i] as int);
    }
}

/// The PCM names a depth maps to are known codecs, and their own lowercase.
proof fn lemma_pcm_names_known(depth: Seq<char>)
    requires
        depth == "16"@ || depth == "24"@ || depth == "32"@,
    ensures
        lower("pcm_s"@ + depth + "le"@) == "pcm_s"@ + depth + "le"@,
        known_codec("pcm_s"@ + depth + "le"@),
{
    reveal_strlit("16");
    reveal_strlit("24");
    reveal_strlit("32");
    reveal_strlit("pcm_s");
    reveal_strlit("le");
    reveal_strlit("pcm_s16le");
    reveal_strlit("pcm_s24le");
    reveal_strlit("pcm_s32le");
    reveal_strlit("opus");
    reveal_strlit("libopus");
    reveal_strlit("wavpack");
    reveal_strlit("aac");
    reveal_strlit("ac3");
    reveal_strlit("eac3");
    reveal_strlit("mp3");
    reveal_strlit("mp2");
    reveal_strlit("mp1");
    reveal_strlit("flac");
    reveal_strlit("alac");
    reveal_strlit("pcm");
    reveal_strlit("vorbis");
    reveal_strlit("libvorbis");
    reveal_strlit("vorb");
    reveal_strlit("adpcm");
    reveal_strlit("amr");
    reveal_strlit("libopencore_amrnb");
    reveal_strlit("amr_wb");
    reveal_strlit("libvo_amrwbenc");
    reveal_strlit("speex");
    reveal_strlit("libspeex");
    reveal_strlit("wmav1");
    reveal_strlit("wmav2");
    reveal_strlit("pcm_alaw");
    reveal_strlit("pcm_mulaw");
    reveal_strlit("pcm_f32be");
    reveal_strlit("pcm_f32le");
    reveal_strlit("pcm_f64be");
    reveal_strlit("pcm_f64le");
    reveal_strlit("pcm_s16be");
    reveal_strlit("pcm_s24be");
    reveal_strlit("pcm_s32be");
    let name = "pcm_s"@ + depth + "le"@;
    reveal_with_fuel(lowercase_upto, 10);
    if depth == "16"@ {
        assert(name =~= "pcm_s16le"@);
    } else if depth == "24"@ {
        assert(name =~= "pcm_s24le"@);
    } else {
        assert(name =~= "pcm_s32le"@);
    }
    lemma_lowercase_word(name);
}

/// A configuration that passes validation still passes, and still has
/// conversion settings, when its audio fields are taken from a draft of it
/// in which a codec of the menu was chosen: the channels, depth, rate and
/// bitrate as the draft's numbers (which all parse), the codec as the draft
/// names it, and any container the draft then offers.
pub proof fn menu_choices_keep_a_configuration_valid(base: Config, k: int, j: int, cfg: Config)
    requires
        config_problem(base) is None,
        0 <= k < codec_names().len(),
        ({
            let v = selected(draft_texts(base), 4, codec_names()[k]);
            &&& 0 <= j < field_options(v, 5).len()
            &&& cfg.channels == parsed_i32(v[0])->Some_0
            &&& cfg.sampling_rate_depth == parsed_i32(v[1])->Some_0
            &&& cfg.sampling_rate == parsed_i32(v[2])->Some_0
            &&& cfg.bit_rate == parsed_i32(v[3])->Some_0
            &&& cfg.codecs@ == v[4]
            &&& cfg.container@ == field_options(v, 5)[j]
        }),
        cfg.vad_padding_ms == base.vad_padding_ms,
        cfg.start_key@ == base.start_key@,
        cfg.pause_key@ == base.pause_key@,
        cfg.cancel_or_retry_key@ == base.cancel_or_retry_key@,
        cfg.text_path@ == base.text_path@,
        cfg.extra_config@ == base.extra_config@,
    ensures
        ({
            let v = selected(draft_texts(base), 4, codec_names()[k]);
            &&& parsed_i32(v[0]) is Some
            &&& parsed_i32(v[1]) is Some
            &&& parsed_i32(v[2]) is Some
            &&& parsed_i32(v[3]) is Some
        }),
        config_problem(cfg) is None,
        settings_spec(cfg, 16000) is Some,
{
    let texts = draft_texts(base);
    let name = codec_names()[k];
    let v1 = texts.update(4, name);
    let b0 = if v1[1] == "16"@ || v1[1] == "24"@ || v1[1] == "32"@ {
        v1
    } else {
        v1.update(1, "16"@)
    };
    let a = if codec_of(v1) == "pcm"@ {
        map_pcm(b0)
    } else {
        v1
    };
    let b = if (parsed_i32(a[0]) matches Some(n) && 1 <= n <= max_channels(codec_of(a))) {
        a
    } else {
        a.update(0, "1"@)
    };
    let c = keep_or_default(b, 5, first_container(b));
    lemma_container_step(b, first_container(b));
    let d = if !takes_any_rate(codec_of(c)) {
        keep_or_default(c, 2, "16000"@)
    } else {
        c
    };
    lemma_other_step(c, 2, "16000"@);
    lemma_kept_or_offered(c, 2, "16000"@);
    assert(codec_selected(v1) == d);
    let v = selected(texts, 4, name);
    lemma_other_step(d, 3, "128"@);
    lemma_kept_or_offered(d, 3, "128"@);
    assert(v.len() == 6);
    assert(v[0] == b[0] && v[1] == a[1] && v[4] == a[4]);
    assert(v[2] == d[2]);
    assert(v[3] == d[3] || v[3] == keep_or_default(d, 3, "128"@)[3]);
    // Channels: kept within 1..=8 or reset to one.
    reveal_strlit("1");
    assert("1"@ =~= signed_decimal(1));
    lemma_positive_text_parses(1);
    // Depth: the configured one, or 16 for PCM.
    reveal_strlit("16");
    assert("16"@ =~= signed_decimal(16));
    lemma_positive_text_parses(16);
    lemma_positive_text_parses(base.sampling_rate_depth as int);
    // Rate and bitrate: the configured ones or offered presets.
    lemma_positive_text_parses(base.sampling_rate as int);
    lemma_positive_text_parses(base.bit_rate as int);
    if v[2] != texts[2] {
        let i = choose|i: int| 0 <= i < field_options(c, 2).len() && d[2] == #[trigger] field_options(c, 2)[i];
        lemma_offered_numbers_parse(c, 2, i);
    }
    if v[3] != texts[3] {
        assert(v[3] == keep_or_default(d, 3, "128"@)[3]);
        let i = choose|i: int| 0 <= i < field_options(d, 3).len() && keep_or_default(d, 3, "128"@)[3] == #[trigger] field_options(d, 3)[i];
        lemma_offered_numbers_parse(d, 3, i);
    }
    // Codec: a menu name, or the PCM name of the depth.
    if codec_of(v1) == "pcm"@ {
        lemma_pcm_names_known(b0[1]);
    } else {
        menu_codecs_pass_the_codec_check(k);
    }
    // Container: offered, so known.
    offered_containers_pass_the_container_check(codec_of(v), lower(v[4]), rate_of(v));
}

} // verus!
