//! Conversion settings derived from the configuration, the codec table, and
//! the argument list of an external converter.
use vstd::prelude::*;

use crate::config::{known_codec, Config};
use crate::text::{
    chars_of, eq_str, lemma_lower_idempotent, lower, lower_chars, owned, push_str, signed_decimal,
    signed_decimal_chars, string_of,
};

verus! {

/// Why an audio conversion did not produce its output.
#[derive(Debug, Clone)]
pub enum ConvertError {
    Canceled,
    SamePath,
    UnsupportedCodec(String),
    Start(String),
    Failed { message: String },
    LibAvUnavailable,
    NoSpeech,
}

impl ConvertError {
    pub open spec fn is_failed(&self) -> bool {
        self is Failed
    }

    /// The text this error displays.
    pub open spec fn text(&self) -> Seq<char> {
        match self {
            ConvertError::Canceled => "conversion canceled"@,
            ConvertError::SamePath => "input and output paths must differ"@,
            ConvertError::UnsupportedCodec(c) => "unsupported codec: "@ + c@,
            ConvertError::Start(e) => "failed to start ffmpeg: "@ + e@,
            ConvertError::Failed { message } => "ffmpeg failed: "@ + message@,
            ConvertError::LibAvUnavailable => "libav conversion is unavailable in this build"@,
            ConvertError::NoSpeech => "no speech detected"@,
        }
    }

    /// The text this error displays.
    pub fn message(&self) -> (r: String)
        ensures
            r@ == self.text(),
    {
        let mut out: Vec<char> = Vec::new();
        match self {
            ConvertError::Canceled => push_str(&mut out, "conversion canceled"),
            ConvertError::SamePath => push_str(&mut out, "input and output paths must differ"),
            ConvertError::UnsupportedCodec(c) => {
                push_str(&mut out, "unsupported codec: ");
                push_str(&mut out, c.as_str());
            },
            ConvertError::Start(e) => {
                push_str(&mut out, "failed to start ffmpeg: ");
                push_str(&mut out, e.as_str());
            },
            ConvertError::Failed { message } => {
                push_str(&mut out, "ffmpeg failed: ");
                push_str(&mut out, message.as_str());
            },
            ConvertError::LibAvUnavailable => push_str(
                &mut out,
                "libav conversion is unavailable in this build",
            ),
            ConvertError::NoSpeech => push_str(&mut out, "no speech detected"),
        }
        proof {
            assert(out@ =~= self.text());
        }
        string_of(out.as_slice())
    }
}

/// What a converter needs to produce the upload file.
#[derive(Debug, Clone)]
pub struct ConversionSettings {
    pub codec_key: String,
    pub ffmpeg_codec: String,
    pub codec_has_bitrate: bool,
    pub channels: i32,
    pub sample_rate: i32,
    pub bitrate: i32,
    pub depth: i32,
    pub sample_format: String,
}

/// The encoder and whether it takes a bitrate, for a lowercase codec name or alias.
pub open spec fn codec_encoder(key: Seq<char>) -> Option<(Seq<char>, bool)> {
    if key == "opus"@ || key == "libopus"@ {
        Some(("libopus"@, true))
    } else if key == "wavpack"@ {
        Some(("wavpack"@, false))
    } else if key == "aac"@ {
        Some(("aac"@, true))
    } else if key == "ac3"@ {
        Some(("ac3"@, true))
    } else if key == "eac3"@ {
        Some(("eac3"@, true))
    } else if key == "mp3"@ {
        Some(("libmp3lame"@, true))
    } else if key == "mp2"@ {
        Some(("mp2"@, true))
    } else if key == "mp1"@ {
        Some(("mp1"@, true))
    } else if key == "flac"@ {
        Some(("flac"@, false))
    } else if key == "alac"@ {
        Some(("alac"@, false))
    } else if key == "pcm"@ {
        Some(("pcm_s16le"@, false))
    } else if key == "vorbis"@ || key == "libvorbis"@ || key == "vorb"@ {
        Some(("libvorbis"@, true))
    } else if key == "adpcm"@ {
        Some(("adpcm_ms"@, false))
    } else if key == "amr"@ || key == "libopencore_amrnb"@ {
        Some(("libopencore_amrnb"@, true))
    } else if key == "amr_wb"@ || key == "libvo_amrwbenc"@ {
        Some(("libvo_amrwbenc"@, true))
    } else if key == "speex"@ || key == "libspeex"@ {
        Some(("libspeex"@, true))
    } else if key == "wmav1"@ {
        Some(("wmav1"@, true))
    } else if key == "wmav2"@ {
        Some(("wmav2"@, true))
    } else if key == "pcm_alaw"@ {
        Some(("pcm_alaw"@, false))
    } else if key == "pcm_mulaw"@ {
        Some(("pcm_mulaw"@, false))
    } else if key == "pcm_f32be"@ {
        Some(("pcm_f32be"@, false))
    } else if key == "pcm_f32le"@ {
        Some(("pcm_f32le"@, false))
    } else if key == "pcm_f64be"@ {
        Some(("pcm_f64be"@, false))
    } else if key == "pcm_f64le"@ {
        Some(("pcm_f64le"@, false))
    } else if key == "pcm_s16be"@ {
        Some(("pcm_s16be"@, false))
    } else if key == "pcm_s16le"@ {
        Some(("pcm_s16le"@, false))
    } else if key == "pcm_s24be"@ {
        Some(("pcm_s24be"@, false))
    } else if key == "pcm_s24le"@ {
        Some(("pcm_s24le"@, false))
    } else if key == "pcm_s32be"@ {
        Some(("pcm_s32be"@, false))
    } else if key == "pcm_s32le"@ {
        Some(("pcm_s32le"@, false))
    } else if key == "pcm_s64be"@ {
        Some(("pcm_s64be"@, false))
    } else if key == "pcm_s64le"@ {
        Some(("pcm_s64le"@, false))
    } else if key == "pcm_s8"@ {
        Some(("pcm_s8"@, false))
    } else {
        None
    }
}

fn codec_encoder_exec(key: &[char]) -> (r: Option<(&'static str, bool)>)
    ensures
        match r {
            Some((e, b)) => codec_encoder(key@) == Some((e@, b)),
            None => codec_encoder(key@) is None,
        },
{
    if eq_str(key, "opus") || eq_str(key, "libopus") {
        Some(("libopus", true))
    } else if eq_str(key, "wavpack") {
        Some(("wavpack", false))
    } else if eq_str(key, "aac") {
        Some(("aac", true))
    } else if eq_str(key, "ac3") {
        Some(("ac3", true))
    } else if eq_str(key, "eac3") {
        Some(("eac3", true))
    } else if eq_str(key, "mp3") {
        Some(("libmp3lame", true))
    } else if eq_str(key, "mp2") {
        Some(("mp2", true))
    } else if eq_str(key, "mp1") {
        Some(("mp1", true))
    } else if eq_str(key, "flac") {
        Some(("flac", false))
    } else if eq_str(key, "alac") {
        Some(("alac", false))
    } else if eq_str(key, "pcm") {
        Some(("pcm_s16le", false))
    } else if eq_str(key, "vorbis") || eq_str(key, "libvorbis") || eq_str(key, "vorb") {
        Some(("libvorbis", true))
    } else if eq_str(key, "adpcm") {
        Some(("adpcm_ms", false))
    } else if eq_str(key, "amr") || eq_str(key, "libopencore_amrnb") {
        Some(("libopencore_amrnb", true))
    } else if eq_str(key, "amr_wb") || eq_str(key, "libvo_amrwbenc") {
        Some(("libvo_amrwbenc", true))
    } else if eq_str(key, "speex") || eq_str(key, "libspeex") {
        Some(("libspeex", true))
    } else if eq_str(key, "wmav1") {
        Some(("wmav1", true))
    } else if eq_str(key, "wmav2") {
        Some(("wmav2", true))
    } else if eq_str(key, "pcm_alaw") {
        Some(("pcm_alaw", false))
    } else if eq_str(key, "pcm_mulaw") {
        Some(("pcm_mulaw", false))
    } else if eq_str(key, "pcm_f32be") {
        Some(("pcm_f32be", false))
    } else if eq_str(key, "pcm_f32le") {
        Some(("pcm_f32le", false))
    } else if eq_str(key, "pcm_f64be") {
        Some(("pcm_f64be", false))
    } else if eq_str(key, "pcm_f64le") {
        Some(("pcm_f64le", false))
    } else if eq_str(key, "pcm_s16be") {
        Some(("pcm_s16be", false))
    } else if eq_str(key, "pcm_s16le") {
        Some(("pcm_s16le", false))
    } else if eq_str(key, "pcm_s24be") {
        Some(("pcm_s24be", false))
    } else if eq_str(key, "pcm_s24le") {
        Some(("pcm_s24le", false))
    } else if eq_str(key, "pcm_s32be") {
        Some(("pcm_s32be", false))
    } else if eq_str(key, "pcm_s32le") {
        Some(("pcm_s32le", false))
    } else if eq_str(key, "pcm_s64be") {
        Some(("pcm_s64be", false))
    } else if eq_str(key, "pcm_s64le") {
        Some(("pcm_s64le", false))
    } else if eq_str(key, "pcm_s8") {
        Some(("pcm_s8", false))
    } else {
        None
    }
}

/// Looks a codec name or alias up, ignoring ASCII case.
pub fn ffmpeg_codec_for(codec: &str) -> (r: Option<(&'static str, bool)>)
    ensures
        match r {
            Some((e, b)) => codec_encoder(lower(codec@)) == Some((e@, b)),
            None => codec_encoder(lower(codec@)) is None,
        },
{
    let key = lower_chars(chars_of(codec).as_slice());
    codec_encoder_exec(key.as_slice())
}

/// The `-sample_fmt` value for a bit depth, empty when there is none.
pub open spec fn depth_sample_format(depth: int) -> Seq<char> {
    if depth == 8 {
        "u8"@
    } else if depth == 16 {
        "s16"@
    } else if depth == 24 {
        "s24"@
    } else if depth == 32 {
        "s32"@
    } else {
        Seq::empty()
    }
}

pub fn sample_format_for_depth(depth: i32) -> (r: &'static str)
    ensures
        r@ == depth_sample_format(depth as int),
{
    if depth == 8 {
        "u8"
    } else if depth == 16 {
        "s16"
    } else if depth == 24 {
        "s24"
    } else if depth == 32 {
        "s32"
    } else {
        proof {
            reveal_strlit("");
        }
        ""
    }
}

pub open spec fn is_pcm_encoder(e: Seq<char>) -> bool {
    e.len() >= 4 && e.take(4) == "pcm_"@
}

fn is_pcm_encoder_exec(e: &str) -> (r: bool)
    ensures
        r == is_pcm_encoder(e@),
{
    let chars = chars_of(e);
    proof {
        reveal_strlit("pcm_");
    }
    if chars.len() < 4 {
        return false;
    }
    let r = chars[0] == 'p' && chars[1] == 'c' && chars[2] == 'm' && chars[3] == '_';
    proof {
        if r {
            assert(chars@.take(4) =~= "pcm_"@);
        } else if chars@.take(4) == "pcm_"@ {
            assert(chars@[0] == chars@.take(4)[0]);
            assert(chars@[1] == chars@.take(4)[1]);
            assert(chars@[2] == chars@.take(4)[2]);
            assert(chars@[3] == chars@.take(4)[3]);
        }
    }
    r
}

/// The settings derived from a configuration; `source_rate` is used when
/// the configured rate is not positive.
pub open spec fn settings_spec(config: Config, source_rate: int) -> Option<SettingsView> {
    match codec_encoder(lower(config.codecs@)) {
        None => None,
        Some((encoder, has_bitrate)) => {
            let depth = if config.sampling_rate_depth == 0 { 16 } else { config.sampling_rate_depth as int };
            Some(
                SettingsView {
                    codec_key: lower(config.codecs@),
                    ffmpeg_codec: encoder,
                    codec_has_bitrate: has_bitrate,
                    channels: if config.channels <= 0 { 1 } else { config.channels as int },
                    sample_rate: if config.sampling_rate <= 0 { source_rate } else { config.sampling_rate as int },
                    bitrate: if config.bit_rate <= 0 { 128 } else { config.bit_rate as int },
                    depth,
                    sample_format: if is_pcm_encoder(encoder) { Seq::empty() } else { depth_sample_format(depth) },
                },
            )
        },
    }
}

/// The mathematical content of [`ConversionSettings`].
pub struct SettingsView {
    pub codec_key: Seq<char>,
    pub ffmpeg_codec: Seq<char>,
    pub codec_has_bitrate: bool,
    pub channels: int,
    pub sample_rate: int,
    pub bitrate: int,
    pub depth: int,
    pub sample_format: Seq<char>,
}

impl View for ConversionSettings {
    type V = SettingsView;

    open spec fn view(&self) -> SettingsView {
        SettingsView {
            codec_key: self.codec_key@,
            ffmpeg_codec: self.ffmpeg_codec@,
            codec_has_bitrate: self.codec_has_bitrate,
            channels: self.channels as int,
            sample_rate: self.sample_rate as int,
            bitrate: self.bitrate as int,
            depth: self.depth as int,
            sample_format: self.sample_format@,
        }
    }
}

/// Derives conversion settings: unknown codecs are refused; a channel count,
/// rate or bitrate that is not positive becomes 1, `source_rate` and 128;
/// depth 0 becomes 16; PCM encoders get no sample format.
pub fn settings_for(config: &Config, source_rate: i32) -> (r: Result<ConversionSettings, ConvertError>)
    ensures
        match r {
            Ok(s) => settings_spec(*config, source_rate as int) == Some(s@),
            Err(e) => settings_spec(*config, source_rate as int) is None && (e matches ConvertError::UnsupportedCodec(c) && c@ == config.codecs@),
        },
{
    let codec_key = lower_chars(chars_of(config.codecs.as_str()).as_slice());
    let (encoder, has_bitrate) = match codec_encoder_exec(codec_key.as_slice()) {
        Some(found) => found,
        None => {
            let codecs = config.codecs.clone();
            return Err(ConvertError::UnsupportedCodec(codecs));
        },
    };
    let channels = if config.channels <= 0 {
        1
    } else {
        config.channels
    };
    let sample_rate = if config.sampling_rate <= 0 {
        source_rate
    } else {
        config.sampling_rate
    };
    let bitrate = if config.bit_rate <= 0 {
        128
    } else {
        config.bit_rate
    };
    let depth = if config.sampling_rate_depth == 0 {
        16
    } else {
        config.sampling_rate_depth
    };
    let sample_format = if is_pcm_encoder_exec(encoder) {
        string_of(Vec::<char>::new().as_slice())
    } else {
        string_of(chars_of(sample_format_for_depth(depth)).as_slice())
    };
    let settings = ConversionSettings {
        codec_key: string_of(codec_key.as_slice()),
        ffmpeg_codec: string_of(chars_of(encoder).as_slice()),
        codec_has_bitrate: has_bitrate,
        channels,
        sample_rate,
        bitrate,
        depth,
        sample_format,
    };
    proof {
        assert(settings@.sample_format =~= settings_spec(*config, source_rate as int).unwrap().sample_format);
    }
    Ok(settings)
}

/// The argument list of an external converter for these settings.
pub open spec fn ffmpeg_arg_list(s: SettingsView, input: Seq<char>, output: Seq<char>) -> Seq<Seq<char>> {
    let base = seq![
        "-y"@,
        "-i"@,
        input,
        "-ac"@,
        signed_decimal(s.channels),
        "-ar"@,
        signed_decimal(s.sample_rate),
        "-c:a"@,
        s.ffmpeg_codec,
    ];
    let encoder_options = if is_pcm_encoder(s.ffmpeg_codec) {
        Seq::empty()
    } else {
        (if s.codec_has_bitrate {
            seq!["-b:a"@, signed_decimal(s.bitrate) + "k"@]
        } else {
            Seq::empty()
        }) + (if s.sample_format.len() != 0 {
            seq!["-sample_fmt"@, s.sample_format]
        } else {
            Seq::empty()
        })
    };
    base + encoder_options + seq![output]
}

fn number_arg(n: i32) -> (r: String)
    ensures
        r@ == signed_decimal(n as int),
{
    string_of(signed_decimal_chars(n as i64).as_slice())
}

/// Arguments for converting `input` into `output`, in a fixed order.
pub fn ffmpeg_args(settings: &ConversionSettings, input: &str, output: &str) -> (r: Vec<String>)
    ensures
        r@.map_values(|a: String| a@) == ffmpeg_arg_list(settings@, input@, output@),
{
    let mut args: Vec<String> = Vec::new();
    args.push(owned("-y"));
    args.push(owned("-i"));
    args.push(owned(input));
    args.push(owned("-ac"));
    args.push(number_arg(settings.channels));
    args.push(owned("-ar"));
    args.push(number_arg(settings.sample_rate));
    args.push(owned("-c:a"));
    args.push(settings.ffmpeg_codec.clone());
    let ghost base = args@.map_values(|a: String| a@);
    if !is_pcm_encoder_exec(settings.ffmpeg_codec.as_str()) {
        if settings.codec_has_bitrate {
            args.push(owned("-b:a"));
            let mut rate = signed_decimal_chars(settings.bitrate as i64);
            push_str(&mut rate, "k");
            args.push(string_of(rate.as_slice()));
        }
        if !settings.sample_format.as_str().is_empty() {
            args.push(owned("-sample_fmt"));
            args.push(settings.sample_format.clone());
        }
    }
    args.push(owned(output));
    proof {
        assert(args@.map_values(|a: String| a@) =~= ffmpeg_arg_list(settings@, input@, output@));
    }
    args
}

/// Whether two paths are the same text ignoring ASCII case.
pub fn paths_equal(first: &str, second: &str) -> (r: bool)
    ensures
        r == (lower(first@) == lower(second@)),
{
    let a = lower_chars(chars_of(first).as_slice());
    let b = lower_chars(chars_of(second).as_slice());
    crate::text::same_chars(a.as_slice(), b.as_slice())
}

/// Codec lookup ignores ASCII case, accepts exactly the codecs that the
/// configuration accepts, and a PCM encoder never takes a bitrate.
pub proof fn codec_lookup_laws(codec: Seq<char>)
    ensures
        codec_encoder(lower(lower(codec))) == codec_encoder(lower(codec)),
        known_codec(lower(codec)) <==> codec_encoder(lower(codec)) is Some,
        match codec_encoder(lower(codec)) {
            Some((e, b)) => is_pcm_encoder(e) ==> !b,
            None => true,
        },
{
    lemma_lower_idempotent(codec);
    reveal_strlit("pcm_");
    reveal_strlit("libopus");
    reveal_strlit("aac");
    reveal_strlit("ac3");
    reveal_strlit("eac3");
    reveal_strlit("libmp3lame");
    reveal_strlit("mp2");
    reveal_strlit("mp1");
    reveal_strlit("libvorbis");
    reveal_strlit("libopencore_amrnb");
    reveal_strlit("libvo_amrwbenc");
    reveal_strlit("libspeex");
    reveal_strlit("wmav1");
    reveal_strlit("wmav2");
    assert(!is_pcm_encoder("libopus"@)) by {
        assert("libopus"@.take(4)[0] == "libopus"@[0]);
    }
    assert(!is_pcm_encoder("aac"@));
    assert(!is_pcm_encoder("ac3"@));
    assert(!is_pcm_encoder("eac3"@)) by {
        assert("eac3"@.take(4)[0] == "eac3"@[0]);
    }
    assert(!is_pcm_encoder("libmp3lame"@)) by {
        assert("libmp3lame"@.take(4)[0] == "libmp3lame"@[0]);
    }
    assert(!is_pcm_encoder("mp2"@));
    assert(!is_pcm_encoder("mp1"@));
    assert(!is_pcm_encoder("libvorbis"@)) by {
        assert("libvorbis"@.take(4)[0] == "libvorbis"@[0]);
    }
    assert(!is_pcm_encoder("libopencore_amrnb"@)) by {
        assert("libopencore_amrnb"@.take(4)[0] == "libopencore_amrnb"@[0]);
    }
    assert(!is_pcm_encoder("libvo_amrwbenc"@)) by {
        assert("libvo_amrwbenc"@.take(4)[0] == "libvo_amrwbenc"@[0]);
    }
    assert(!is_pcm_encoder("libspeex"@)) by {
        assert("libspeex"@.take(4)[0] == "libspeex"@[0]);
    }
    assert(!is_pcm_encoder("wmav1"@)) by {
        assert("wmav1"@.take(4)[0] == "wmav1"@[0]);
    }
    assert(!is_pcm_encoder("wmav2"@)) by {
        assert("wmav2"@.take(4)[0] == "wmav2"@[0]);
    }
}


/// A positive configured sampling rate is the rate the conversion produces,
/// whatever the source's rate; the source's rate is used only when the
/// configuration sets none. So two sources of different rates convert to the
/// same configured rate.
pub proof fn configured_sampling_rate_wins(config: Config, source_rate: int, other_rate: int)
    ensures
        settings_spec(config, source_rate) is Some && config.sampling_rate > 0 ==> settings_spec(
            config,
            source_rate,
        )->Some_0.sample_rate == config.sampling_rate,
        settings_spec(config, source_rate) is Some && config.sampling_rate <= 0 ==> settings_spec(
            config,
            source_rate,
        )->Some_0.sample_rate == source_rate,
        config.sampling_rate > 0 ==> (settings_spec(config, source_rate) is Some <==> settings_spec(
            config,
            other_rate,
        ) is Some),
        config.sampling_rate > 0 && settings_spec(config, source_rate) is Some ==> settings_spec(
            config,
            source_rate,
        )->Some_0.sample_rate == settings_spec(config, other_rate)->Some_0.sample_rate,
{
}

} // verus!
