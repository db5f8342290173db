//! The shared configuration: defaults, and the rules a configuration must
//! satisfy before recording or uploading.
use vstd::prelude::*;

use crate::asr::{extra_config_entries, parse_extra_config};
use crate::hotkey::{bindings_outcome, fault_message, validate_bindings};
use crate::jsonpath::{jsonpath_parse, parse_text_path};
use crate::text::{
    chars_of, eq_str, lower, lower_chars, owned, push_chars, push_str, signed_decimal,
    signed_decimal_chars, string_of,
};

verus! {

/// The configuration fields the library reads. Floating-point settings
/// (retry delay, window opacity and scale, VAD start threshold) are kept by
/// the frontends.
#[derive(Debug, Clone)]
pub struct Config {
    pub api_endpoint: String,
    pub token: String,
    pub model: String,
    pub language: String,
    pub prompt: String,
    pub text_path: String,
    pub extra_config: String,
    pub input_device: String,
    pub input_device_name: String,
    pub channels: i32,
    pub sampling_rate: i32,
    pub enable_vad: bool,
    pub vad_padding_ms: u32,
    pub sampling_rate_depth: i32,
    pub bit_rate: i32,
    pub codecs: String,
    pub container: String,
    pub request_timeout: i32,
    pub max_retry: i32,
    pub enable_http2: bool,
    pub verify_ssl: bool,
    pub hotkey_hook: bool,
    pub use_sendinput: bool,
    pub start_key: String,
    pub pause_key: String,
    pub cancel_or_retry_key: String,
    pub clipboard_write_delay: u64,
    pub clipboard_restore_delay: u64,
    pub cache_dir: String,
    pub keep_cache: bool,
    pub request_failed_notification: bool,
    pub ffmpeg_debug: bool,
    pub record_debug: bool,
    pub hotkey_debug: bool,
    pub upload_debug: bool,
}

/// The default configuration.
pub open spec fn is_default(c: Config) -> bool {
    &&& c.api_endpoint@ == Seq::<char>::empty()
    &&& c.token@ == Seq::<char>::empty()
    &&& c.model@ == Seq::<char>::empty()
    &&& c.language@ == Seq::<char>::empty()
    &&& c.prompt@ == Seq::<char>::empty()
    &&& c.text_path@ == "$.text"@
    &&& c.extra_config@ == Seq::<char>::empty()
    &&& c.input_device@ == Seq::<char>::empty()
    &&& c.input_device_name@ == Seq::<char>::empty()
    &&& c.channels == 1
    &&& c.sampling_rate == 16000
    &&& !c.enable_vad
    &&& c.vad_padding_ms == 100
    &&& c.sampling_rate_depth == 16
    &&& c.bit_rate == 128
    &&& c.codecs@ == "opus"@
    &&& c.container@ == "opus"@
    &&& c.request_timeout == 60
    &&& c.max_retry == 3
    &&& c.enable_http2
    &&& c.verify_ssl
    &&& c.hotkey_hook
    &&& !c.use_sendinput
    &&& c.start_key@ == "ctrl+alt+q"@
    &&& c.pause_key@ == "ctrl+alt+s"@
    &&& c.cancel_or_retry_key@ == "alt+esc"@
    &&& c.clipboard_write_delay == 80
    &&& c.clipboard_restore_delay == 120
    &&& c.cache_dir@ == Seq::<char>::empty()
    &&& !c.keep_cache
    &&& !c.request_failed_notification
    &&& !c.ffmpeg_debug
    &&& !c.record_debug
    &&& c.hotkey_debug
    &&& !c.upload_debug
}

impl Default for Config {
    fn default() -> (c: Self)
        ensures
            is_default(c),
    {
        Config {
            api_endpoint: String::new(),
            token: String::new(),
            model: String::new(),
            language: String::new(),
            prompt: String::new(),
            text_path: owned("$.text"),
            extra_config: String::new(),
            input_device: String::new(),
            input_device_name: String::new(),
            channels: 1,
            sampling_rate: 16000,
            enable_vad: false,
            vad_padding_ms: 100,
            sampling_rate_depth: 16,
            bit_rate: 128,
            codecs: owned("opus"),
            container: owned("opus"),
            request_timeout: 60,
            max_retry: 3,
            enable_http2: true,
            verify_ssl: true,
            hotkey_hook: true,
            use_sendinput: false,
            start_key: owned("ctrl+alt+q"),
            pause_key: owned("ctrl+alt+s"),
            cancel_or_retry_key: owned("alt+esc"),
            clipboard_write_delay: 80,
            clipboard_restore_delay: 120,
            cache_dir: String::new(),
            keep_cache: false,
            request_failed_notification: false,
            ffmpeg_debug: false,
            record_debug: false,
            hotkey_debug: true,
            upload_debug: false,
        }
    }
}

/// A configuration that breaks a rule, with the explanation.
#[derive(Debug, Clone)]
pub enum ConfigError {
    Invalid(String),
}

impl ConfigError {
    pub open spec fn text(&self) -> Seq<char> {
        match self {
            ConfigError::Invalid(m) => m@,
        }
    }

    pub fn message(&self) -> (r: String)
        ensures
            r@ == self.text(),
    {
        match self {
            ConfigError::Invalid(m) => m.clone(),
        }
    }
}

/// Codec names and aliases accepted in the configuration (lowercase).
pub open spec fn known_codec(key: Seq<char>) -> bool {
    crate::converter::codec_encoder(key) is Some
}

/// Container formats accepted in the configuration (lowercase).
pub open spec fn known_container(key: Seq<char>) -> bool {
    key == "wav"@
        || key == "ac3"@
        || key == "ac4"@
        || key == "ogg"@
        || key == "oga"@
        || key == "mp3"@
        || key == "flac"@
        || key == "eac3"@
        || key == "aac"@
        || key == "m4a"@
        || key == "mp4"@
        || key == "opus"@
        || key == "webm"@
        || key == "s8"@
        || key == "s16be"@
        || key == "s16le"@
        || key == "s24be"@
        || key == "s24le"@
        || key == "s32be"@
        || key == "s32le"@
        || key == "f32be"@
        || key == "f32le"@
        || key == "f64be"@
        || key == "f64le"@
        || key == "mkv"@
        || key == "mka"@
        || key == "mov"@
        || key == "avi"@
        || key == "flv"@
        || key == "mpeg"@
        || key == "amr"@
        || key == "spx"@
        || key == "wv"@
        || key == "wma"@
        || key == "asf"@
        || key == "aiff"@
        || key == "alaw"@
        || key == "mulaw"@
}

fn known_container_exec(key: &[char]) -> (r: bool)
    ensures
        r == known_container(key@),
{
    eq_str(key, "wav")
        || eq_str(key, "ac3")
        || eq_str(key, "ac4")
        || eq_str(key, "ogg")
        || eq_str(key, "oga")
        || eq_str(key, "mp3")
        || eq_str(key, "flac")
        || eq_str(key, "eac3")
        || eq_str(key, "aac")
        || eq_str(key, "m4a")
        || eq_str(key, "mp4")
        || eq_str(key, "opus")
        || eq_str(key, "webm")
        || eq_str(key, "s8")
        || eq_str(key, "s16be")
        || eq_str(key, "s16le")
        || eq_str(key, "s24be")
        || eq_str(key, "s24le")
        || eq_str(key, "s32be")
        || eq_str(key, "s32le")
        || eq_str(key, "f32be")
        || eq_str(key, "f32le")
        || eq_str(key, "f64be")
        || eq_str(key, "f64le")
        || eq_str(key, "mkv")
        || eq_str(key, "mka")
        || eq_str(key, "mov")
        || eq_str(key, "avi")
        || eq_str(key, "flv")
        || eq_str(key, "mpeg")
        || eq_str(key, "amr")
        || eq_str(key, "spx")
        || eq_str(key, "wv")
        || eq_str(key, "wma")
        || eq_str(key, "asf")
        || eq_str(key, "aiff")
        || eq_str(key, "alaw")
        || eq_str(key, "mulaw")
}

/// The first rule a configuration breaks, as its message.
pub open spec fn config_problem(c: Config) -> Option<Seq<char>> {
    if !(1 <= c.channels <= 8) {
        Some("invalid Channels: "@ + signed_decimal(c.channels as int) + " (allowed 1..8)"@)
    } else if c.sampling_rate <= 0 {
        Some("invalid SAMPLING_RATE: "@ + signed_decimal(c.sampling_rate as int) + " (must be > 0)"@)
    } else if !(c.sampling_rate_depth == 8 || c.sampling_rate_depth == 16 || c.sampling_rate_depth
        == 24 || c.sampling_rate_depth == 32) {
        Some(
            "invalid SAMPLING_RATE_DEPTH: "@ + signed_decimal(c.sampling_rate_depth as int)
                + " (allowed: 8,16,24,32)"@,
        )
    } else if c.bit_rate <= 0 {
        Some("invalid BIT_RATE: "@ + signed_decimal(c.bit_rate as int) + " (must be > 0)"@)
    } else if c.vad_padding_ms > 1000 {
        Some(
            "invalid VAD_PADDING_MS: "@ + signed_decimal(c.vad_padding_ms as int)
                + " (allowed 0..1000)"@,
        )
    } else if bindings_outcome(c.start_key@, c.pause_key@, c.cancel_or_retry_key@) is Err {
        Some(fault_message(bindings_outcome(c.start_key@, c.pause_key@, c.cancel_or_retry_key@)->Err_0))
    } else if !known_codec(lower(c.codecs@)) {
        Some("invalid CODECS: "@ + c.codecs@)
    } else if !known_container(lower(c.container@)) {
        Some("invalid CONTAINER: "@ + c.container@)
    } else if jsonpath_parse(c.text_path@) is Err {
        Some("invalid TEXT_PATH: "@ + jsonpath_parse(c.text_path@)->Err_0)
    } else if c.extra_config@.len() != 0 && extra_config_entries(c.extra_config@) is Err {
        Some("invalid extra-config JSON: "@ + extra_config_entries(c.extra_config@)->Err_0)
    } else {
        None
    }
}

fn numbered(prefix: &str, n: i64, suffix: &str) -> (r: ConfigError)
    ensures
        r.text() == prefix@ + signed_decimal(n as int) + suffix@,
{
    let mut out: Vec<char> = Vec::new();
    push_str(&mut out, prefix);
    let digits = signed_decimal_chars(n);
    push_chars(&mut out, digits.as_slice());
    push_str(&mut out, suffix);
    ConfigError::Invalid(string_of(out.as_slice()))
}

fn named(prefix: &str, value: &str) -> (r: ConfigError)
    ensures
        r.text() == prefix@ + value@,
{
    let mut out: Vec<char> = Vec::new();
    push_str(&mut out, prefix);
    push_str(&mut out, value);
    ConfigError::Invalid(string_of(out.as_slice()))
}

impl Config {
    /// Checks the configuration rules in a fixed order and reports the first
    /// one broken: channel count 1-8, positive rate, depth 8/16/24/32,
    /// positive bitrate, VAD padding at most 1000 ms, distinct valid hotkeys,
    /// known codec and container (any ASCII case), a valid `TEXT_PATH`, and
    /// an `ExtraConfig` that is empty or a JSON object.
    pub fn validate(&self) -> (r: Result<(), ConfigError>)
        ensures
            match r {
                Ok(()) => config_problem(*self) is None,
                Err(e) => config_problem(*self) == Some(e.text()),
            },
    {
        if !(1 <= self.channels && self.channels <= 8) {
            return Err(numbered("invalid Channels: ", self.channels as i64, " (allowed 1..8)"));
        }
        if self.sampling_rate <= 0 {
            return Err(
                numbered("invalid SAMPLING_RATE: ", self.sampling_rate as i64, " (must be > 0)"),
            );
        }
        if !(self.sampling_rate_depth == 8 || self.sampling_rate_depth == 16
            || self.sampling_rate_depth == 24 || self.sampling_rate_depth == 32) {
            return Err(
                numbered(
                    "invalid SAMPLING_RATE_DEPTH: ",
                    self.sampling_rate_depth as i64,
                    " (allowed: 8,16,24,32)",
                ),
            );
        }
        if self.bit_rate <= 0 {
            return Err(numbered("invalid BIT_RATE: ", self.bit_rate as i64, " (must be > 0)"));
        }
        if self.vad_padding_ms > 1000 {
            return Err(
                numbered("invalid VAD_PADDING_MS: ", self.vad_padding_ms as i64, " (allowed 0..1000)"),
            );
        }
        if let Err(error) = validate_bindings(
            self.start_key.as_str(),
            self.pause_key.as_str(),
            self.cancel_or_retry_key.as_str(),
        ) {
            return Err(ConfigError::Invalid(error.message()));
        }
        let codec = lower_chars(chars_of(self.codecs.as_str()).as_slice());
        if crate::converter::ffmpeg_codec_for(self.codecs.as_str()).is_none() {
            return Err(named("invalid CODECS: ", self.codecs.as_str()));
        }
        let container = lower_chars(chars_of(self.container.as_str()).as_slice());
        if !known_container_exec(container.as_slice()) {
            return Err(named("invalid CONTAINER: ", self.container.as_str()));
        }
        if let Err(error) = parse_text_path(self.text_path.as_str()) {
            return Err(ConfigError::Invalid(error.message()));
        }
        if !self.extra_config.as_str().is_empty() {
            if let Err(reason) = parse_extra_config(self.extra_config.as_str()) {
                return Err(named("invalid extra-config JSON: ", reason.as_str()));
            }
        }
        Ok(())
    }

    /// The file extension of the configured container.
    pub fn container_extension(&self) -> (r: String)
        ensures
            r@ == container_extension_of(self.container@),
    {
        container_extension(self.container.as_str())
    }
}

/// The lowercase container, or `ogg` when none is set.
pub open spec fn container_extension_of(container: Seq<char>) -> Seq<char> {
    if container.len() == 0 {
        "ogg"@
    } else {
        lower(container)
    }
}

/// The file extension of a container name.
pub fn container_extension(container: &str) -> (r: String)
    ensures
        r@ == container_extension_of(container@),
{
    let lowered = lower_chars(chars_of(container).as_slice());
    if lowered.len() == 0 {
        owned("ogg")
    } else {
        string_of(lowered.as_slice())
    }
}

} // verus!
