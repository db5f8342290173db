use stt_core::cache::{
    cached_output_name, converted_file_name, keeps_cache, keeps_response, recording_output_path,
};
use stt_core::config::{container_extension, Config};
use stt_core::converter::{
    ffmpeg_args, ffmpeg_codec_for, paths_equal, sample_format_for_depth, settings_for,
    ConversionSettings, ConvertError,
};
use stt_core::embedded_ffmpeg::{native_ranges, native_result, EmbeddedFfmpegConverter};
use stt_core::gui_converter::GuiLibAvConverter;
use stt_core::intervals::AudioInterval;

#[test]
fn preserves_argument_order_and_pcm_rules() {
    let settings = ConversionSettings {
        codec_key: "opus".into(),
        ffmpeg_codec: "libopus".into(),
        codec_has_bitrate: true,
        channels: 2,
        sample_rate: 48_000,
        bitrate: 64,
        depth: 16,
        sample_format: "s16".into(),
    };
    assert_eq!(
        ffmpeg_args(&settings, "in.wav", "out.ogg"),
        [
            "-y",
            "-i",
            "in.wav",
            "-ac",
            "2",
            "-ar",
            "48000",
            "-c:a",
            "libopus",
            "-b:a",
            "64k",
            "-sample_fmt",
            "s16",
            "out.ogg"
        ]
    );

    let pcm = ConversionSettings {
        ffmpeg_codec: "pcm_s16le".into(),
        ..settings
    };
    assert_eq!(
        ffmpeg_args(&pcm, "in.wav", "out.wav"),
        [
            "-y",
            "-i",
            "in.wav",
            "-ac",
            "2",
            "-ar",
            "48000",
            "-c:a",
            "pcm_s16le",
            "out.wav"
        ]
    );
}

#[test]
fn maps_aliases_and_defaults() {
    let settings = settings_for(
        &Config {
            codecs: "MP3".into(),
            sampling_rate: 0,
            channels: 0,
            bit_rate: 0,
            sampling_rate_depth: 0,
            ..Config::default()
        },
        44_100,
    )
    .unwrap();
    assert_eq!(settings.ffmpeg_codec, "libmp3lame");
    assert_eq!(settings.channels, 1);
    assert_eq!(settings.sample_rate, 44_100);
    assert_eq!(settings.bitrate, 128);
    assert_eq!(settings.sample_format, "s16");
}

#[test]
fn unknown_codec_is_refused() {
    let error = settings_for(
        &Config {
            codecs: "nope".into(),
            ..Config::default()
        },
        16000,
    )
    .unwrap_err();
    assert!(matches!(error, ConvertError::UnsupportedCodec(ref c) if c == "nope"));
    assert_eq!(error.message(), "unsupported codec: nope");
}

#[test]
fn codec_table_and_sample_formats() {
    assert_eq!(ffmpeg_codec_for("Opus"), Some(("libopus", true)));
    assert_eq!(ffmpeg_codec_for("pcm"), Some(("pcm_s16le", false)));
    assert_eq!(ffmpeg_codec_for("vorb"), Some(("libvorbis", true)));
    assert_eq!(ffmpeg_codec_for("wma"), None);
    assert_eq!(sample_format_for_depth(8), "u8");
    assert_eq!(sample_format_for_depth(24), "s24");
    assert_eq!(sample_format_for_depth(12), "");
    assert!(paths_equal("C:/Temp/A.WAV", "c:/temp/a.wav"));
    assert!(!paths_equal("a.wav", "b.wav"));
}

#[test]
fn wav_conversion_never_reuses_input_path() {
    let input = "temp/RecordTemp_1234567890123456.wav";
    assert_eq!(
        recording_output_path(input, "WAV"),
        "temp/RecordTemp_1234567890123456_convert.wav"
    );
}

#[test]
fn other_containers_replace_the_extension() {
    assert_eq!(recording_output_path("temp/a.wav", "OGG"), "temp/a.ogg");
    assert_eq!(recording_output_path("temp/a.wav", ""), "temp/a.ogg");
    assert_eq!(converted_file_name("a", "wav"), "a_convert.wav");
    assert_eq!(container_extension("M4A"), "m4a");
}

#[test]
fn cache_rules() {
    let mut config = Config::default();
    assert!(!keeps_cache(&config));
    config.keep_cache = true;
    assert!(!keeps_cache(&config));
    config.cache_dir = "cache".into();
    assert!(keeps_cache(&config));
    assert_eq!(
        cached_output_name("audio-2024", ".wav", true),
        "audio-2024_convert.wav"
    );
    assert_eq!(cached_output_name("audio-2024", ".ogg", false), "audio-2024.ogg");
    assert!(keeps_response(true, b"{}"));
    assert!(!keeps_response(true, b""));
    assert!(!keeps_response(false, b"{}"));
}

#[test]
fn validates_equivalent_hotkeys() {
    let cfg = Config {
        pause_key: "ALT + CONTROL + Q".into(),
        ..Config::default()
    };
    assert!(cfg
        .validate()
        .unwrap_err()
        .message()
        .contains("duplicates START_KEY"));
}

#[test]
fn validates_audio_ranges_and_case_insensitive_formats() {
    let mut cfg = Config {
        codecs: "MP3".into(),
        container: "M4A".into(),
        ..Config::default()
    };
    cfg.validate().unwrap();
    cfg.channels = 0;
    assert!(cfg.validate().is_err());
}

#[test]
fn validation_messages_name_the_field() {
    let base = Config::default();
    base.validate().unwrap();
    let cases: Vec<(Config, &str)> = vec![
        (
            Config {
                channels: 9,
                ..base.clone()
            },
            "invalid Channels: 9 (allowed 1..8)",
        ),
        (
            Config {
                sampling_rate: -1,
                ..base.clone()
            },
            "invalid SAMPLING_RATE: -1 (must be > 0)",
        ),
        (
            Config {
                sampling_rate_depth: 12,
                ..base.clone()
            },
            "invalid SAMPLING_RATE_DEPTH: 12 (allowed: 8,16,24,32)",
        ),
        (
            Config {
                bit_rate: 0,
                ..base.clone()
            },
            "invalid BIT_RATE: 0 (must be > 0)",
        ),
        (
            Config {
                vad_padding_ms: 1001,
                ..base.clone()
            },
            "invalid VAD_PADDING_MS: 1001 (allowed 0..1000)",
        ),
        (
            Config {
                codecs: "nope".into(),
                ..base.clone()
            },
            "invalid CODECS: nope",
        ),
        (
            Config {
                container: "zip".into(),
                ..base.clone()
            },
            "invalid CONTAINER: zip",
        ),
    ];
    for (config, message) in cases {
        assert_eq!(config.validate().unwrap_err().message(), message);
    }
    let bad_path = Config {
        text_path: "text".into(),
        ..base.clone()
    };
    assert!(bad_path
        .validate()
        .unwrap_err()
        .message()
        .starts_with("invalid TEXT_PATH:"));
    let bad_extra = Config {
        extra_config: "[]".into(),
        ..base
    };
    assert!(bad_extra
        .validate()
        .unwrap_err()
        .message()
        .starts_with("invalid extra-config JSON:"));
}

#[test]
fn default_configuration_values() {
    let c = Config::default();
    assert_eq!(c.text_path, "$.text");
    assert_eq!(c.codecs, "opus");
    assert_eq!(c.container, "opus");
    assert_eq!(c.bit_rate, 128);
    assert_eq!(c.vad_padding_ms, 100);
    assert_eq!(c.cancel_or_retry_key, "alt+esc");
    assert_eq!(c.clipboard_write_delay, 80);
    assert_eq!(c.clipboard_restore_delay, 120);
    assert!(c.hotkey_debug);
    assert!(!c.use_sendinput);
    assert_eq!(c.container_extension(), "opus");
}

#[test]
fn embedded_converter_prechecks_and_status() {
    let converter = EmbeddedFfmpegConverter;
    assert!(matches!(
        converter.precheck(true, "a.wav", "b.ogg", false),
        Err(ConvertError::Canceled)
    ));
    assert!(matches!(
        converter.precheck(false, "A.wav", "a.WAV", false),
        Err(ConvertError::SamePath)
    ));
    assert!(matches!(
        converter.precheck(false, "a.wav", "link.wav", true),
        Err(ConvertError::SamePath)
    ));
    assert!(converter.precheck(false, "a.wav", "b.ogg", false).is_ok());
    assert!(matches!(
        native_result(true, -1, "boom"),
        Err(ConvertError::Canceled)
    ));
    assert!(
        matches!(native_result(false, -5, ""), Err(ConvertError::Failed { message }) if message == "libav failed: -5")
    );
    assert!(
        matches!(native_result(false, -5, "bad input"), Err(ConvertError::Failed { message }) if message == "bad input")
    );
    assert!(native_result(false, 0, "").is_ok());
}

#[test]
fn native_ranges_convert_or_report_no_speech() {
    assert!(matches!(native_ranges(&vec![]), Err(ConvertError::NoSpeech)));
    assert_eq!(
        native_ranges(&vec![AudioInterval {
            start_frame: 1,
            end_frame: 5
        }])
        .unwrap(),
        vec![(1, 5)]
    );
    assert!(matches!(
        native_ranges(&vec![AudioInterval {
            start_frame: 0,
            end_frame: u64::MAX
        }]),
        Err(ConvertError::Failed { .. })
    ));
}

#[test]
fn desktop_converter_checks_request_before_reporting_missing_libraries() {
    let converter = GuiLibAvConverter;
    let config = Config::default();
    assert!(matches!(
        converter.convert(true, &config, "a.wav", "a.wav", 48_000),
        Err(ConvertError::Canceled)
    ));
    assert!(matches!(
        converter.convert(false, &config, "C:/Temp/A.WAV", "c:/temp/a.wav", 48_000),
        Err(ConvertError::SamePath)
    ));
    let mut unknown = Config::default();
    unknown.codecs = "nope".into();
    match converter.convert(false, &unknown, "a.wav", "a.ogg", 48_000) {
        Err(ConvertError::UnsupportedCodec(codec)) => assert_eq!(codec, "nope"),
        other => panic!("unexpected {other:?}"),
    }
    assert!(matches!(
        converter.convert(false, &config, "a.wav", "a.ogg", 48_000),
        Err(ConvertError::LibAvUnavailable)
    ));
}
