use stt_core::audio_options::{canonical, codec_choices, keys, AudioDraft};
use stt_core::config::Config;
use stt_core::converter::{ffmpeg_codec_for, settings_for};
use stt_core::layout::{
    button_is_disabled, button_rect, button_shows_retry, hit_test_button, scale, unscale, Metrics,
};
use stt_core::runtime::{Event, State};

#[test]
fn loading_preserves_non_presets_and_aliases() {
    assert_eq!(keys().len(), 6);
    let config = Config {
        channels: 6,
        sampling_rate: 12345,
        bit_rate: 123,
        codecs: "LIBOPUS".into(),
        container: "OGG".into(),
        ..Config::default()
    };
    let draft = AudioDraft::new(&config);
    assert_eq!(draft.values, ["6", "16", "12345", "123", "LIBOPUS", "OGG"]);
    assert_eq!(draft.codec(), "opus");
}

#[test]
fn pcm_selection_maps_depth_but_loading_does_not_rewrite() {
    let mut draft = AudioDraft::new(&Config::default());
    draft.select(4, "pcm".into());
    draft.select(1, "24".into());
    assert_eq!(draft.values[4], "pcm_s24le");
    assert_eq!(draft.values[5], "wav");
    assert!(!draft.enabled(3));
    let config = Config {
        codecs: "pcm_s24le".into(),
        sampling_rate_depth: 16,
        ..Config::default()
    };
    assert_eq!(AudioDraft::new(&config).values[1], "16");
}

#[test]
fn explicit_codec_and_rate_changes_reconcile_dependents() {
    let mut draft = AudioDraft::new(&Config::default());
    draft.select(4, "ac3".into());
    assert_eq!(draft.values[2], "32000");
    assert_eq!(draft.values[5], "ac3");
    draft.select(4, "mp3".into());
    draft.select(3, "320".into());
    draft.select(2, "16000".into());
    assert_eq!(draft.values[3], "128");
    draft.select(4, "opus".into());
    assert_eq!(draft.values[5], "opus");
    assert!(!draft.rates().contains(&44100));
}

#[test]
fn defaults_and_existing_values_survive_config_roundtrip() {
    let defaults = Config::default();
    assert_eq!(
        AudioDraft::new(&defaults).values,
        ["1", "16", "16000", "128", "opus", "opus"]
    );
    let old = Config {
        channels: 6,
        sampling_rate: 12345,
        bit_rate: 123,
        codecs: "libopus".into(),
        container: "ogg".into(),
        ..Config::default()
    };
    old.validate().unwrap();
    let roundtrip = old.clone();
    assert_eq!(
        AudioDraft::new(&old).values,
        AudioDraft::new(&roundtrip).values
    );
    let mut draft = AudioDraft::new(&old);
    draft.select(4, "pcm".into());
    assert_eq!(draft.values[0], "6");
    assert_eq!(draft.values[2], "12345");
    assert_eq!(draft.values[3], "123");
    draft.select(4, "pcm_s24be".into());
    assert_eq!(draft.values[2], "12345");
}

#[test]
fn every_codec_has_valid_defaults_and_sorted_presets() {
    for (codec, _) in codec_choices() {
        let mut draft = AudioDraft::new(&Config::default());
        draft.select(4, codec.into());
        assert!(!draft.containers().is_empty(), "{codec}");
        assert!(draft.rates().windows(2).all(|w| w[0] < w[1]));
        assert!(draft.bitrates().windows(2).all(|w| w[0] < w[1]));
        let config = Config {
            channels: draft.values[0].parse().unwrap(),
            sampling_rate_depth: draft.values[1].parse().unwrap(),
            sampling_rate: draft.values[2].parse().unwrap(),
            bit_rate: draft.values[3].parse().unwrap(),
            codecs: draft.values[4].clone(),
            container: draft.values[5].clone(),
            ..Config::default()
        };
        config
            .validate()
            .unwrap_or_else(|e| panic!("{codec}: {}", e.message()));
        for container in draft.containers() {
            let saved = Config {
                container: container.into(),
                ..config.clone()
            };
            saved
                .validate()
                .unwrap_or_else(|e| panic!("{codec}/{container}: {}", e.message()));
            settings_for(&saved, 16000).unwrap();
        }
    }
}

#[test]
fn ac3_codec_selection_reconciles_unsupported_channels_only() {
    for codec in ["ac3", "eac3"] {
        for channels in [6, 7, 8] {
            let config = Config {
                codecs: "pcm_s16le".into(),
                container: "wav".into(),
                channels,
                ..Config::default()
            };
            let mut draft = AudioDraft::new(&config);
            assert_eq!(draft.values[0], channels.to_string());
            draft.select(4, codec.into());
            assert_eq!(draft.values[0], if channels <= 6 { "6" } else { "1" });
            assert_eq!(draft.values[2], "32000");
            let existing = Config {
                codecs: codec.into(),
                ..config
            };
            assert_eq!(AudioDraft::new(&existing).values[0], channels.to_string());
        }
    }
}

#[test]
fn new_codecs_and_raw_depth_changes_produce_compatible_settings() {
    let mut draft = AudioDraft::new(&Config::default());
    draft.select(0, "2".into());
    draft.select(4, "amr_wb".into());
    assert_eq!(draft.values[0], "1");
    assert_eq!(draft.values[2], "16000");
    assert_eq!(draft.values[5], "amr");
    assert!(draft
        .bitrates()
        .contains(&draft.values[3].parse().unwrap()));
    draft.select(4, "speex".into());
    assert_eq!(draft.rates(), [8000, 16000, 32000]);
    assert_eq!(draft.values[5], "spx");
    draft.select(4, "pcm".into());
    draft.select(5, "s16le".into());
    draft.select(1, "24".into());
    assert_eq!(draft.values[4], "pcm_s24le");
    assert!(!draft.containers().contains(&"s16le"));
    assert!(draft.containers().contains(&draft.values[5].as_str()));
    for alias in ["libspeex", "libvo_amrwbenc", "libopencore_amrnb"] {
        let config = Config {
            codecs: alias.into(),
            ..Config::default()
        };
        assert_eq!(AudioDraft::new(&config).values[4], alias);
        assert!(codec_choices()
            .iter()
            .any(|(name, _)| *name == canonical(alias)));
    }
}

#[test]
fn options_and_enabled_fields() {
    let mut draft = AudioDraft::new(&Config::default());
    assert_eq!(draft.options(0), ["1", "2"]);
    assert_eq!(draft.options(1), ["16", "24", "32"]);
    assert_eq!(draft.options(2), ["8000", "12000", "16000", "24000", "48000"]);
    assert!(draft.options(6).is_empty());
    assert!(draft.enabled(3));
    assert!(!draft.enabled(1));
    assert!(draft.supports_bitrate(256));
    assert!(!draft.supports_bitrate(511));
    draft.select(4, "flac".into());
    assert!(!draft.enabled(3));
    assert_eq!(draft.values[5], "flac");
}

#[test]
fn dpi_scaling_rounds_to_nearest() {
    assert_eq!(scale(10, 96), 10);
    assert_eq!(scale(10, 144), 15);
    assert_eq!(scale(-10, 144), -14);
    assert_eq!(unscale(15, 144), 10);
    assert_eq!(unscale(15, 0), 1440);
}

fn event(state: State, retry_available: bool) -> Event {
    Event {
        state,
        message: String::new(),
        error: String::new(),
        retry_available,
    }
}

#[test]
fn buttons_hit_testing_and_disabled_states() {
    let first = button_rect(0, false);
    assert_eq!((first.left, first.top, first.right, first.bottom), (19, 20, 51, 52));
    assert_eq!(hit_test_button(19, 20, false), Some(0));
    assert_eq!(hit_test_button(18, 20, false), None);
    assert_eq!(hit_test_button(51, 20, false), None);
    assert_eq!(hit_test_button(57, 30, false), Some(1));
    assert_eq!(hit_test_button(0, 0, true), None);
    let minimal = button_rect(3, true);
    assert_eq!(hit_test_button(minimal.left, minimal.top, true), Some(3));
    assert!(button_is_disabled(1, &event(State::Idle, false)));
    assert!(!button_is_disabled(1, &event(State::Paused, false)));
    assert!(button_is_disabled(2, &event(State::Idle, false)));
    assert!(!button_is_disabled(2, &event(State::Idle, true)));
    assert!(button_is_disabled(0, &event(State::Uploading, false)));
    assert!(button_shows_retry(&event(State::Idle, true)));
    assert!(!button_shows_retry(&event(State::Error, true)));
}

#[test]
fn scroll_endpoints_and_drag_clamping_at_multiple_scales() {
    for scale in [1, 2, 3] {
        for count in [7, 19, 40] {
            let m = Metrics::new(216 * scale, 36 * scale, count, 0, 24 * scale);
            assert_eq!(m.page, 6);
            assert_eq!(m.top, 0);
            assert_eq!(m.index_at(-100), 0);
            assert_eq!(m.index_at(m.height), count - 6);
            let end = Metrics::new(m.height, 36 * scale, count, count, 24 * scale);
            assert_eq!(end.top + end.thumb, end.height);
            assert_eq!(end.index_at(end.top), end.max);
        }
    }
}

#[test]
fn short_or_empty_lists_have_no_scroll_range() {
    for count in 0..=6 {
        let m = Metrics::new(216, 36, count, 0, 24);
        assert_eq!(m.max, 0);
        assert_eq!(m.thumb, m.height);
        assert_eq!(m.index_at(100), 0);
    }
}

#[test]
fn horizontal_pixel_range_tracks_long_text_and_viewport_resizing() {
    for width in [320, 400, 480, 640] {
        let start = Metrics::new(width, 1, 1200, 0, 24);
        assert_eq!(start.page, width);
        assert_eq!(start.max, 1200 - width);
        assert_eq!(start.index_at(start.height), start.max);
        let end = Metrics::new(width, 1, 1200, 1200, 24);
        assert_eq!(end.top + end.thumb, width);
        assert_eq!(end.index_at(end.top), 1200 - width);
        let shortened = Metrics::new(width, 1, 200, end.max, 24);
        assert_eq!(shortened.max, 0);
        assert_eq!(shortened.top, 0);
        assert_eq!(shortened.thumb, width);
    }
}

#[test]
fn unscale_returns_the_scaled_value_and_canonical_is_stable() {
    assert_eq!(scale(10, 144), 15);
    assert_eq!(unscale(15, 144), 10);
    assert_eq!(scale(1, 144), 2);
    assert_eq!(unscale(2, 144), 1);
    for dpi in [96, 120, 144, 192, 288] {
        for v in 0..200 {
            assert_eq!(unscale(scale(v, dpi), dpi), v);
        }
    }
    for value in ["LIBOPUS", "libvo_amrwbenc", "vorb", "pcm_s24le", "MP3", "Opus"] {
        let once = canonical(value);
        assert_eq!(canonical(&once), once);
    }
    assert_eq!(canonical("LIBOPUS"), "opus");
    assert_eq!(canonical("pcm_s24le"), "pcm");
}

#[test]
fn codec_lookup_ignores_case_and_pcm_takes_no_bitrate() {
    assert_eq!(ffmpeg_codec_for("PCM"), ffmpeg_codec_for("pcm"));
    assert_eq!(ffmpeg_codec_for("pcm"), Some(("pcm_s16le", false)));
    assert_eq!(ffmpeg_codec_for("LibOpus"), Some(("libopus", true)));
    assert_eq!(ffmpeg_codec_for("nope"), None);
    for (codec, _) in codec_choices() {
        let (encoder, bitrate) = ffmpeg_codec_for(codec).unwrap();
        if encoder.starts_with("pcm_") {
            assert!(!bitrate);
        }
    }
}

#[test]
fn codec_choice_leaves_an_offered_container() {
    for (first, _) in codec_choices() {
        for (second, _) in codec_choices() {
            let mut draft = AudioDraft::new(&Config::default());
            draft.select(4, first.into());
            let rate = draft.values[2].clone();
            draft.select(4, second.into());
            if draft.values[2] == rate {
                assert!(
                    draft
                        .containers()
                        .iter()
                        .any(|c| c.eq_ignore_ascii_case(&draft.values[5])),
                    "{first} -> {second}"
                );
            }
        }
    }
}
