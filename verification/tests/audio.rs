use stt_core::audio_devices::{input_device_format, list_input_devices, CaptureFormat};
use stt_core::capture_wav::WavEncoder;
use stt_core::intervals::{prepare_intervals, AudioInterval};
use stt_core::vad::{FrameAssembler, FrameLevel, Segmenter, FRAME, LOOKBACK_FRAMES};

fn test_capture_format(rate: u32, channels: u16, bits: u16, valid: u16, float: bool) -> CaptureFormat {
    let mut bytes = Vec::new();
    let align = channels * (bits / 8);
    bytes.extend_from_slice(&0xfffe_u16.to_le_bytes());
    bytes.extend_from_slice(&channels.to_le_bytes());
    bytes.extend_from_slice(&rate.to_le_bytes());
    bytes.extend_from_slice(&(rate * u32::from(align)).to_le_bytes());
    bytes.extend_from_slice(&align.to_le_bytes());
    bytes.extend_from_slice(&bits.to_le_bytes());
    bytes.extend_from_slice(&22_u16.to_le_bytes());
    bytes.extend_from_slice(&valid.to_le_bytes());
    bytes.extend_from_slice(&(if channels == 1 { 4_u32 } else { 3_u32 }).to_le_bytes());
    bytes.extend_from_slice(&(if float { 3_u32 } else { 1_u32 }).to_le_bytes());
    bytes.extend_from_slice(&[0, 0, 16, 0, 128, 0, 0, 170, 0, 56, 155, 113]);
    CaptureFormat::from_wave_format(&bytes).unwrap()
}

#[test]
fn rejects_malformed_or_unsupported_driver_formats() {
    let format = test_capture_format(48000, 2, 32, 24, false);
    assert_eq!(format.valid_bits, 24);
    for length in [0, 16, 18, 39] {
        assert!(CaptureFormat::from_wave_format(&format.wave_format[..length]).is_err());
    }
    for (offset, value) in [(2, 0), (12, 1), (18, 33), (24, 9), (28, 1)] {
        let mut bytes = format.wave_format.clone();
        bytes[offset] = value;
        assert!(
            CaptureFormat::from_wave_format(&bytes).is_err(),
            "offset={offset}"
        );
    }
}

#[test]
fn reads_plain_pcm_fields() {
    let format = test_capture_format(44100, 1, 16, 16, false);
    assert_eq!(format.sample_rate, 44100);
    assert_eq!(format.channels, 1);
    assert_eq!(format.bits_per_sample, 16);
    assert_eq!(format.block_align, 2);
    assert!(!format.is_float);
    let float = test_capture_format(48000, 2, 32, 32, true);
    assert!(float.is_float);
}

fn i(a: u64, b: u64) -> AudioInterval {
    AudioInterval {
        start_frame: a,
        end_frame: b,
    }
}

#[test]
fn shared_padding_and_edges() {
    assert_eq!(
        prepare_intervals(vec![i(1600, 3200), i(6400, 8000)], 48000, 30000, 100).unwrap(),
        vec![i(0, 12000), i(16800, 28800)]
    );
    for p in [0, 1, 100, 999, 1000] {
        let result = prepare_intervals(vec![i(0, 100), i(10000, 16000)], 16000, 16000, p).unwrap();
        assert_eq!(result[0].start_frame, 0);
        assert_eq!(result.last().unwrap().end_frame, 16000);
    }
    assert_eq!(
        prepare_intervals(vec![i(100, 200), i(216, 300)], 16000, 1000, 1).unwrap(),
        vec![i(84, 316)]
    );
    assert_eq!(
        prepare_intervals(vec![i(100, 200), i(217, 300)], 16000, 1000, 1).unwrap(),
        vec![i(84, 200), i(201, 316)]
    );
}

#[test]
fn mapping_normalization_and_overflow() {
    assert_eq!(
        prepare_intervals(vec![i(3, 4), i(1, 3), i(9, 9)], 44100, 100, 0).unwrap(),
        vec![i(2, 12)]
    );
    assert!(prepare_intervals(vec![i(u64::MAX - 1, u64::MAX)], 48000, u64::MAX, 0).is_err());
    assert_eq!(
        prepare_intervals(vec![i(0, 1)], 16000, u64::MAX, 1000).unwrap(),
        vec![i(0, 16001)]
    );
    let many = (0..5000).map(|n| i(n * 1000, n * 1000 + 10)).collect();
    assert_eq!(
        prepare_intervals(many, 16000, 5_000_000, 0).unwrap().len(),
        5000
    );
}

#[test]
fn interval_preparation_rejects_bad_rate_and_padding() {
    assert!(prepare_intervals(vec![i(0, 10)], 0, 100, 0).is_err());
    assert!(prepare_intervals(vec![i(0, 10)], 16000, 100, 1001).is_err());
    assert!(prepare_intervals(vec![], 16000, 100, 100).unwrap().is_empty());
}

/// Writes packets through the encoder into an in-memory file, the way the
/// recorder writes the temporary WAV.
fn encode(format: &CaptureFormat, packets: &[&[u8]]) -> (Vec<u8>, Vec<bool>) {
    let (mut encoder, header) = WavEncoder::new(format.clone());
    let mut file = header;
    let mut accepted = Vec::new();
    for packet in packets {
        match encoder.write(packet) {
            Ok(bytes) => {
                file.extend_from_slice(&bytes);
                accepted.push(true);
            }
            Err(_) => accepted.push(false),
        }
    }
    let (tail, patches) = encoder.finish();
    file.extend_from_slice(&tail);
    for (offset, bytes) in patches {
        let offset = offset as usize;
        file[offset..offset + bytes.len()].copy_from_slice(&bytes);
    }
    (file, accepted)
}

#[test]
fn preserves_pcm_float_valid_bits_channel_mask_and_packet_bytes() {
    for (bits, valid, float, channels) in [
        (8, 8, false, 1),
        (16, 16, false, 2),
        (24, 24, false, 2),
        (32, 32, false, 2),
        (32, 32, true, 2),
    ] {
        let format = test_capture_format(44100, channels, bits, valid, float);
        let data: Vec<u8> = (0..usize::from(format.block_align) * 3)
            .map(|n| n as u8)
            .collect();
        let align = usize::from(format.block_align);
        let (bytes, accepted) = encode(&format, &[&data[..align], &data[align..]]);
        assert!(accepted.iter().all(|a| *a));
        assert_eq!(&bytes[20..60], &format.wave_format);
        assert_eq!(&bytes[80..80 + data.len()], &data);
        assert_eq!(
            u32::from_le_bytes(bytes[4..8].try_into().unwrap()) as usize,
            bytes.len() - 8
        );
        assert_eq!(u32::from_le_bytes(bytes[68..72].try_into().unwrap()), 3);
        assert_eq!(
            u32::from_le_bytes(bytes[76..80].try_into().unwrap()) as usize,
            data.len()
        );
        assert!(bytes.len() % 2 == 0);
    }
}

#[test]
fn rejects_incomplete_frame_without_writing_it() {
    let format = test_capture_format(48000, 2, 24, 24, false);
    let (bytes, accepted) = encode(&format, &[&[1, 2, 3]]);
    assert_eq!(accepted, vec![false]);
    assert_eq!(bytes.len(), 80);
}

#[test]
fn packs_24_in_32_without_losing_precision_or_channel_order() {
    let format = test_capture_format(48000, 2, 32, 24, false);
    let values: [i32; 6] = [0x12345600, -256, i32::MIN, 0x7fffff00, 0, 256];
    let input: Vec<u8> = values.iter().flat_map(|v| v.to_le_bytes()).collect();
    let (bytes, accepted) = encode(&format, &[&input]);
    assert_eq!(accepted, vec![true]);
    let mut reader = hound::WavReader::new(std::io::Cursor::new(bytes)).unwrap();
    assert_eq!(reader.spec().bits_per_sample, 24);
    assert_eq!(reader.spec().channels, 2);
    assert_eq!(reader.duration(), 3);
    assert_eq!(
        reader
            .samples::<i32>()
            .map(Result::unwrap)
            .collect::<Vec<_>>(),
        values.iter().map(|value| value >> 8).collect::<Vec<_>>()
    );
}

// ---------------------------------------------------------------------------
// Speech segmentation. The detector's probability is compared with the
// continuation threshold (0.5) and the start threshold by the caller.

const DEFAULT_START: f32 = 0.6;

fn level(score: f32, start: f32) -> FrameLevel {
    if score >= start {
        FrameLevel::Strong
    } else if score >= 0.5 {
        FrameLevel::Weak
    } else {
        FrameLevel::Silent
    }
}

fn accept(segmenter: &mut Segmenter, score: f32, samples: u64) {
    segmenter.accept(level(score, DEFAULT_START), samples).unwrap();
}

fn finish(segmenter: Segmenter) -> Vec<AudioInterval> {
    segmenter.finish(FrameLevel::Silent, 0).unwrap()
}

#[test]
fn silence_and_partial_tail() {
    // Silence scores below every threshold.
    let mut assembler = FrameAssembler::new();
    let mut segmenter = Segmenter::new();
    for _ in 0..100 {
        for frame in assembler.push(&[0; 317]) {
            assert_eq!(frame.len(), FRAME);
            segmenter.accept(FrameLevel::Silent, FRAME as u64).unwrap();
        }
    }
    let tail = assembler.finish();
    let (frame, used) = tail.unwrap();
    assert_eq!(frame.len(), FRAME);
    assert_eq!(used, (100 * 317 % FRAME) as u64);
    assert!(segmenter.finish(FrameLevel::Silent, used).unwrap().is_empty());
}

#[test]
fn configured_threshold_changes_startup() {
    for (threshold, expected) in [(0.6, 1), (0.9, 0), (0.99, 0)] {
        let mut vad = Segmenter::new();
        for _ in 0..4 {
            vad.accept(level(0.6, threshold), FRAME as u64).unwrap();
        }
        assert_eq!(finish(vad).len(), expected);
    }
}

#[test]
fn start_threshold_boundaries_are_inclusive() {
    for threshold in [0.5, 1.0] {
        let mut vad = Segmenter::new();
        for _ in 0..4 {
            vad.accept(level(threshold, threshold), FRAME as u64).unwrap();
        }
        assert_eq!(
            finish(vad),
            vec![AudioInterval {
                start_frame: 0,
                end_frame: 4 * FRAME as u64,
            }]
        );
    }
}

#[test]
fn hysteresis_flush_and_short_bursts() {
    let mut vad = Segmenter::new();
    accept(&mut vad, 0.6, 256);
    accept(&mut vad, 0.0, 256);
    for _ in 0..4 {
        accept(&mut vad, 0.6, 256);
    }
    for _ in 0..5 {
        accept(&mut vad, 0.0, 256);
    }
    accept(&mut vad, 0.5, 17);
    assert_eq!(
        finish(vad),
        vec![AudioInterval {
            start_frame: 512,
            end_frame: 2833
        }]
    );
    let mut vad = Segmenter::new();
    accept(&mut vad, 0.6, 17);
    assert!(finish(vad).is_empty());
}

#[test]
fn startup_requires_three_consecutive_high_scores() {
    let mut vad = Segmenter::new();
    for score in [0.5, 0.59, 0.6, 0.6, 0.59, 0.6, 0.6] {
        accept(&mut vad, score, FRAME as u64);
    }
    assert!(finish(vad).is_empty());
}

#[test]
fn lookback_is_bounded_and_weak_speech_continues() {
    let mut vad = Segmenter::new();
    for _ in 0..20 {
        accept(&mut vad, 0.5, FRAME as u64);
    }
    for _ in 0..3 {
        accept(&mut vad, 0.6, FRAME as u64);
    }
    assert_eq!(vad.voiced(), LOOKBACK_FRAMES);
    for _ in 0..2 {
        accept(&mut vad, 0.5, FRAME as u64);
    }
    for _ in 0..9 {
        accept(&mut vad, 0.49, FRAME as u64);
    }
    assert!(vad.segments_so_far().is_empty());
    accept(&mut vad, 0.49, FRAME as u64);
    assert_eq!(
        finish(vad),
        vec![AudioInterval {
            start_frame: 17 * FRAME as u64,
            end_frame: 25 * FRAME as u64,
        }]
    );
}

#[test]
fn silence_resets_candidate_and_three_frames_are_discarded() {
    let mut vad = Segmenter::new();
    for score in [0.5, 0.6, 0.6, 0.49, 0.6, 0.6, 0.6] {
        accept(&mut vad, score, FRAME as u64);
    }
    assert!(finish(vad).is_empty());
}

#[test]
fn partial_tail_counts_as_one_voice_frame_with_real_endpoint() {
    let mut vad = Segmenter::new();
    for _ in 0..3 {
        accept(&mut vad, 0.6, FRAME as u64);
    }
    vad.accept(level(0.5, DEFAULT_START), 17).unwrap();
    assert_eq!(
        finish(vad),
        vec![AudioInterval {
            start_frame: 0,
            end_frame: 3 * FRAME as u64 + 17,
        }]
    );
}

#[test]
fn frames_are_cut_at_256_samples() {
    let mut assembler = FrameAssembler::new();
    let samples: Vec<i16> = (0..600).map(|n| n as i16).collect();
    let frames = assembler.push(&samples);
    assert_eq!(frames.len(), 2);
    assert_eq!(frames[1][0], 256);
    let (tail, used) = assembler.finish().unwrap();
    assert_eq!(used, 88);
    assert_eq!(tail[87], 599);
    assert_eq!(tail[88], 0);
    assert!(FrameAssembler::new().finish().is_none());
}

#[test]
fn tail_frame_is_accepted_before_closing() {
    let mut vad = Segmenter::new();
    for _ in 0..3 {
        accept(&mut vad, 0.6, FRAME as u64);
    }
    assert_eq!(
        vad.finish(FrameLevel::Weak, 17).unwrap(),
        vec![AudioInterval {
            start_frame: 0,
            end_frame: 3 * FRAME as u64 + 17,
        }]
    );
}

#[test]
fn capture_endpoints_need_wasapi() {
    assert_eq!(
        list_input_devices().unwrap_err(),
        "Microphone capture is only available on Windows"
    );
    assert_eq!(
        input_device_format("").unwrap_err(),
        "Microphone capture is only available on Windows"
    );
}

fn picker_texts() -> stt_core::microphone::PickerTexts {
    stt_core::microphone::PickerTexts {
        default_input: "System default".into(),
        unavailable: "Unavailable".into(),
        checking: "Checking".into(),
        failed: "Error".into(),
        none: "No inputs".into(),
    }
}

fn device(id: &str, name: &str, is_default: bool) -> stt_core::audio_devices::InputDevice {
    stt_core::audio_devices::InputDevice {
        id: id.into(),
        name: name.into(),
        is_default,
    }
}

fn labels(rows: &[stt_core::microphone::PickerRow]) -> Vec<String> {
    rows.iter().map(|row| row.label.clone()).collect()
}

#[test]
fn same_name_microphones_are_labelled_by_id_and_found_by_id() {
    let devices = vec![
        device("{0.0.1}.{aaa}", "USB Mic", false),
        device("builtin", "Built-in", true),
        device("{0.0.1}.{bbb}}", "USB Mic", false),
    ];
    let (rows, selected, name) = stt_core::microphone::microphone_rows(
        &devices, "{0.0.1}.{bbb}}", "old name", true, false, &None, &picker_texts(),
    );
    assert_eq!(
        labels(&rows),
        vec!["System default — Built-in", "[aaa] USB Mic", "Built-in", "[bbb] USB Mic"]
    );
    assert_eq!(selected, 3);
    assert_eq!(name, "USB Mic");
    assert_eq!(rows[0].id.as_deref(), Some(""));

    let reordered = vec![devices[2].clone(), devices[0].clone(), devices[1].clone()];
    let (rows, selected, _) = stt_core::microphone::microphone_rows(
        &reordered, "{0.0.1}.{bbb}}", "", true, false, &None, &picker_texts(),
    );
    assert_eq!(selected, 1);
    assert_eq!(rows[selected].id.as_deref(), Some("{0.0.1}.{bbb}}"));
}

#[test]
fn missing_saved_microphone_and_status_rows() {
    let (rows, selected, name) = stt_core::microphone::microphone_rows(
        &Vec::new(), "gone", "Headset", true, false, &None, &picker_texts(),
    );
    assert_eq!(labels(&rows), vec!["System default", "Unavailable — Headset", "No inputs"]);
    assert_eq!(selected, 1);
    assert_eq!(name, "Headset");
    assert!(rows[1].id.is_none());

    let (rows, selected, _) = stt_core::microphone::microphone_rows(
        &Vec::new(), "gone", "", false, true, &None, &picker_texts(),
    );
    assert_eq!(labels(&rows), vec!["System default", "Checking — gone", "Checking"]);
    assert_eq!(selected, 1);

    let (rows, selected, _) = stt_core::microphone::microphone_rows(
        &Vec::new(), "", "", true, false, &Some("denied".into()), &picker_texts(),
    );
    assert_eq!(labels(&rows), vec!["System default", "Error: denied"]);
    assert_eq!(selected, 0);
}

#[test]
fn every_detected_frame_is_kept() {
    let detections = vec![
        AudioInterval { start_frame: 1600, end_frame: 3200 },
        AudioInterval { start_frame: 100, end_frame: 100 },
        AudioInterval { start_frame: 8000, end_frame: 9600 },
        AudioInterval { start_frame: 3000, end_frame: 4000 },
    ];
    let out = prepare_intervals(detections.clone(), 48_000, 40_000, 0).unwrap();
    for x in detections.iter().filter(|x| x.start_frame < x.end_frame) {
        let start = x.start_frame * 3;
        let end = (x.end_frame * 3).min(40_000);
        for f in start..end {
            assert!(out.iter().any(|r| r.start_frame <= f && f < r.end_frame), "frame {f}");
        }
    }
    assert!(prepare_intervals(detections, 0, 40_000, 0).is_err());
}

#[test]
fn detection_order_and_repeats_do_not_change_the_ranges() {
    let forward = prepare_intervals(
        vec![i(100, 200), i(150, 400), i(900, 1000), i(50, 60)],
        16000,
        2000,
        0,
    )
    .unwrap();
    let shuffled = prepare_intervals(
        vec![i(900, 1000), i(50, 60), i(150, 400), i(100, 200), i(900, 1000)],
        16000,
        2000,
        0,
    )
    .unwrap();
    assert_eq!(forward, shuffled);
    assert_eq!(forward, vec![i(50, 60), i(100, 400), i(900, 1000)]);
    assert!(prepare_intervals(vec![i(5, 9), i(1, 2)], 0, 100, 0).is_err());
    assert!(prepare_intervals(vec![i(1, 2), i(5, 9)], 0, 100, 0).is_err());
}
