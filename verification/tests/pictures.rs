use encodec_api::config::{AppConfig, AppRole};
use encodec_api::digest::hex_text;
use encodec_api::options::EncodeQuality;
use encodec_api::picture::{
    build_artifacts_from_ecdc, bytes_to_png, png_side_for_bytes, response_headers, MODEL_NAME,
    PNG_FORMAT,
};
use encodec_api::prepared::{program_pcm_descriptor, PreparedEncodeProgram};
use encodec_api::samples::prepared_pcm_to_audio;
use encodec_api::seconds::Seconds;
use encodec_api::text::{decimal_text, read_number, NumberFault};

fn seconds(value: f64) -> Seconds {
    Seconds {
        bits: value.to_bits(),
        text: value.to_string(),
        hundredths: ((value * 100.0).round() / 100.0).to_string(),
        millionths: format!("{:.6}", value),
    }
}

fn config() -> AppConfig {
    AppConfig {
        role: AppRole::Ingress,
        rust_log: "info".into(),
        port: 1,
        enable_h3: false,
        tls_cert_path: None,
        tls_key_path: None,
        encodec_bin: "encodec".into(),
        encodec_python: None,
        encodec_backend: "onnx".into(),
        encodec_execution_target: Some("Cuda".into()),
        encodec_onnx_bundle_root: "".into(),
        encodec_device_id: 0,
        encodec_frame_batch_size: 1,
        upload_response_num_streams: 1,
        upload_response_slot_size_kb: 1,
        upload_response_slots_per_stream: 1,
        upload_response_timeout_ms: 1,
        upload_response_watch_poll_ms: 1,
        upload_response_worker_poll_ms: 1,
        upload_response_max_inflight: 1,
        upload_response_worker_id: "w".into(),
        upload_response_ingress_urls: vec![],
        upload_response_discovery_dns: None,
        upload_response_discovery_interval_ms: 1,
        upload_response_insecure_tls: false,
    }
}

fn program(pcm_bytes: Vec<u8>) -> PreparedEncodeProgram {
    PreparedEncodeProgram {
        pcm_bytes,
        sample_rate: 48_000,
        channels: 2,
        bits_per_sample: 16,
        duration_seconds: seconds(12.345),
        quality: EncodeQuality::Hq,
        audio_key: "key".into(),
        track_count: 3,
        gap_seconds: seconds(1.5),
        total_gap_seconds: seconds(3.0),
    }
}

#[test]
fn sides_are_the_smallest_that_hold_the_bytes() {
    assert_eq!(png_side_for_bytes(0), 0);
    assert_eq!(png_side_for_bytes(1), 1);
    assert_eq!(png_side_for_bytes(3), 1);
    assert_eq!(png_side_for_bytes(4), 2);
    assert_eq!(png_side_for_bytes(12), 2);
    assert_eq!(png_side_for_bytes(13), 3);
    assert_eq!(png_side_for_bytes(3_000_000), 1000);
    assert_eq!(png_side_for_bytes(3_000_001), 1001);
    for size in 0..2_000usize {
        let pixels = (size + 2) / 3;
        assert_eq!(png_side_for_bytes(size), (pixels as f64).sqrt().ceil() as usize);
    }
    for size in [1usize << 40, (1 << 40) + 1, 3 * 67_108_863 * 67_108_863] {
        let pixels = (size + 2) / 3;
        assert_eq!(png_side_for_bytes(size), (pixels as f64).sqrt().ceil() as usize);
    }
}

#[test]
fn pictures_hold_the_bytes() {
    for size in [1usize, 3, 4, 100, 5_000] {
        let data: Vec<u8> = (0..size).map(|i| (i * 7 % 256) as u8).collect();
        let (png, side) = bytes_to_png(&data).unwrap();
        let picture = image::load_from_memory(&png).unwrap();
        assert_eq!(picture.width() as usize, side);
        assert_eq!(picture.height() as usize, side);
        let rgb = picture.to_rgb8().into_raw();
        assert_eq!(rgb.len(), side * side * 3);
        assert_eq!(&rgb[..size], &data[..]);
        assert!(rgb[size..].iter().all(|byte| *byte == 0));
    }
    assert_eq!(bytes_to_png(&[]).unwrap_err().message(), "failed to encode PNG");
}

#[test]
fn artifacts_carry_what_the_program_says() {
    let artifacts = build_artifacts_from_ecdc(&config(), &program(vec![]), vec![5; 10]).unwrap();
    assert_eq!(artifacts.png_side, 2);
    assert_eq!(artifacts.device_label, "Cuda-onnx");
    let lines: Vec<(String, String)> = [
        ("cache-control", "no-store"),
        ("x-cache", "MISS"),
        ("x-ecdc-bytes", "10"),
        ("x-png-size", "2"),
        ("x-duration", "12.35"),
        ("x-device", "Cuda-onnx"),
        ("x-png-format", "rgb-v2"),
        ("x-encodec-model", "encodec_48khz"),
        ("x-encodec-lm", "true"),
        ("x-encodec-quality", "hq"),
        ("x-encodec-bandwidth", "12"),
        ("x-track-count", "3"),
        ("x-gap-seconds", "1.5"),
        ("x-gap-seconds-total", "3"),
        ("x-program-duration", "12.35"),
        ("x-audio-key", "key"),
        ("x-audio-ready", "false"),
    ]
    .iter()
    .map(|(name, value)| (name.to_string(), value.to_string()))
    .collect();
    assert_eq!(response_headers(&artifacts), lines);
    assert_eq!(PNG_FORMAT, "rgb-v2");
    assert_eq!(MODEL_NAME, "encodec_48khz");
    let error = build_artifacts_from_ecdc(&config(), &program(vec![]), vec![]).unwrap_err();
    assert_eq!(error.message(), "failed to encode PNG");
}

#[test]
fn samples_are_split_by_channel() {
    let pcm: Vec<u8> = vec![0x01, 0x00, 0xff, 0xff, 0x00, 0x80, 0xff, 0x7f];
    let audio = prepared_pcm_to_audio(&program(pcm.clone()), 2, 48_000).unwrap();
    assert_eq!(audio, vec![vec![1i16, -32768], vec![-1i16, 32767]]);
    // Interleaving the channels again gives the bytes.
    let mut again = Vec::new();
    for frame in 0..2 {
        for channel in &audio {
            again.extend(channel[frame].to_le_bytes());
        }
    }
    assert_eq!(again, pcm);
    assert_eq!(prepared_pcm_to_audio(&program(vec![]), 2, 48_000).unwrap(), vec![Vec::<i16>::new(); 2]);
}

#[test]
fn samples_of_another_form_are_refused() {
    let refusal = |program: &PreparedEncodeProgram, channels: usize, rate: usize| {
        prepared_pcm_to_audio(program, channels, rate)
            .unwrap_err()
            .message()
            .to_string()
    };
    let mut stereo = program(vec![0; 6]);
    assert_eq!(
        refusal(&stereo, 2, 44_100),
        "prepared PCM sample rate 48000 does not match bundle sample rate 44100"
    );
    assert_eq!(
        refusal(&stereo, 1, 48_000),
        "prepared PCM channels 2 do not match bundle channels 1"
    );
    assert_eq!(
        refusal(&stereo, 2, 48_000),
        "prepared PCM length 6 is not aligned to 4 bytes/frame"
    );
    stereo.bits_per_sample = 24;
    assert_eq!(
        refusal(&stereo, 2, 48_000),
        "encodec-api currently expects canonical s16le PCM, got 24 bits"
    );
    let form = program_pcm_descriptor();
    assert_eq!((form.sample_rate, form.channels, form.bits_per_sample), (48_000, 2, 16));
}

#[test]
fn numbers_are_written_and_read() {
    for number in [0u64, 7, 10, 1_234_567_890, u64::MAX] {
        assert_eq!(decimal_text(number), number.to_string());
        assert_eq!(read_number(&number.to_string(), u64::MAX), Ok(number));
    }
    assert_eq!(read_number("256", 255), Err(NumberFault::TooLarge));
    assert_eq!(read_number("255", 255), Ok(255));
    assert_eq!(read_number("", 255), Err(NumberFault::Empty));
    assert_eq!(read_number("2 5", 255), Err(NumberFault::InvalidDigit));
    assert_eq!(NumberFault::TooLarge.describe(), "number too large to fit in target type");
}

#[test]
fn hexadecimal_tells_bytes_apart() {
    assert_eq!(hex_text(&[0x00, 0xff, 0x1a]), "00ff1a");
    assert_ne!(hex_text(&[0x01, 0x23]), hex_text(&[0x12, 0x30]));
}
