use encodec_api::error::{is_client_error, EncodeError};
use encodec_api::form::{
    multipart_boundary, parse_request, FormField, FormStage, ParsedEncodeRequest,
};
use encodec_api::options::{EncodeQuality, StreamArtifactSelection};
use encodec_api::prepared::{
    apply_prepared_request_headers, apply_prepared_request_metadata_headers,
    prepare_request_program, prepared_program_from_internal_request,
    prepared_request_envelope_from_internal_request, DescriptorReading, PcmDescriptor,
    PreparedAudio, PreparedEncodeProgram, PreparedRequestMetadata, SecondsReadings,
};
use encodec_api::protocol::{
    INTERNAL_AUDIO_KEY_HEADER, INTERNAL_DURATION_SECONDS_HEADER, INTERNAL_GAP_SECONDS_HEADER,
    INTERNAL_QUALITY_HEADER, INTERNAL_STREAMING_MODE_HEADER, INTERNAL_TOTAL_GAP_SECONDS_HEADER,
    INTERNAL_TRACK_COUNT_HEADER,
};
use encodec_api::request::{
    encode_options, extension_for_content_type, first_pair_value, is_streamable_audio_content_type,
    is_streamable_audio_extension, is_streaming_request, query_param, reject_json_requests,
    request_encode_options, request_filename, request_supports_stream_decode,
    stream_artifact_selection, RequestHead,
};
use encodec_api::seconds::{default_track_gap, parse_gap_seconds, Seconds};
use http::header::CONTENT_TYPE;
use http::Request;

fn head(request: &Request<()>) -> RequestHead {
    RequestHead {
        path: request.uri().path().to_string(),
        query: request.uri().query().map(str::to_string),
        headers: request.headers().clone(),
    }
}

fn seconds(value: f64) -> Seconds {
    Seconds {
        bits: value.to_bits(),
        text: value.to_string(),
        hundredths: ((value * 100.0).round() / 100.0).to_string(),
        millionths: format!("{:.6}", value),
    }
}

fn number(text: &str) -> Option<Seconds> {
    text.trim().parse::<f64>().ok().map(seconds)
}

fn reading(headers: &http::HeaderMap, name: &str) -> Result<Seconds, String> {
    let text = headers
        .get(name)
        .and_then(|value| value.to_str().ok())
        .unwrap_or("");
    text.parse::<f64>()
        .map(seconds)
        .map_err(|error| error.to_string())
}

fn readings(headers: &http::HeaderMap) -> SecondsReadings {
    SecondsReadings {
        gap: reading(headers, INTERNAL_GAP_SECONDS_HEADER),
        total_gap: reading(headers, INTERNAL_TOTAL_GAP_SECONDS_HEADER),
        duration: reading(headers, INTERNAL_DURATION_SECONDS_HEADER),
    }
}

fn get(uri: &str) -> RequestHead {
    head(&Request::builder().uri(uri).body(()).unwrap())
}

fn with_header(name: &str, value: &str) -> RequestHead {
    head(
        &Request::builder()
            .uri("/encode")
            .header(name, value)
            .body(())
            .unwrap(),
    )
}

fn sample_program() -> PreparedEncodeProgram {
    PreparedEncodeProgram {
        pcm_bytes: vec![1, 2, 3, 4],
        sample_rate: 48_000,
        channels: 2,
        bits_per_sample: 16,
        duration_seconds: seconds(12.5),
        quality: EncodeQuality::Hq,
        audio_key: "abc123".into(),
        track_count: 3,
        gap_seconds: seconds(1.5),
        total_gap_seconds: seconds(3.0),
    }
}

fn descriptor_of(program: &PreparedEncodeProgram) -> DescriptorReading {
    DescriptorReading::Read(PcmDescriptor {
        sample_rate: program.sample_rate,
        channels: program.channels,
        bits_per_sample: program.bits_per_sample,
    })
}

fn is_client(error: &EncodeError, message: &str) {
    assert!(is_client_error(error));
    assert_eq!(error.message(), message);
}

fn is_internal(error: &EncodeError, message: &str) {
    assert!(!is_client_error(error));
    assert_eq!(error.message(), message);
}

#[test]
fn stream_artifact_selection_defaults_to_png() {
    let req = Request::builder().uri("/encode/stream").body(()).unwrap();
    assert_eq!(
        stream_artifact_selection(&head(&req)).unwrap(),
        StreamArtifactSelection::Png
    );
}

#[test]
fn stream_artifact_selection_accepts_query_and_header() {
    let req = Request::builder()
        .uri("/encode/stream?artifact=both")
        .header("x-encodec-artifact", "ecdc")
        .body(())
        .unwrap();
    assert_eq!(
        stream_artifact_selection(&head(&req)).unwrap(),
        StreamArtifactSelection::Both
    );

    let req = Request::builder()
        .uri("/encode/stream")
        .header("x-encodec-artifact", "ecdc")
        .body(())
        .unwrap();
    assert_eq!(
        stream_artifact_selection(&head(&req)).unwrap(),
        StreamArtifactSelection::Ecdc
    );
}

#[test]
fn prepared_internal_headers_roundtrip() {
    let prepared = sample_program();

    let mut request = Request::builder()
        .uri("/encode/stream?artifact=both")
        .body(())
        .unwrap();
    apply_prepared_request_headers(request.headers_mut(), &prepared, true).unwrap();

    let decoded = prepared_program_from_internal_request(
        &head(&request),
        descriptor_of(&prepared),
        readings(request.headers()),
        &prepared.pcm_bytes,
    )
    .unwrap()
    .unwrap();
    assert_eq!(decoded.pcm_bytes, prepared.pcm_bytes);
    assert_eq!(decoded.sample_rate, prepared.sample_rate);
    assert_eq!(decoded.channels, prepared.channels);
    assert_eq!(decoded.bits_per_sample, prepared.bits_per_sample);
    assert_eq!(decoded.duration_seconds, prepared.duration_seconds);
    assert_eq!(decoded.quality, prepared.quality);
    assert_eq!(decoded.audio_key, prepared.audio_key);
    assert_eq!(decoded.track_count, prepared.track_count);
    assert_eq!(decoded.gap_seconds, prepared.gap_seconds);
    assert_eq!(decoded.total_gap_seconds, prepared.total_gap_seconds);
    assert!(is_streaming_request(&head(&request)));
}

#[test]
fn stream_decode_supports_known_direct_audio_types() {
    let wav = Request::builder()
        .uri("/encode")
        .header(CONTENT_TYPE, "audio/wav")
        .body(())
        .unwrap();
    assert!(request_supports_stream_decode(&head(&wav)));

    let mp3 = Request::builder()
        .uri("/encode")
        .header("x-filename", "clip.mp3")
        .body(())
        .unwrap();
    assert!(request_supports_stream_decode(&head(&mp3)));

    let webm = Request::builder()
        .uri("/encode")
        .header(CONTENT_TYPE, "video/webm")
        .body(())
        .unwrap();
    assert!(request_supports_stream_decode(&head(&webm)));
}

#[test]
fn stream_decode_rejects_multipart_and_unknown_types() {
    let multipart = Request::builder()
        .uri("/encode")
        .header(CONTENT_TYPE, "multipart/form-data; boundary=abc123")
        .body(())
        .unwrap();
    assert!(!request_supports_stream_decode(&head(&multipart)));

    let unknown = Request::builder()
        .uri("/encode")
        .header(CONTENT_TYPE, "application/octet-stream")
        .body(())
        .unwrap();
    assert!(!request_supports_stream_decode(&head(&unknown)));
}

#[test]
fn a_form_is_not_decoded_directly_whatever_its_file_is_called() {
    let request = Request::builder()
        .uri("/encode")
        .header(CONTENT_TYPE, "Multipart/Form-Data; boundary=x")
        .header("x-filename", "clip.mp3")
        .body(())
        .unwrap();
    assert!(!request_supports_stream_decode(&head(&request)));
}

#[test]
fn unknown_artifacts_are_refused() {
    let error = stream_artifact_selection(&get("/encode/stream?output=%22wav%22")).unwrap_err();
    is_client(
        &error,
        "unsupported artifact \"\\\"wav\\\"\". Use one of: png, ecdc, both",
    );
}

#[test]
fn the_first_parameter_of_a_name_counts() {
    let request = get("/encode?output=ecdc&artifact=%20ALL+&artifact=png");
    assert_eq!(query_param(&request, "artifact"), Some(" ALL ".to_string()));
    assert_eq!(query_param(&request, "nothing"), None);
    assert_eq!(
        stream_artifact_selection(&request).unwrap(),
        StreamArtifactSelection::Both
    );
    let pairs = vec![
        ("a".to_string(), "1".to_string()),
        ("b".to_string(), "2".to_string()),
        ("a".to_string(), "3".to_string()),
    ];
    assert_eq!(first_pair_value(&pairs, "a"), Some("1".to_string()));
    assert_eq!(first_pair_value(&pairs, "b"), Some("2".to_string()));
    assert_eq!(first_pair_value(&pairs, "c"), None);
}

#[test]
fn qualities_are_parsed() {
    assert_eq!(EncodeQuality::parse(None).unwrap(), EncodeQuality::Hq);
    assert_eq!(EncodeQuality::parse(Some("")).unwrap(), EncodeQuality::Hq);
    assert_eq!(
        EncodeQuality::parse(Some("\u{2003}StandarD\n")).unwrap(),
        EncodeQuality::Standard
    );
    assert_eq!(EncodeQuality::Standard.as_str(), "standard");
    assert_eq!(EncodeQuality::Hq.as_str(), "hq");
    assert_eq!(EncodeQuality::Standard.bandwidth_kbps(), 6);
    assert_eq!(EncodeQuality::Hq.bandwidth_kbps(), 12);
    is_client(
        &EncodeQuality::parse(Some(" Low ")).unwrap_err(),
        "unsupported quality \"low\". Use one of: standard, hq",
    );
}

#[test]
fn words_name_what_they_are_the_words_for() {
    for quality in [EncodeQuality::Standard, EncodeQuality::Hq] {
        assert_eq!(EncodeQuality::parse(Some(quality.as_str())).unwrap(), quality);
    }
    for selection in [
        StreamArtifactSelection::Png,
        StreamArtifactSelection::Ecdc,
        StreamArtifactSelection::Both,
    ] {
        assert_eq!(
            StreamArtifactSelection::parse(Some(selection.as_str())).unwrap(),
            selection
        );
    }
    assert!(StreamArtifactSelection::Png.includes_png());
    assert!(!StreamArtifactSelection::Png.includes_ecdc());
    assert!(!StreamArtifactSelection::Ecdc.includes_png());
    assert!(StreamArtifactSelection::Both.includes_ecdc());
}

#[test]
fn gaps_are_numbers_from_zero_to_thirty() {
    assert_eq!(parse_gap_seconds(number(" 30 ")).unwrap(), seconds(30.0));
    assert_eq!(parse_gap_seconds(number("0")).unwrap(), seconds(0.0));
    assert_eq!(parse_gap_seconds(number("-0")).unwrap(), seconds(-0.0));
    assert_eq!(parse_gap_seconds(number("1e-320")).unwrap(), seconds(1e-320));
    is_client(
        &parse_gap_seconds(number("soon")).unwrap_err(),
        "gap_seconds must be a number",
    );
    for text in ["30.000001", "-0.1", "NaN", "-NaN", "inf", "-inf"] {
        is_client(
            &parse_gap_seconds(number(text)).unwrap_err(),
            "gap_seconds must be between 0 and 30",
        );
    }
    assert_eq!(default_track_gap(), seconds(1.5));
}

#[test]
fn the_query_names_quality_and_gap() {
    let request = get("/encode?quality=standard&gap_seconds=2.25");
    let text = query_param(&request, "gap_seconds").unwrap();
    let (quality, gap) = request_encode_options(&request, number(&text)).unwrap();
    assert_eq!(quality, EncodeQuality::Standard);
    assert_eq!(gap, seconds(2.25));

    let (quality, gap) = request_encode_options(&get("/encode"), None).unwrap();
    assert_eq!(quality, EncodeQuality::Hq);
    assert_eq!(gap, seconds(1.5));

    // The gap is looked at first.
    let request = get("/encode?quality=low&gap_seconds=x");
    is_client(
        &request_encode_options(&request, None).unwrap_err(),
        "gap_seconds must be a number",
    );
    is_client(
        &encode_options(false, None, Some("low")).unwrap_err(),
        "unsupported quality \"low\". Use one of: standard, hq",
    );
}

#[test]
fn json_bodies_are_refused() {
    for content_type in ["application/json", "Application/JSON; charset=utf-8", "a/b+Json"] {
        is_client(
            &reject_json_requests(&with_header("content-type", content_type)).unwrap_err(),
            "JSON request bodies are not supported; upload audio bytes instead",
        );
    }
    assert!(reject_json_requests(&with_header("content-type", "audio/wav")).is_ok());
    assert!(reject_json_requests(&get("/encode")).is_ok());
}

#[test]
fn files_are_named_after_headers() {
    assert_eq!(request_filename(&with_header("x-filename", "  a b.mp3 ")), "a b.mp3");
    assert_eq!(request_filename(&with_header("content-type", "AUDIO/MPEG")), "upload.mp3");
    assert_eq!(request_filename(&with_header("x-filename", " \t ")), "upload.bin");
    assert_eq!(request_filename(&get("/encode")), "upload.bin");
    // A value that is no visible ASCII text is not read.
    let mut request = with_header("content-type", "audio/flac");
    request.headers.insert(
        "x-filename",
        http::HeaderValue::from_bytes("\u{fc}.mp3".as_bytes()).unwrap(),
    );
    assert_eq!(request_filename(&request), "upload.flac");
}

#[test]
fn types_with_endings_can_be_streamed() {
    let known = [
        ("audio/mpeg", ".mp3"),
        ("audio/wav", ".wav"),
        ("audio/x-wav", ".wav"),
        ("audio/wave", ".wav"),
        ("audio/flac", ".flac"),
        ("audio/mp4", ".m4a"),
        ("audio/x-m4a", ".m4a"),
        ("audio/aac", ".aac"),
        ("audio/ogg", ".ogg"),
    ];
    for (content_type, extension) in known {
        assert_eq!(extension_for_content_type(content_type), Some(extension));
        assert!(is_streamable_audio_content_type(content_type));
        assert!(is_streamable_audio_extension(&extension[1..]));
    }
    assert_eq!(extension_for_content_type("audio/opus"), None);
    assert!(is_streamable_audio_content_type("audio/opus"));
    assert!(!is_streamable_audio_content_type("Audio/Opus"));
    assert!(is_streamable_audio_extension(" OGA "));
    assert!(!is_streamable_audio_extension("txt"));
}

#[test]
fn streaming_is_told_by_a_header() {
    assert!(is_streaming_request(&with_header(INTERNAL_STREAMING_MODE_HEADER, "JSONL")));
    assert!(!is_streaming_request(&with_header(INTERNAL_STREAMING_MODE_HEADER, "json")));
    assert!(!is_streaming_request(&get("/encode/stream")));
}

#[test]
fn the_body_is_the_file_where_there_is_no_form() {
    let request = with_header("content-type", "audio/wav");
    let parsed = parse_request(&request, None, vec![], b"hello".to_vec()).unwrap();
    assert_eq!(parsed.files.len(), 1);
    assert_eq!(parsed.files[0].filename, "upload.wav");
    assert_eq!(parsed.files[0].content_type, Some("audio/wav".to_string()));
    assert_eq!(parsed.files[0].bytes, b"hello".to_vec());
    assert_eq!(parsed.quality, EncodeQuality::Hq);
    assert_eq!(parsed.gap_seconds, seconds(1.5));
    // SHA-256 of "upload.wav", a zero byte, "hello", 0xff, "quality=hq", "gap=1.500000".
    assert_eq!(
        parsed.audio_key,
        "b41720f3689f8e3f52072860ecfef10d99b75e741240bccef82c255aeab1606b"
    );
    is_client(
        &parse_request(&request, None, vec![], vec![]).unwrap_err(),
        "request did not include any audio file",
    );
}

fn form() -> RequestHead {
    with_header("content-type", "multipart/form-data; boundary=abc123")
}

fn file(name: &str, bytes: &[u8]) -> FormField {
    FormField::File {
        filename: name.to_string(),
        content_type: None,
        bytes: bytes.to_vec(),
    }
}

fn text(name: &str, value: &str) -> FormField {
    FormField::Text {
        name: name.to_string(),
        value: value.to_string(),
        number: number(value),
    }
}

#[test]
fn forms_are_read_in_order() {
    assert_eq!(multipart_boundary(&form()), Some("abc123".to_string()));
    assert_eq!(multipart_boundary(&with_header("content-type", "audio/wav")), None);
    let fields = vec![
        text("quality", "hq"),
        file("a.wav", b"aa"),
        file("empty.wav", b""),
        text("other", "x"),
        text("gap_seconds", "2"),
        text("quality", " STANDARD "),
        file("b.wav", b"b"),
    ];
    let parsed: ParsedEncodeRequest = parse_request(&form(), None, fields, b"raw".to_vec()).unwrap();
    assert_eq!(parsed.files.len(), 2);
    assert_eq!(parsed.files[0].filename, "a.wav");
    assert_eq!(parsed.files[1].filename, "b.wav");
    assert_eq!(parsed.quality, EncodeQuality::Standard);
    assert_eq!(parsed.gap_seconds, seconds(2.0));
    assert_eq!(
        parsed.audio_key,
        "97753cae0bc055af436ae70ed0e36abe9901a8ffad26494404a5d707ee73dd5a"
    );
}

#[test]
fn the_first_bad_field_of_a_form_counts() {
    let failed = |stage: FormStage| FormField::Failed {
        stage,
        error: "broken".to_string(),
    };
    let cases = vec![
        (text("gap_seconds", "31"), "gap_seconds must be between 0 and 30"),
        (text("gap_seconds", "x"), "gap_seconds must be a number"),
        (text("quality", "x"), "unsupported quality \"x\". Use one of: standard, hq"),
        (failed(FormStage::Body), "invalid multipart body: broken"),
        (failed(FormStage::File), "failed to read multipart field: broken"),
        (failed(FormStage::Text), "failed to read multipart text field: broken"),
    ];
    for (field, message) in cases {
        let fields = vec![file("a.wav", b"a"), field, text("quality", "worse")];
        is_client(
            &parse_request(&form(), None, fields, b"raw".to_vec()).unwrap_err(),
            message,
        );
    }
    // Fields are not looked at where the request is no form.
    let request = with_header("content-type", "audio/wav");
    let parsed = parse_request(&request, None, vec![text("quality", "x")], b"raw".to_vec());
    assert_eq!(parsed.unwrap().files[0].bytes, b"raw".to_vec());
}

#[test]
fn accepted_requests_hold_audio() {
    let fields = vec![file("empty.wav", b""), text("gap_seconds", "30")];
    let parsed = parse_request(&form(), None, fields, b"raw".to_vec()).unwrap();
    assert!(!parsed.files.is_empty());
    assert!(parsed.files.iter().all(|file| !file.bytes.is_empty()));
    assert_eq!(f64::from_bits(parsed.gap_seconds.bits), 30.0);
}

#[test]
fn requests_without_audio_are_refused() {
    let message = "request did not include any audio file";
    let fields = vec![file("empty.wav", b""), text("quality", "standard")];
    is_client(&parse_request(&form(), None, fields, vec![]).unwrap_err(), message);
    // An empty body has no field with anything in it.
    let fields = vec![file("a.wav", b"a")];
    is_client(&parse_request(&form(), None, fields, vec![]).unwrap_err(), message);
    let broken = vec![FormField::Failed {
        stage: FormStage::Body,
        error: "incomplete multipart stream".to_string(),
    }];
    is_client(
        &parse_request(&form(), None, broken, vec![]).unwrap_err(),
        "invalid multipart body: incomplete multipart stream",
    );
    // The fields do not count where the request is no form.
    let request = with_header("content-type", "audio/wav");
    let fields = vec![file("a.wav", b"a")];
    is_client(&parse_request(&request, None, fields, vec![]).unwrap_err(), message);
}

#[test]
fn refused_queries_stay_refused() {
    let mut request = form();
    request.query = Some("quality=low".to_string());
    let fields = vec![text("quality", "hq"), file("a.wav", b"a")];
    let parsed = parse_request(&request, None, fields, b"raw".to_vec());
    is_client(
        &parsed.unwrap_err(),
        "unsupported quality \"low\". Use one of: standard, hq",
    );
    request.query = Some("gap_seconds=31".to_string());
    let fields = vec![text("gap_seconds", "2"), file("a.wav", b"a")];
    let parsed = parse_request(&request, number("31"), fields, b"raw".to_vec());
    is_client(&parsed.unwrap_err(), "gap_seconds must be between 0 and 30");
}

#[test]
fn a_request_without_a_query_asks_for_nothing() {
    let request = with_header("x-encodec-artifact", "both");
    assert_eq!(request.query, None);
    assert_eq!(stream_artifact_selection(&request).unwrap(), StreamArtifactSelection::Both);
    let request = with_header("x-encodec-artifact", "gif");
    is_client(
        &stream_artifact_selection(&request).unwrap_err(),
        "unsupported artifact \"gif\". Use one of: png, ecdc, both",
    );
    // A number that no parameter of the query stands for is not looked at.
    let parsed = parse_request(&request, number("31"), vec![], b"raw".to_vec()).unwrap();
    assert_eq!(parsed.quality, EncodeQuality::Hq);
    assert_eq!(parsed.gap_seconds, seconds(1.5));
}

#[test]
fn keys_are_digests_in_hexadecimal() {
    for body in [&b"a"[..], &b"bb"[..], &[0u8; 1000][..]] {
        let parsed = parse_request(&get("/encode"), None, vec![], body.to_vec()).unwrap();
        assert_eq!(parsed.audio_key.len(), 64);
        assert!(parsed
            .audio_key
            .chars()
            .all(|c| c.is_ascii_digit() || ('a'..='f').contains(&c)));
    }
}

#[test]
fn programs_are_prepared_from_decoded_audio() {
    let request = with_header("content-type", "audio/wav");
    let parsed = parse_request(&request, None, vec![], b"hello".to_vec()).unwrap();
    let key = parsed.audio_key.clone();
    let audio = PreparedAudio {
        pcm_bytes: vec![1, 0, 2, 0],
        descriptor: PcmDescriptor { sample_rate: 48_000, channels: 2, bits_per_sample: 16 },
        duration_seconds: seconds(0.5),
        total_gap_seconds: seconds(0.0),
    };
    let program = prepare_request_program(parsed.clone(), Ok(audio)).unwrap();
    assert_eq!(program.pcm_bytes, vec![1, 0, 2, 0]);
    assert_eq!(program.sample_rate, 48_000);
    assert_eq!(program.track_count, 1);
    assert_eq!(program.audio_key, key);
    assert_eq!(program.gap_seconds, seconds(1.5));
    assert_eq!(program.duration_seconds, seconds(0.5));
    is_internal(
        &prepare_request_program(parsed, Err("no decoder".to_string())).unwrap_err(),
        "no decoder",
    );
}

#[test]
fn handing_a_program_on_replaces_what_was_there() {
    let mut headers = http::HeaderMap::new();
    headers.insert("content-length", "12".parse().unwrap());
    headers.insert("content-type", "audio/wav".parse().unwrap());
    headers.append("content-type", "audio/ogg".parse().unwrap());
    headers.insert(INTERNAL_STREAMING_MODE_HEADER, "jsonl".parse().unwrap());
    headers.insert("x-filename", "a.wav".parse().unwrap());
    apply_prepared_request_headers(&mut headers, &sample_program(), false).unwrap();
    assert!(!headers.contains_key("content-length"));
    assert!(!headers.contains_key(INTERNAL_STREAMING_MODE_HEADER));
    assert_eq!(headers.get_all("content-type").iter().count(), 1);
    assert_eq!(headers["content-type"], "application/octet-stream");
    assert_eq!(headers["x-filename"], "a.wav");
    assert_eq!(headers[INTERNAL_QUALITY_HEADER], "hq");
    assert_eq!(headers[INTERNAL_TRACK_COUNT_HEADER], "3");
    assert_eq!(headers[INTERNAL_GAP_SECONDS_HEADER], "1.5");
    assert_eq!(headers[INTERNAL_TOTAL_GAP_SECONDS_HEADER], "3");
    assert_eq!(headers[INTERNAL_DURATION_SECONDS_HEADER], "12.5");
    assert_eq!(headers[INTERNAL_AUDIO_KEY_HEADER], "abc123");
}

#[test]
fn a_key_that_is_no_header_value_is_not_handed_on() {
    let mut program = sample_program();
    program.audio_key = "a\nb".to_string();
    let mut headers = http::HeaderMap::new();
    is_internal(
        &apply_prepared_request_headers(&mut headers, &program, true).unwrap_err(),
        "invalid x-encodec-internal-audio-key header value: failed to parse header value",
    );
    assert!(headers.contains_key(INTERNAL_DURATION_SECONDS_HEADER));
    assert!(!headers.contains_key(INTERNAL_STREAMING_MODE_HEADER));
}

#[test]
fn requests_that_hand_nothing_over_are_told_apart() {
    let request = get("/encode");
    let none = prepared_program_from_internal_request(
        &request,
        DescriptorReading::Absent,
        readings(&request.headers),
        b"raw",
    );
    assert!(none.unwrap().is_none());
    let unreadable = prepared_program_from_internal_request(
        &request,
        DescriptorReading::Unreadable("bad format".to_string()),
        readings(&request.headers),
        b"raw",
    );
    is_internal(&unreadable.unwrap_err(), "bad format");
}

#[test]
fn every_missing_or_unreadable_header_is_named() {
    let program = sample_program();
    let mut headers = http::HeaderMap::new();
    apply_prepared_request_headers(&mut headers, &program, false).unwrap();
    let read = |headers: &http::HeaderMap, body: &[u8]| {
        let head = RequestHead {
            path: "/encode".to_string(),
            query: None,
            headers: headers.clone(),
        };
        prepared_program_from_internal_request(
            &head,
            descriptor_of(&program),
            readings(headers),
            body,
        )
    };
    assert!(read(&headers, b"raw").unwrap().is_some());
    for name in [
        INTERNAL_QUALITY_HEADER,
        INTERNAL_TRACK_COUNT_HEADER,
        INTERNAL_GAP_SECONDS_HEADER,
        INTERNAL_TOTAL_GAP_SECONDS_HEADER,
        INTERNAL_DURATION_SECONDS_HEADER,
        INTERNAL_AUDIO_KEY_HEADER,
    ] {
        let mut fewer = headers.clone();
        fewer.remove(name);
        is_internal(
            &read(&fewer, b"raw").unwrap_err(),
            &format!("missing header {}", name),
        );
    }
    let mut other = headers.clone();
    other.insert(INTERNAL_QUALITY_HEADER, "worst".parse().unwrap());
    is_client(
        &read(&other, b"raw").unwrap_err(),
        "unsupported quality \"worst\". Use one of: standard, hq",
    );
    for (text, fault) in [
        ("", "cannot parse integer from empty string"),
        ("+", "invalid digit found in string"),
        ("-1", "invalid digit found in string"),
        ("1x", "invalid digit found in string"),
        ("99999999999999999999", "number too large to fit in target type"),
    ] {
        let mut other = headers.clone();
        other.insert(INTERNAL_TRACK_COUNT_HEADER, text.parse().unwrap());
        is_internal(
            &read(&other, b"raw").unwrap_err(),
            &format!("invalid {} header: {}", INTERNAL_TRACK_COUNT_HEADER, fault),
        );
        assert_eq!(text.parse::<usize>().unwrap_err().to_string(), fault);
    }
    let mut other = headers.clone();
    other.insert(INTERNAL_TRACK_COUNT_HEADER, "+0012".parse().unwrap());
    assert_eq!(read(&other, b"raw").unwrap().unwrap().track_count, 12);
    let mut other = headers.clone();
    other.insert(INTERNAL_GAP_SECONDS_HEADER, "x".parse().unwrap());
    is_internal(
        &read(&other, b"raw").unwrap_err(),
        "invalid x-encodec-internal-gap-seconds header: invalid float literal",
    );
    is_internal(
        &read(&headers, b"").unwrap_err(),
        "prepared internal request body did not include PCM bytes",
    );
}

#[test]
fn envelopes_arrive_with_what_is_known() {
    let mut metadata = PreparedRequestMetadata {
        sample_rate: 48_000,
        channels: 2,
        bits_per_sample: 16,
        quality: EncodeQuality::Standard,
        track_count: 1,
        gap_seconds: seconds(1.5),
        total_gap_seconds: seconds(0.0),
        duration_seconds: None,
        audio_key: None,
        streaming: true,
    };
    let descriptor = PcmDescriptor { sample_rate: 48_000, channels: 2, bits_per_sample: 16 };
    let mut headers = http::HeaderMap::new();
    // Whatever a client put there does not stay.
    headers.insert(INTERNAL_AUDIO_KEY_HEADER, "forged".parse().unwrap());
    headers.insert(INTERNAL_DURATION_SECONDS_HEADER, "1".parse().unwrap());
    apply_prepared_request_metadata_headers(&mut headers, &metadata).unwrap();
    let head = RequestHead {
        path: "/encode/stream".to_string(),
        query: None,
        headers: headers.clone(),
    };
    assert!(is_streaming_request(&head));
    let envelope = prepared_request_envelope_from_internal_request(
        &head,
        DescriptorReading::Read(descriptor),
        readings(&headers),
    )
    .unwrap()
    .unwrap();
    assert_eq!(envelope.descriptor, descriptor);
    assert_eq!(envelope.quality, EncodeQuality::Standard);
    assert_eq!(envelope.track_count, 1);
    assert_eq!(envelope.gap_seconds, seconds(1.5));
    assert_eq!(envelope.total_gap_seconds, seconds(0.0));
    assert_eq!(envelope.duration_seconds, None);
    assert_eq!(envelope.audio_key, None);

    metadata.duration_seconds = Some(seconds(2.5));
    metadata.audio_key = Some("k".to_string());
    metadata.streaming = false;
    apply_prepared_request_metadata_headers(&mut headers, &metadata).unwrap();
    let head = RequestHead {
        path: "/encode/stream".to_string(),
        query: None,
        headers: headers.clone(),
    };
    assert!(!is_streaming_request(&head));
    let envelope = prepared_request_envelope_from_internal_request(
        &head,
        DescriptorReading::Read(descriptor),
        readings(&headers),
    )
    .unwrap()
    .unwrap();
    assert_eq!(envelope.duration_seconds, Some(seconds(2.5)));
    assert_eq!(envelope.audio_key, Some("k".to_string()));
    let none = prepared_request_envelope_from_internal_request(
        &head,
        DescriptorReading::Absent,
        readings(&headers),
    );
    assert!(none.unwrap().is_none());
}
