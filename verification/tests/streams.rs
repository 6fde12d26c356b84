use base64::Engine;
use encodec_api::artifacts::{
    artifact_events, selected_events, EcdcStream, GrowingArtifact, STREAM_ARTIFACT_CHUNK_BYTES,
};
use encodec_api::config::{AppConfig, AppRole};
use encodec_api::events::{
    event_line, headers_to_json, loading_event, metadata_event, packing_event, request_event,
};
use encodec_api::form::{ParsedEncodeRequest, UploadedFile};
use encodec_api::options::{EncodeQuality, StreamArtifactSelection};
use encodec_api::picture::build_artifacts_from_ecdc;
use encodec_api::prepared::{PcmDescriptor, PreparedEncodeProgram, PreparedRequestEnvelope};
use encodec_api::relay::{body_message, trim_newline, RelayMessage, TailSlot, WebsocketRelay};
use encodec_api::seconds::Seconds;
use encodec_api::request::RequestHead;
use encodec_api::session::{
    begin_stream, closing_event, open_stream, parsed_event, program_opening_events,
    stream_artifacts, ArrivingSamples, ArrivingUpload, OpenStream,
};
use encodec_api::upload::{
    collect_frame, BufferedUpload, SampleUpload, SourceFrame, STREAM_UPLOAD_PROGRESS_BYTES,
};
use encodec_api::worker::JsonLineWriter;
use serde_json::Value;

fn seconds(value: f64) -> Seconds {
    Seconds {
        bits: value.to_bits(),
        text: value.to_string(),
        hundredths: ((value * 100.0).round() / 100.0).to_string(),
        millionths: format!("{:.6}", value),
    }
}

fn json(text: &str) -> Value {
    serde_json::from_str(text).unwrap()
}

fn config() -> AppConfig {
    AppConfig {
        role: AppRole::Worker,
        rust_log: "info".into(),
        port: 8443,
        enable_h3: false,
        tls_cert_path: None,
        tls_key_path: None,
        encodec_bin: "encodec".into(),
        encodec_python: None,
        encodec_backend: "external-encodec".into(),
        encodec_execution_target: None,
        encodec_onnx_bundle_root: "/bundles".into(),
        encodec_device_id: 0,
        encodec_frame_batch_size: 8,
        upload_response_num_streams: 2,
        upload_response_slot_size_kb: 128,
        upload_response_slots_per_stream: 512,
        upload_response_timeout_ms: 300_000,
        upload_response_watch_poll_ms: 2,
        upload_response_worker_poll_ms: 10,
        upload_response_max_inflight: 1,
        upload_response_worker_id: "worker".into(),
        upload_response_ingress_urls: vec!["https://a".into()],
        upload_response_discovery_dns: None,
        upload_response_discovery_interval_ms: 2_000,
        upload_response_insecure_tls: false,
    }
}

fn decoded(event: &Value) -> Vec<u8> {
    base64::engine::general_purpose::STANDARD
        .decode(event["data"].as_str().unwrap())
        .unwrap()
}

#[test]
fn events_are_lines_of_json() {
    let event = metadata_event("id-1", "/encode/stream", StreamArtifactSelection::Both);
    assert_eq!(
        event_line(&event).unwrap(),
        b"{\"artifact\":\"both\",\"path\":\"/encode/stream\",\"request_id\":\"id-1\",\"type\":\"Metadata\"}\n".to_vec()
    );
    let event = loading_event(None);
    assert_eq!(
        event,
        json("{\"type\":\"Progress\",\"status\":\"loading\",\"msg\":\"Prepared canonical stereo PCM\"}")
    );
    assert_eq!(
        packing_event(),
        json("{\"type\":\"Progress\",\"status\":\"packing\",\"msg\":\"Packing bytes to RGB...\"}")
    );
    let event = request_event("id", 2, EncodeQuality::Standard, json("1.5"), "k\n");
    assert_eq!(
        String::from_utf8(event_line(&event).unwrap()).unwrap(),
        "{\"audio_key\":\"k\\n\",\"gap_seconds\":1.5,\"quality\":\"standard\",\"request_id\":\"id\",\"track_count\":2,\"type\":\"Request\"}\n"
    );
}

#[test]
fn streams_begin_with_a_name_and_a_selection() {
    let mut head = RequestHead {
        path: "/encode/stream".to_string(),
        query: Some("artifact=ecdc".to_string()),
        headers: http::HeaderMap::new(),
    };
    let (stream, event) = open_stream(&head, "id".to_string()).unwrap();
    assert_eq!(stream.request_id(), "id");
    assert_eq!(stream.selection(), StreamArtifactSelection::Ecdc);
    assert_eq!(
        event,
        metadata_event("id", "/encode/stream", StreamArtifactSelection::Ecdc)
    );
    let (first, event) = begin_stream(&head).unwrap();
    let (second, _) = begin_stream(&head).unwrap();
    assert_ne!(first.request_id(), second.request_id());
    assert_eq!(event["request_id"], first.request_id());
    for (at, c) in first.request_id().chars().enumerate() {
        match at {
            8 | 13 | 18 | 23 => assert_eq!(c, '-'),
            14 => assert_eq!(c, '4'),
            _ => assert!(c.is_ascii_digit() || ('a'..='f').contains(&c)),
        }
    }
    assert_eq!(first.request_id().len(), 36);
    head.query = Some("artifact=gif".to_string());
    assert_eq!(
        begin_stream(&head).err().unwrap().message(),
        "unsupported artifact \"gif\". Use one of: png, ecdc, both"
    );
}

#[test]
fn program_opening_tells_duration_and_bandwidth() {
    let events = program_opening_events(json("2.5"), json("2.5"), json("12.0"));
    assert_eq!(
        events,
        vec![
            json("{\"type\":\"Progress\",\"status\":\"loading\",\"msg\":\"Prepared canonical stereo PCM\",\"duration\":2.5}"),
            json("{\"type\":\"Progress\",\"status\":\"encoding\",\"msg\":\"Encoding with EnCodec...\",\"duration\":2.5,\"bandwidthKbps\":12.0}"),
        ]
    );
}

#[test]
fn header_lines_become_members() {
    let lines = vec![
        ("a".to_string(), "1".to_string()),
        ("b".to_string(), "2".to_string()),
        ("a".to_string(), "3".to_string()),
    ];
    assert_eq!(headers_to_json(&lines), json("{\"a\":\"3\",\"b\":\"2\"}"));
}

#[test]
fn whole_artifacts_are_sent_in_pieces() {
    let bytes: Vec<u8> = (0..(2 * STREAM_ARTIFACT_CHUNK_BYTES + 5))
        .map(|i| (i % 251) as u8)
        .collect();
    let events = artifact_events("id", "png", "image/png", &bytes);
    assert_eq!(events.len(), 5);
    assert_eq!(
        events[0],
        json("{\"type\":\"ArtifactStart\",\"request_id\":\"id\",\"name\":\"png\",\"content_type\":\"image/png\",\"encoding\":\"base64\",\"size_bytes\":98309}")
    );
    assert_eq!(
        events[4],
        json("{\"type\":\"ArtifactEnd\",\"request_id\":\"id\",\"name\":\"png\",\"chunks\":3,\"size_bytes\":98309}")
    );
    let mut joined = Vec::new();
    for (index, event) in events[1..4].iter().enumerate() {
        assert_eq!(event["index"], json(&index.to_string()));
        assert_eq!(event["type"], "ArtifactChunk");
        joined.extend(decoded(event));
    }
    assert_eq!(joined, bytes);
    assert_eq!(decoded(&events[1]).len(), 49_152);

    let events = artifact_events("id", "png", "image/png", b"hi");
    assert_eq!(events[1]["data"], "aGk=");
    assert_eq!(artifact_events("id", "png", "image/png", b"").len(), 2);
}

#[test]
fn growing_artifacts_send_the_pieces_of_the_whole() {
    let bytes: Vec<u8> = (0..(3 * STREAM_ARTIFACT_CHUNK_BYTES)).map(|i| (i % 253) as u8).collect();
    let whole = artifact_events("id", "ecdc", "application/octet-stream", &bytes);
    for part in [1_000usize, STREAM_ARTIFACT_CHUNK_BYTES, 100_000, bytes.len()] {
        let mut artifact = GrowingArtifact::new("id", "ecdc");
        let mut events = Vec::new();
        for piece in bytes.chunks(part) {
            events.extend(artifact.extend(piece));
        }
        assert_eq!(artifact.len(), bytes.len());
        events.extend(artifact.finish(bytes.len()));
        assert_eq!(events, whole[1..].to_vec());
    }
}

#[test]
fn encoded_audio_is_sent_only_where_it_was_selected() {
    let (stream, events) = EcdcStream::open("id", StreamArtifactSelection::Png);
    assert!(events.is_empty());
    let (stream, events) = stream.extend(&vec![7; 200_000]);
    assert!(events.is_empty());
    assert_eq!(stream.len(), 0);
    assert!(stream.finish(200_000).is_empty());

    let (stream, events) = EcdcStream::open("id", StreamArtifactSelection::Ecdc);
    assert_eq!(
        events,
        vec![json("{\"type\":\"ArtifactStart\",\"request_id\":\"id\",\"name\":\"ecdc\",\"content_type\":\"application/octet-stream\",\"encoding\":\"base64\"}")]
    );
    let (stream, events) = stream.extend(b"abc");
    assert!(events.is_empty());
    let events = stream.finish(3);
    assert_eq!(events.len(), 2);
    assert_eq!(decoded(&events[0]), b"abc".to_vec());
    assert_eq!(events[1]["chunks"], json("1"));

    let names = |selection: StreamArtifactSelection| -> Vec<String> {
        selected_events("id", selection, b"e", b"p")
            .iter()
            .map(|event| event["name"].as_str().unwrap().to_string())
            .collect()
    };
    assert_eq!(names(StreamArtifactSelection::Png), vec!["png"; 3]);
    assert_eq!(names(StreamArtifactSelection::Ecdc), vec!["ecdc"; 3]);
    assert_eq!(
        names(StreamArtifactSelection::Both),
        vec!["ecdc", "ecdc", "ecdc", "png", "png", "png"]
    );
}

#[test]
fn sample_uploads_tell_of_progress() {
    let upload = SampleUpload::new("id");
    let (upload, step) = upload.on_frame(SourceFrame::Head);
    assert!(step.feed.is_none() && step.event.is_none() && !step.stop);
    let (upload, step) = upload.on_frame(SourceFrame::Body(vec![]));
    assert!(step.feed.is_none() && step.event.is_none() && !step.stop);
    let (upload, step) = upload.on_frame(SourceFrame::Body(vec![1; STREAM_UPLOAD_PROGRESS_BYTES - 1]));
    assert_eq!(step.feed.unwrap().len(), 1_048_575);
    assert!(step.event.is_none());
    let (upload, step) = upload.on_frame(SourceFrame::Body(vec![2]));
    assert_eq!(
        step.event,
        Some(json("{\"type\":\"UploadProgress\",\"request_id\":\"id\",\"bytes_received\":1048576}"))
    );
    let (upload, step) = upload.on_frame(SourceFrame::KeepAlive);
    assert!(step.event.is_none() && !step.stop);
    let (upload, step) = upload.on_frame(SourceFrame::Finalize);
    assert_eq!(
        step.event,
        Some(json("{\"type\":\"UploadProgress\",\"request_id\":\"id\",\"bytes_received\":1048576,\"finalize\":true}"))
    );
    let (upload, step) = upload.on_frame(SourceFrame::End);
    assert!(step.stop);
    assert_eq!(upload.received(), 1_048_576);
    let (event, _) = upload.complete().unwrap();
    assert_eq!(
        event,
        json("{\"type\":\"UploadComplete\",\"request_id\":\"id\",\"bytes_received\":1048576}")
    );
    let error = SampleUpload::new("id").complete().err().unwrap();
    assert_eq!(error.message(), "request body did not include audio bytes");
}

#[test]
fn buffered_uploads_are_kept() {
    let upload = BufferedUpload::new("id");
    let (upload, _) = upload.on_frame(SourceFrame::Body(b"ab".to_vec()));
    let (upload, step) = upload.on_frame(SourceFrame::Finalize);
    assert_eq!(step.event.unwrap()["bytes_received"], json("2"));
    let (upload, step) = upload.on_frame(SourceFrame::Body(vec![9; STREAM_UPLOAD_PROGRESS_BYTES]));
    assert_eq!(step.event.unwrap()["bytes_received"], json("1048578"));
    let (upload, step) = upload.on_frame(SourceFrame::End);
    assert!(step.stop);
    let (body, event) = upload.complete().unwrap();
    assert_eq!(body.len(), 1_048_578);
    assert_eq!(&body[..3], b"ab\x09");
    assert_eq!(event["type"], "UploadComplete");
    let error = BufferedUpload::new("id").complete().err().unwrap();
    assert_eq!(error.message(), "request body did not include audio bytes");
}

#[test]
fn frames_make_the_body() {
    let mut body = Vec::new();
    assert!(!collect_frame(&mut body, SourceFrame::Body(b"a".to_vec())));
    assert!(!collect_frame(&mut body, SourceFrame::Finalize));
    assert!(!collect_frame(&mut body, SourceFrame::KeepAlive));
    assert!(!collect_frame(&mut body, SourceFrame::Head));
    assert!(!collect_frame(&mut body, SourceFrame::Body(b"bc".to_vec())));
    assert!(collect_frame(&mut body, SourceFrame::End));
    assert_eq!(body, b"abc".to_vec());
}

fn relay_of(content_type: Option<&str>) -> WebsocketRelay {
    WebsocketRelay::new().on_headers(content_type)
}

fn text(value: &str) -> RelayMessage {
    RelayMessage::Text(value.to_string())
}

#[test]
fn lines_are_relayed_wherever_the_stream_is_cut() {
    let stream = b"{\"a\":1}\r\n\n{\"b\":2}\n\r\nlast".to_vec();
    for cut in 0..stream.len() {
        let relay = relay_of(Some("application/x-ndjson; charset=utf-8"));
        let (relay, mut messages, over) = relay.on_slot(TailSlot::Body(stream[..cut].to_vec()));
        assert!(!over);
        let (relay, more, _) = relay.on_slot(TailSlot::Body(stream[cut..].to_vec()));
        messages.extend(more);
        let (relay, none, over) = relay.on_slot(TailSlot::Other);
        assert!(none.is_empty() && !over);
        let (_, more, over) = relay.on_slot(TailSlot::End);
        assert!(over);
        messages.extend(more);
        assert_eq!(messages, vec![text("{\"a\":1}"), text("{\"b\":2}"), text("last")]);
    }
}

#[test]
fn each_event_is_one_message() {
    let events = artifact_events("id\nx", "png", "image/png", b"some bytes");
    let mut stream = Vec::new();
    let mut expected = Vec::new();
    for event in &events {
        let line = event_line(event).unwrap();
        expected.push(text(std::str::from_utf8(&line[..line.len() - 1]).unwrap()));
        stream.extend(line);
    }
    let (relay, messages, _) = relay_of(Some("ndjson")).on_slot(TailSlot::Body(stream));
    assert_eq!(messages, expected);
    let (_, messages, _) = relay.on_slot(TailSlot::End);
    assert!(messages.is_empty());
}

#[test]
fn other_bodies_are_relayed_as_they_are() {
    assert_eq!(body_message(b"abc".to_vec()), text("abc"));
    assert_eq!(
        body_message(vec![0xff, 0x00]),
        RelayMessage::Binary(vec![0xff, 0x00])
    );
    let (relay, messages, _) = relay_of(None).on_slot(TailSlot::Body(b"a\nb".to_vec()));
    assert_eq!(messages, vec![text("a\nb")]);
    let (_, messages, over) = relay.on_slot(TailSlot::End);
    assert!(messages.is_empty() && over);
    // Bytes of a line that are no UTF-8 are replaced.
    let (_, messages, _) = relay_of(Some("x/ndjson")).on_slot(TailSlot::Body(b"a\xffb\n".to_vec()));
    assert_eq!(messages, vec![text("a\u{fffd}b")]);
}

#[test]
fn slots_are_taken_once() {
    let relay = WebsocketRelay::new();
    assert!(!relay.has_started());
    let (relay, slots) = relay.on_poll(4);
    assert_eq!(slots, None);
    let relay = relay.on_headers(Some("image/png"));
    assert!(relay.has_started());
    let (relay, slots) = relay.on_poll(1);
    assert_eq!(slots, None);
    let (relay, slots) = relay.on_poll(4);
    assert_eq!(slots, Some((2, 4)));
    let (relay, slots) = relay.on_poll(4);
    assert_eq!(slots, None);
    let (_, slots) = relay.on_poll(5);
    assert_eq!(slots, Some((5, 5)));
}

#[test]
fn ends_of_lines_are_trimmed_once() {
    assert_eq!(trim_newline(b"a\r\n"), b"a");
    assert_eq!(trim_newline(b"a\r"), b"a");
    assert_eq!(trim_newline(b"a\r\r\n"), b"a\r");
    assert_eq!(trim_newline(b"a\n\n"), b"a\n");
    assert_eq!(trim_newline(b""), b"");
}

#[test]
fn the_head_of_a_streamed_answer_comes_first_and_once() {
    let writer = JsonLineWriter::new();
    let step = writer.on_event(&packing_event()).unwrap();
    let head = step.head.unwrap();
    assert_eq!(head.status, 200);
    assert_eq!(head.content_type, Some("application/x-ndjson; charset=utf-8".to_string()));
    assert_eq!(head.headers, vec![("cache-control".to_string(), "no-store".to_string())]);
    assert_eq!(step.line, event_line(&packing_event()).unwrap());
    let writer = writer.head_written();
    assert!(writer.on_event(&packing_event()).unwrap().head.is_none());
    assert!(writer.pending_head().is_none());
    assert!(writer.needs_finish());
    let writer = writer.finish_written();
    assert!(!writer.needs_finish());
}

fn envelope(duration: Option<Seconds>, audio_key: Option<String>) -> PreparedRequestEnvelope {
    PreparedRequestEnvelope {
        descriptor: PcmDescriptor { sample_rate: 48_000, channels: 2, bits_per_sample: 16 },
        quality: EncodeQuality::Standard,
        track_count: 1,
        gap_seconds: seconds(1.5),
        total_gap_seconds: seconds(0.0),
        duration_seconds: duration,
        audio_key,
    }
}

fn opened(artifact: &str) -> (OpenStream, Value) {
    let head = RequestHead {
        path: "/encode/stream".to_string(),
        query: Some(format!("artifact={artifact}")),
        headers: http::HeaderMap::new(),
    };
    open_stream(&head, "id".to_string()).unwrap()
}

#[test]
fn samples_are_encoded_while_they_arrive() {
    let (stream, events) = ArrivingSamples::open(
        opened("both").0,
        envelope(None, None),
        json("6.0"),
    );
    assert_eq!(
        events,
        vec![
            json("{\"type\":\"Progress\",\"status\":\"loading\",\"msg\":\"Prepared canonical stereo PCM\"}"),
            json("{\"type\":\"Progress\",\"status\":\"encoding\",\"msg\":\"Encoding with EnCodec...\",\"bandwidthKbps\":6.0}"),
            json("{\"type\":\"ArtifactStart\",\"request_id\":\"id\",\"name\":\"ecdc\",\"content_type\":\"application/octet-stream\",\"encoding\":\"base64\"}"),
        ]
    );
    let (stream, step) = stream.on_frame(SourceFrame::Body(vec![1, 2, 3, 4]));
    assert_eq!(step.feed, Some(vec![1, 2, 3, 4]));
    assert_eq!(stream.received(), 4);
    assert_eq!(stream.envelope().track_count, 1);
    let (stream, step) = stream.on_frame(SourceFrame::End);
    assert!(step.stop);
    let (stream, events) = stream.complete(seconds(0.25), json("1.5")).unwrap();
    assert_eq!(
        events,
        vec![
            json("{\"type\":\"UploadComplete\",\"request_id\":\"id\",\"bytes_received\":4}"),
            json("{\"type\":\"Request\",\"request_id\":\"id\",\"track_count\":1,\"quality\":\"standard\",\"gap_seconds\":1.5,\"audio_key\":\"0f5809809eb98365aadf6d21e893c2670eb4afb6a8d88564e0124f016d3de052\"}"),
        ]
    );
    let (stream, events) = stream.on_chunk(b"enc");
    assert!(events.is_empty());
    assert_eq!(stream.encoded_bytes(), 3);
    let (stream, _) = stream.on_chunk(b"oded");
    let (events, finished) = stream.finish(&config(), b"encoded".to_vec());
    assert_eq!(events.len(), 3);
    assert_eq!(decoded(&events[0]), b"encoded".to_vec());
    assert_eq!(events[1]["size_bytes"], json("7"));
    assert_eq!(events[2], packing_event());
    let (stream, events) = finished.unwrap();
    let artifacts = stream.artifacts();
    assert_eq!(artifacts.ecdc, b"encoded".to_vec());
    assert_eq!(artifacts.duration_seconds, seconds(0.25));
    assert_eq!(artifacts.png_side, 2);
    assert_eq!(artifacts.device_label, "gpu-external-encodec");
    assert_eq!(events, artifact_events("id", "png", "image/png", &artifacts.png));

    let expected = closing_event("id", artifacts, json("0.25"));
    let done = stream.close(json("0.25"));
    assert_eq!(done, expected);
    assert_eq!(done["type"], "Done");
    assert_eq!(done["cached"], json("false"));
    assert_eq!(done["duration"], json("0.25"));
    assert_eq!(done["png_size"], json("2"));
    assert_eq!(done["ecdc_bytes"], json("7"));
    assert_eq!(done["meta"].as_object().unwrap().len(), 17);
    assert_eq!(done["meta"]["x-gap-seconds"], "1.5");
    assert_eq!(done["meta"]["x-encodec-bandwidth"], "6");
}

#[test]
fn what_a_request_tells_of_samples_is_kept() {
    let (stream, events) = ArrivingSamples::open(
        opened("png").0,
        envelope(Some(seconds(9.0)), Some("told".to_string())),
        json("6.0"),
    );
    assert_eq!(events.len(), 2);
    let (stream, _) = stream.on_frame(SourceFrame::Body(vec![0, 0]));
    let (stream, events) = stream.complete(seconds(0.25), json("1.5")).unwrap();
    assert_eq!(events[1]["audio_key"], "told");
    let (stream, events) = stream.on_chunk(b"x");
    assert!(events.is_empty());
    let (events, finished) = stream.finish(&config(), b"x".to_vec());
    assert_eq!(events, vec![packing_event()]);
    assert_eq!(finished.unwrap().0.artifacts().duration_seconds, seconds(9.0));
}

#[test]
fn streams_without_samples_or_encoding_fail() {
    let open = || {
        ArrivingSamples::open(opened("ecdc").0, envelope(None, None), json("6.0")).0
    };
    let error = open().complete(seconds(0.0), json("1.5")).err().unwrap();
    assert_eq!(error.message(), "request body did not include audio bytes");
    let (stream, _) = open().on_frame(SourceFrame::Body(vec![1]));
    let (stream, _) = stream.complete(seconds(0.0), json("1.5")).unwrap();
    let (events, finished) = stream.finish(&config(), vec![]);
    assert_eq!(events.len(), 2);
    assert_eq!(events[0]["chunks"], json("0"));
    assert_eq!(finished.err().unwrap().message(), "failed to encode PNG");
}

fn program() -> PreparedEncodeProgram {
    PreparedEncodeProgram {
        pcm_bytes: vec![],
        sample_rate: 48_000,
        channels: 2,
        bits_per_sample: 16,
        duration_seconds: seconds(1.0),
        quality: EncodeQuality::Hq,
        audio_key: "k".into(),
        track_count: 1,
        gap_seconds: seconds(1.5),
        total_gap_seconds: seconds(0.0),
    }
}

fn parsed() -> ParsedEncodeRequest {
    ParsedEncodeRequest {
        files: vec![UploadedFile { filename: "a".into(), content_type: None, bytes: vec![1] }],
        gap_seconds: seconds(1.5),
        quality: EncodeQuality::Hq,
        audio_key: "k".into(),
    }
}

#[test]
fn buffered_streams_send_the_selected_artifacts() {
    let parsed = parsed();
    let event = parsed_event("id", &parsed, json("1.5"));
    assert_eq!(
        event,
        json("{\"type\":\"Request\",\"request_id\":\"id\",\"track_count\":1,\"quality\":\"hq\",\"gap_seconds\":1.5,\"audio_key\":\"k\"}")
    );
    let program = program();
    let artifacts = build_artifacts_from_ecdc(&config(), &program, b"abc".to_vec()).unwrap();
    let events = stream_artifacts("id", StreamArtifactSelection::Both, &artifacts);
    let mut expected = artifact_events("id", "ecdc", "application/octet-stream", b"abc");
    expected.extend(artifact_events("id", "png", "image/png", &artifacts.png));
    assert_eq!(events, expected);
}

fn names(events: &[Value]) -> Vec<String> {
    events
        .iter()
        .map(|event| match event["status"].as_str() {
            Some(status) => status.to_string(),
            None => event["type"].as_str().unwrap().to_string(),
        })
        .collect()
}

#[test]
fn events_of_arriving_samples_come_in_their_order() {
    let (stream, first) = opened("both");
    let mut sent = vec![first];
    let (stream, events) = ArrivingSamples::open(stream, envelope(None, None), json("6.0"));
    sent.extend(events);
    let (stream, step) = stream.on_frame(SourceFrame::Body(vec![1; STREAM_UPLOAD_PROGRESS_BYTES]));
    sent.extend(step.event);
    let (stream, step) = stream.on_frame(SourceFrame::Finalize);
    sent.extend(step.event);
    let (stream, events) = stream.complete(seconds(0.25), json("1.5")).unwrap();
    sent.extend(events);
    let encoded = vec![5u8; STREAM_ARTIFACT_CHUNK_BYTES + 1];
    let (stream, events) = stream.on_chunk(&encoded);
    sent.extend(events);
    let (events, finished) = stream.finish(&config(), encoded);
    sent.extend(events);
    let (stream, events) = finished.unwrap();
    sent.extend(events);
    sent.push(stream.close(json("0.25")));
    assert_eq!(
        names(&sent),
        vec![
            "Metadata",
            "loading",
            "encoding",
            "ArtifactStart",
            "UploadProgress",
            "UploadProgress",
            "UploadComplete",
            "Request",
            "ArtifactChunk",
            "ArtifactChunk",
            "ArtifactEnd",
            "packing",
            "ArtifactStart",
            "ArtifactChunk",
            "ArtifactEnd",
            "Done",
        ]
    );
}

#[test]
fn events_of_whole_uploads_come_in_their_order() {
    let (stream, first) = opened("both");
    let mut sent = vec![first];
    let stream = ArrivingUpload::open(stream);
    let (stream, step) = stream.on_frame(SourceFrame::Body(vec![7; STREAM_UPLOAD_PROGRESS_BYTES]));
    assert!(step.feed.is_none() && !step.stop);
    sent.extend(step.event);
    let (stream, step) = stream.on_frame(SourceFrame::Finalize);
    sent.extend(step.event);
    let (stream, step) = stream.on_frame(SourceFrame::End);
    assert!(step.stop && step.event.is_none());
    let (stream, body, event) = stream.complete().unwrap();
    assert_eq!(body, vec![7; STREAM_UPLOAD_PROGRESS_BYTES]);
    assert_eq!(
        event,
        json("{\"type\":\"UploadComplete\",\"request_id\":\"id\",\"bytes_received\":1048576}")
    );
    sent.push(event);
    let (stream, event) = stream.understood(&parsed(), json("1.5"));
    assert_eq!(event, parsed_event("id", &parsed(), json("1.5")));
    sent.push(event);
    let (stream, events) = stream.prepared(program(), json("1.0"), json("1.0"), json("12.0"));
    assert_eq!(events, program_opening_events(json("1.0"), json("1.0"), json("12.0")));
    sent.extend(events);
    assert_eq!(stream.program().audio_key, "k");
    let (event, finished) = stream.finish(&config(), b"abc".to_vec());
    assert_eq!(event, packing_event());
    sent.push(event);
    let (stream, events) = finished.unwrap();
    assert_eq!(
        events,
        stream_artifacts("id", StreamArtifactSelection::Both, stream.artifacts())
    );
    sent.extend(events);
    sent.push(stream.close(json("1.0")));
    assert_eq!(
        names(&sent),
        vec![
            "Metadata",
            "UploadProgress",
            "UploadProgress",
            "UploadComplete",
            "Request",
            "loading",
            "encoding",
            "packing",
            "ArtifactStart",
            "ArtifactChunk",
            "ArtifactEnd",
            "ArtifactStart",
            "ArtifactChunk",
            "ArtifactEnd",
            "Done",
        ]
    );
}

#[test]
fn whole_uploads_without_bytes_or_encoding_fail() {
    let error = ArrivingUpload::open(opened("png").0).complete().err().unwrap();
    assert_eq!(error.message(), "request body did not include audio bytes");
    let stream = ArrivingUpload::open(opened("png").0);
    let (stream, _) = stream.on_frame(SourceFrame::Body(vec![1]));
    let (stream, _, _) = stream.complete().unwrap();
    let (stream, _) = stream.understood(&parsed(), json("1.5"));
    let (stream, _) = stream.prepared(program(), json("1.0"), json("1.0"), json("12.0"));
    let (event, finished) = stream.finish(&config(), vec![]);
    assert_eq!(event, packing_event());
    assert_eq!(finished.err().unwrap().message(), "failed to encode PNG");
}

#[test]
fn a_last_line_is_relayed_whether_it_ends_or_not() {
    let ended: &[u8] = b"{\"a\":1}\n\r\n{\"b\":2}\r\n";
    let open: &[u8] = b"{\"a\":1}\n\r\n{\"b\":2}\r";
    for stream in [ended, open] {
        let mut relay = relay_of(Some("application/x-ndjson"));
        let mut messages = Vec::new();
        for byte in stream {
            let (next, more, over) = relay.on_slot(TailSlot::Body(vec![*byte]));
            assert!(!over);
            relay = next;
            messages.extend(more);
        }
        let (_, more, over) = relay.on_slot(TailSlot::End);
        assert!(over);
        messages.extend(more);
        assert_eq!(messages, vec![text("{\"a\":1}"), text("{\"b\":2}")]);
    }
}
