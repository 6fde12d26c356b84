use encodec_api::config::{
    bundle_dir_for_quality, bundle_name_for_quality, execution_target_for_bundle, startup_plan,
    AppConfig, AppRole, ExecutionTarget, StartupPlan, TlsSource, UploadResponseConfig,
};
use encodec_api::error::{client_error, is_client_error, ClientError, EncodeError};
use encodec_api::ingress::{
    body_slice_bytes, collect_chunk, direct_metadata, failure_response, ingress_proxy_config,
    receive_frame, relay_poll_ms, ClientFrame, DecoderReply, DecoderStep, DirectUpload, Exchange,
    ExchangeStep, IngressProxyConfig, Transport,
};
use encodec_api::options::EncodeQuality;
use encodec_api::picture::EncodeArtifacts;
use encodec_api::request::RequestHead;
use encodec_api::response::{classify_error, HandlerResponse};
use encodec_api::protocol::{
    CONTENT_LENGTH, CONTENT_TYPE, INTERNAL_AUDIO_KEY_HEADER, INTERNAL_DURATION_SECONDS_HEADER,
    INTERNAL_GAP_SECONDS_HEADER, INTERNAL_QUALITY_HEADER, INTERNAL_STREAMING_MODE_HEADER,
    INTERNAL_STREAMING_MODE_JSONL, INTERNAL_TOTAL_GAP_SECONDS_HEADER, INTERNAL_TRACK_COUNT_HEADER,
};
use encodec_api::router::{
    is_encode_path, is_upload_path, AppRouter, BodyRouted, RequestMethod, Routed,
};
use encodec_api::seconds::Seconds;
use encodec_api::worker::{encode_response, missing_request, WorkerState};

fn seconds(value: f64) -> Seconds {
    Seconds {
        bits: value.to_bits(),
        text: value.to_string(),
        hundredths: ((value * 100.0).round() / 100.0).to_string(),
        millionths: format!("{:.6}", value),
    }
}

fn config(role: AppRole) -> AppConfig {
    AppConfig {
        role,
        rust_log: "info,encodec_api=debug".into(),
        port: 8443,
        enable_h3: false,
        tls_cert_path: None,
        tls_key_path: None,
        encodec_bin: "encodec".into(),
        encodec_python: None,
        encodec_backend: "external-encodec".into(),
        encodec_execution_target: None,
        encodec_onnx_bundle_root: "/bundles".into(),
        encodec_device_id: 3,
        encodec_frame_batch_size: 8,
        upload_response_num_streams: 2,
        upload_response_slot_size_kb: 128,
        upload_response_slots_per_stream: 512,
        upload_response_timeout_ms: 300_000,
        upload_response_watch_poll_ms: 2,
        upload_response_worker_poll_ms: 10,
        upload_response_max_inflight: 1,
        upload_response_worker_id: "encodec-api-worker".into(),
        upload_response_ingress_urls: vec!["https://127.0.0.1:8443".into()],
        upload_response_discovery_dns: None,
        upload_response_discovery_interval_ms: 2_000,
        upload_response_insecure_tls: false,
    }
}

fn no_store() -> Vec<(String, String)> {
    vec![("cache-control".to_string(), "no-store".to_string())]
}

fn head(headers: http::HeaderMap) -> RequestHead {
    RequestHead { path: "/encode".to_string(), query: None, headers }
}

fn typed(content_type: &str) -> RequestHead {
    let mut headers = http::HeaderMap::new();
    headers.insert("content-type", content_type.parse().unwrap());
    head(headers)
}

#[test]
fn roles_say_what_a_process_runs() {
    assert!(AppRole::Ingress.serves_encode());
    assert!(AppRole::Ingress.exposes_upload_cache());
    assert!(!AppRole::Ingress.runs_remote_worker());
    assert!(!AppRole::Worker.serves_encode());
    assert!(!AppRole::Worker.exposes_upload_cache());
    assert!(AppRole::Worker.runs_remote_worker());
    assert_eq!(
        startup_plan(&config(AppRole::Ingress)),
        StartupPlan { upload_service: true, encode_ingress: true, websocket: true, remote_worker: false }
    );
    assert_eq!(
        startup_plan(&config(AppRole::Worker)),
        StartupPlan { upload_service: false, encode_ingress: false, websocket: false, remote_worker: true }
    );
}

#[test]
fn configurations_are_validated_in_order() {
    assert!(config(AppRole::Ingress).validate().is_ok());
    assert!(config(AppRole::Worker).validate().is_ok());
    let mut bad = config(AppRole::Worker);
    bad.upload_response_ingress_urls = vec![];
    bad.upload_response_discovery_dns = Some("  ".into());
    let mut expected = vec![
        "worker role requires UPLOAD_RESPONSE_INGRESS_URLS or UPLOAD_RESPONSE_DISCOVERY_DNS",
    ];
    let faults: Vec<(&str, fn(&mut AppConfig))> = vec![
        ("UPLOAD_RESPONSE_DISCOVERY_INTERVAL_MS must be > 0", |c| {
            c.upload_response_discovery_interval_ms = 0
        }),
        ("UPLOAD_RESPONSE_WORKER_ID must not be empty", |c| {
            c.upload_response_worker_id = " \t".into()
        }),
        ("UPLOAD_RESPONSE_MAX_INFLIGHT must be > 0", |c| c.upload_response_max_inflight = 0),
        ("UPLOAD_RESPONSE_WORKER_POLL_MS must be > 0", |c| c.upload_response_worker_poll_ms = 0),
        ("UPLOAD_RESPONSE_WATCH_POLL_MS must be > 0", |c| c.upload_response_watch_poll_ms = 0),
        ("UPLOAD_RESPONSE_TIMEOUT_MS must be > 0", |c| c.upload_response_timeout_ms = 0),
        ("UPLOAD_RESPONSE_SLOTS_PER_STREAM must be > 0", |c| c.upload_response_slots_per_stream = 0),
        ("UPLOAD_RESPONSE_SLOT_SIZE_KB must be > 0", |c| c.upload_response_slot_size_kb = 0),
        ("UPLOAD_RESPONSE_NUM_STREAMS must be > 0", |c| c.upload_response_num_streams = 0),
        ("ENCODEC_BACKEND must not be empty", |c| c.encodec_backend = "".into()),
        ("ENCODEC_BIN must not be empty", |c| c.encodec_bin = "\n".into()),
        ("PORT must be > 0", |c| c.port = 0),
    ];
    assert_eq!(bad.validate().unwrap_err().message(), expected[0]);
    for (message, spoil) in faults {
        spoil(&mut bad);
        expected.push(message);
        let error = bad.validate().unwrap_err();
        assert_eq!(error.message(), message);
        assert!(!is_client_error(&error));
    }
    let mut found = config(AppRole::Worker);
    found.upload_response_ingress_urls = vec![];
    found.upload_response_discovery_dns = Some("ingress.local".into());
    assert!(found.validate().is_ok());
}

#[test]
fn accepted_intervals_are_used_as_they_are() {
    let worker = WorkerState::new(config(AppRole::Worker));
    let settings = worker.remote_worker_config();
    assert_eq!(settings.worker_id, "encodec-api-worker");
    assert_eq!(settings.heartbeat_stage, "response");
    assert_eq!(settings.max_inflight, 1);
    assert_eq!(settings.poll_interval_ms, 10);
    assert_eq!(settings.discovery_interval_ms, 2_000);
    assert_eq!(settings.ingress_urls, vec!["https://127.0.0.1:8443".to_string()]);
    assert_eq!(settings.discovery_dns, None);
    assert_eq!(worker.upload_poll_ms(), 10);
    assert_eq!(worker.config().port, 8443);
    assert_eq!(relay_poll_ms(worker.config()), 2);

    let mut zeros = config(AppRole::Worker);
    zeros.upload_response_worker_poll_ms = 0;
    zeros.upload_response_discovery_interval_ms = 0;
    zeros.upload_response_watch_poll_ms = 0;
    zeros.upload_response_discovery_dns = Some("d".into());
    assert_eq!(relay_poll_ms(&zeros), 1);
    let worker = WorkerState::new(zeros);
    assert_eq!(worker.upload_poll_ms(), 1);
    let settings = worker.remote_worker_config();
    assert_eq!(settings.poll_interval_ms, 1);
    assert_eq!(settings.discovery_interval_ms, 1);
    assert_eq!(settings.discovery_dns, Some("d".to_string()));
    assert_eq!(body_slice_bytes(0), 1);
    assert_eq!(body_slice_bytes(9), 9);
}

#[test]
fn certificates_come_from_two_files_or_neither() {
    let mut files = config(AppRole::Ingress);
    assert_eq!(files.tls_source().unwrap(), TlsSource::Default);
    assert_eq!(
        files.tls_source().unwrap().load_failure(),
        "failed to load default local Wavey TLS certificate"
    );
    files.tls_cert_path = Some("c.pem".into());
    assert_eq!(
        files.tls_source().unwrap_err().message(),
        "set both TLS_CERT_PATH and TLS_KEY_PATH, or neither"
    );
    files.tls_key_path = Some("k.pem".into());
    let source = files.tls_source().unwrap();
    assert_eq!(
        source,
        TlsSource::Paths { cert_path: "c.pem".into(), key_path: "k.pem".into() }
    );
    assert_eq!(source.load_failure(), "failed to load TLS PEMs from c.pem and k.pem");
}

#[test]
fn labels_and_settings_come_from_the_configuration() {
    let mut ingress = config(AppRole::Ingress);
    assert_eq!(ingress.execution_target_label(), "cpu");
    assert_eq!(ingress.encodec_backend_label(), "external-encodec");
    assert_eq!(ingress.device_label(), "cpu-external-encodec");
    assert_eq!(config(AppRole::Worker).device_label(), "gpu-external-encodec");
    ingress.encodec_execution_target = Some("TRT".into());
    assert_eq!(ingress.device_label(), "TRT-external-encodec");
    assert_eq!(
        ingress.upload_response_config(),
        UploadResponseConfig {
            num_streams: 2,
            slot_size_kb: 128,
            slots_per_stream: 512,
            response_timeout_ms: 300_000,
        }
    );
    assert_eq!(
        ingress_proxy_config(&ingress),
        IngressProxyConfig { response_timeout_ms: 300_000, watch_poll_ms: 2 }
    );
}

#[test]
fn bundles_and_targets_are_found() {
    let mut worker = config(AppRole::Worker);
    assert_eq!(bundle_name_for_quality(EncodeQuality::Standard), "encodec_48khz_6kbps");
    assert_eq!(
        bundle_dir_for_quality(&worker, EncodeQuality::Hq),
        "/bundles/encodec_48khz_12kbps"
    );
    worker.encodec_onnx_bundle_root = "b/".into();
    assert_eq!(bundle_dir_for_quality(&worker, EncodeQuality::Standard), "b/encodec_48khz_6kbps");
    worker.encodec_onnx_bundle_root = "".into();
    assert_eq!(bundle_dir_for_quality(&worker, EncodeQuality::Standard), "encodec_48khz_6kbps");
    assert_ne!(
        bundle_dir_for_quality(&worker, EncodeQuality::Standard),
        bundle_dir_for_quality(&worker, EncodeQuality::Hq)
    );

    assert_eq!(
        execution_target_for_bundle(&worker, "/d").unwrap(),
        ExecutionTarget::Cuda { device_id: 3 }
    );
    assert_eq!(
        execution_target_for_bundle(&config(AppRole::Ingress), "/d").unwrap(),
        ExecutionTarget::Cpu
    );
    worker.encodec_execution_target = Some(" TensorRT ".into());
    assert_eq!(
        execution_target_for_bundle(&worker, "/d").unwrap(),
        ExecutionTarget::TensorRt {
            device_id: 3,
            fp16: false,
            engine_cache_path: Some("/d/.trt-cache/engines".into()),
            timing_cache_path: Some("/d/.trt-cache/timing.cache".into()),
        }
    );
    worker.encodec_execution_target = Some("TPU".into());
    assert_eq!(
        execution_target_for_bundle(&worker, "/d").unwrap_err().message(),
        "unsupported ENCODEC_EXECUTION_TARGET \"tpu\"; use cpu, cuda, gpu, or tensorrt"
    );
}

fn answer(router: &AppRouter, method: RequestMethod, path: &str) -> HandlerResponse {
    match router.route(method, path, None) {
        Routed::Respond(response) => response,
        Routed::Upload => panic!("not answered here"),
    }
}

fn body(response: &HandlerResponse) -> String {
    String::from_utf8(response.body.clone().unwrap()).unwrap()
}

#[test]
fn health_and_information_are_served() {
    let router = AppRouter::new(config(AppRole::Ingress), true, true, true);
    for path in ["/", "/health", "/healthz"] {
        let response = answer(&router, RequestMethod::Get, path);
        assert_eq!(response.status, 200);
        assert_eq!(body(&response), "{\"status\":\"ok\",\"service\":\"encodec-api\"}");
        assert_eq!(response.content_type, Some("application/json".to_string()));
        assert_eq!(response.headers, no_store());
        assert_eq!(answer(&router, RequestMethod::Head, path).status, 404);
    }
    assert_eq!(
        body(&answer(&router, RequestMethod::Get, "/status")),
        "{\"status\":\"ok\",\"service\":\"encodec-api\",\"role\":\"Ingress\",\"backend\":\"external-encodec\",\"execution_target\":\"cpu\"}"
    );
    assert_eq!(
        body(&answer(&router, RequestMethod::Get, "/info")),
        "{\"service\":\"encodec-api\",\"paths\":[\"/encode\",\"/encode/ecdc\",\"/encode/stream\"],\"transport\":\"upload-response\",\"streaming\":\"ndjson\",\"scale\":\"cpu-ingress/gpu-worker\",\"backend\":\"external-encodec\",\"execution_target\":\"cpu\"}"
    );
    let live = answer(&router, RequestMethod::Get, "/ha/live");
    assert_eq!(body(&live), "OK");
    assert_eq!(live.content_type, Some("text/plain".to_string()));
    let live = answer(&router, RequestMethod::Head, "/ha/live");
    assert_eq!((live.status, live.body, live.content_type), (200, None, None));
    let available = answer(&router, RequestMethod::Head, "/ha/available");
    assert_eq!((available.status, available.body), (204, None));
    assert_eq!(
        body(&answer(&router, RequestMethod::Get, "/ha/version")),
        "{\"sha\":\"dev\",\"role\":\"Ingress\"}"
    );
    match router.route(RequestMethod::Head, "/ha/version", Some("abc")) {
        Routed::Respond(response) => {
            assert_eq!(body(&response), "{\"sha\":\"abc\",\"role\":\"Ingress\"}")
        }
        Routed::Upload => panic!("not answered here"),
    }
}

#[test]
fn encodings_and_uploads_are_routed_where_they_are_run() {
    let router = AppRouter::new(config(AppRole::Ingress), true, true, true);
    for path in ["/encode", "/encode/ecdc", "/encode/stream"] {
        assert!(router.has_body_handler(path));
        assert_eq!(router.route_body(path), BodyRouted::Encode);
        assert_eq!(answer(&router, RequestMethod::Options, path).status, 204);
        assert_eq!(answer(&router, RequestMethod::Get, path).status, 404);
    }
    for path in ["/_upload_response/streams", "/_upload_response/streams/7/x"] {
        assert!(router.has_body_handler(path));
        assert_eq!(router.route_body(path), BodyRouted::Upload);
        assert_eq!(router.route(RequestMethod::Get, path, None), Routed::Upload);
    }
    assert!(!router.has_body_handler("/_upload_response/streamsx"));
    assert!(!router.has_body_handler("/encode/"));
    match router.route_body("/other") {
        BodyRouted::Respond(response) => {
            assert_eq!(response.status, 404);
            assert_eq!(body(&response), "{\"error\":\"not found\"}");
        }
        _ => panic!("found"),
    }
    assert!(router.has_body_stream_handler("/encode/stream"));
    assert!(!router.has_body_stream_handler("/encode"));
    assert!(router.is_streaming("/encode/stream"));
    assert!(router.route_body_stream("/encode/stream").is_ok());
    assert_eq!(
        router.route_body_stream("/encode").unwrap_err().message(),
        "streaming request/response is not supported for this route"
    );
    assert_eq!(router.route_stream().message(), "stream-only routes are not supported");
    assert!(router.websocket_handler("/encode/stream"));
    assert!(!router.websocket_handler("/encode"));
}

#[test]
fn paths_and_header_names_are_apart() {
    for path in ["/encode", "/encode/ecdc", "/encode/stream"] {
        assert!(is_encode_path(path) && !is_upload_path(path));
    }
    for path in ["/_upload_response/streams", "/_upload_response/streams/1"] {
        assert!(is_upload_path(path) && !is_encode_path(path));
    }
    let mut names = vec![
        CONTENT_LENGTH,
        CONTENT_TYPE,
        INTERNAL_QUALITY_HEADER,
        INTERNAL_TRACK_COUNT_HEADER,
        INTERNAL_GAP_SECONDS_HEADER,
        INTERNAL_TOTAL_GAP_SECONDS_HEADER,
        INTERNAL_DURATION_SECONDS_HEADER,
        INTERNAL_AUDIO_KEY_HEADER,
        INTERNAL_STREAMING_MODE_HEADER,
    ];
    for name in &names {
        assert_eq!(http::HeaderName::from_static(name).as_str(), *name);
    }
    names.sort();
    names.dedup();
    assert_eq!(names.len(), 9);
    assert_eq!(INTERNAL_STREAMING_MODE_JSONL, "jsonl");
}

#[test]
fn workers_take_nothing() {
    let router = AppRouter::new(config(AppRole::Worker), false, false, false);
    for path in ["/encode", "/encode/stream", "/_upload_response/streams"] {
        assert!(!router.has_body_handler(path));
        assert!(!router.has_body_stream_handler(path));
        assert!(!router.websocket_handler(path));
        assert!(matches!(router.route_body(path), BodyRouted::Respond(_)));
        for method in [RequestMethod::Get, RequestMethod::Options, RequestMethod::Other] {
            assert_eq!(answer(&router, method, path).status, 404);
        }
    }
    assert_eq!(
        router.route_body_stream("/encode/stream").unwrap_err().message(),
        "encode ingress not configured"
    );
}

fn steps(mut exchange: Exchange, outcomes: &[bool]) -> (Vec<ExchangeStep>, Option<EncodeError>) {
    let mut seen = Vec::new();
    for done in outcomes {
        seen.push(exchange.next_step());
        exchange = if *done {
            exchange.done()
        } else {
            exchange.failed(client_error("broken".to_string()))
        };
    }
    seen.push(exchange.next_step());
    (seen, exchange.into_error())
}

#[test]
fn open_requests_are_always_closed() {
    let begin = |transport: Transport| Exchange::begin(transport, &typed("text/plain"));
    let (seen, error) = steps(begin(Transport::Buffered), &[true, true, true, true]);
    assert_eq!(
        seen,
        vec![
            ExchangeStep::Open,
            ExchangeStep::Cache { direct: false },
            ExchangeStep::Relay,
            ExchangeStep::Close,
            ExchangeStep::Finish,
        ]
    );
    assert!(error.is_none());
    let (seen, error) = steps(begin(Transport::Streaming), &[true, false, true]);
    assert_eq!(
        seen,
        vec![
            ExchangeStep::Open,
            ExchangeStep::Cache { direct: false },
            ExchangeStep::Close,
            ExchangeStep::Finish,
        ]
    );
    assert_eq!(error.unwrap().message(), "broken");
    let (seen, _) = steps(begin(Transport::Websocket), &[true, true, true, true, false, true]);
    assert_eq!(
        seen,
        vec![
            ExchangeStep::Receive,
            ExchangeStep::Prepare,
            ExchangeStep::Open,
            ExchangeStep::Cache { direct: false },
            ExchangeStep::Relay,
            ExchangeStep::Close,
            ExchangeStep::Finish,
        ]
    );
    for outcomes in [vec![false], vec![true, false], vec![true, true, false]] {
        let (seen, error) = steps(begin(Transport::Websocket), &outcomes);
        assert_eq!(seen.last(), Some(&ExchangeStep::Finish));
        assert!(!seen.contains(&ExchangeStep::Close));
        assert!(error.is_some());
    }
}

#[test]
fn exchanges_begin_as_the_head_says() {
    let direct = Exchange::begin(Transport::Streaming, &typed("audio/wav"));
    let (seen, _) = steps(direct, &[true]);
    assert_eq!(seen[1], ExchangeStep::Cache { direct: true });
    let messages = Exchange::begin(Transport::Websocket, &typed("audio/wav"));
    let (seen, _) = steps(messages, &[true, true, true]);
    assert_eq!(seen[3], ExchangeStep::Cache { direct: false });
    for transport in [Transport::Buffered, Transport::Streaming, Transport::Websocket] {
        let refused = Exchange::begin(transport, &typed("application/json"));
        assert_eq!(refused.next_step(), ExchangeStep::Finish);
        let error = refused.into_error().unwrap();
        assert_eq!(classify_error(&error), 400);
    }
}

#[test]
fn failures_are_answered_with_whose_fault_they_are() {
    let error = client_error("bad \"thing\"\n".to_string());
    assert!(is_client_error(&error));
    assert!(matches!(error, EncodeError::Client(ClientError(_))));
    let response = failure_response(&error);
    assert_eq!(response.status, 400);
    assert_eq!(body(&response), "{\"error\":\"bad \\\"thing\\\"\\n\"}");
    assert_eq!(response.content_type, Some("application/json".to_string()));
    assert_eq!(response.headers, no_store());
    let from_worker = encodec_api::worker::failure_response(&error);
    assert_eq!(from_worker, response);
    let response = failure_response(&missing_request(17));
    assert_eq!(response.status, 500);
    assert_eq!(body(&response), "{\"error\":\"request headers missing for stream 17\"}");
}

#[test]
fn messages_make_an_upload() {
    let mut upload = Vec::new();
    let mut receive = |frame: ClientFrame| receive_frame(&mut upload, frame);
    assert_eq!(receive(ClientFrame::Binary(b"ab".to_vec())), Ok(false));
    assert_eq!(receive(ClientFrame::Event(Some("KeepAlive".into()))), Ok(false));
    assert_eq!(receive(ClientFrame::Event(None)), Ok(false));
    assert_eq!(receive(ClientFrame::Other), Ok(false));
    assert_eq!(receive(ClientFrame::Binary(b"c".to_vec())), Ok(false));
    assert_eq!(receive(ClientFrame::Event(Some("Finalize".into()))), Ok(true));
    assert_eq!(receive(ClientFrame::Event(Some("CloseStream".into()))), Ok(true));
    assert_eq!(receive(ClientFrame::Close), Ok(true));
    assert_eq!(
        receive(ClientFrame::Failed("reset".into())).unwrap_err().message(),
        "websocket receive failed: reset"
    );
    assert_eq!(upload, b"abc".to_vec());

    let mut collected = Vec::new();
    assert!(collect_chunk(&mut collected, Ok(b"x".to_vec())).is_ok());
    assert!(collect_chunk(&mut collected, Ok(vec![])).is_ok());
    assert_eq!(
        collect_chunk(&mut collected, Err("reset".into())).unwrap_err().message(),
        "failed to read request body: reset"
    );
    assert_eq!(collected, b"x".to_vec());
}

#[test]
fn uploads_that_are_decoded_directly_are_counted() {
    let upload = DirectUpload::new();
    let (upload, feed) = upload.on_chunk(Ok(vec![]));
    assert_eq!(feed, Ok(None));
    let (upload, feed) = upload.on_chunk(Ok(vec![1, 2]));
    assert_eq!(feed, Ok(Some(vec![1, 2])));
    assert_eq!(
        upload.complete().unwrap_err().message(),
        "request body did not include decodable audio"
    );
    let (upload, counted) = upload.on_output(Ok(8));
    assert!(counted.is_ok());
    let (upload, failed) = upload.on_output(Err("noise".into()));
    assert_eq!(failed.unwrap_err().message(), "audio decode failed: noise");
    let (upload, failed) = upload.on_chunk(Err("reset".into()));
    assert_eq!(failed.unwrap_err().message(), "failed to read request body: reset");
    assert_eq!(upload.upload_bytes(), 2);
    assert_eq!(upload.decoded_body_bytes(), 8);
    assert!(upload.complete().is_ok());
    assert_eq!(upload.on_reply(DecoderReply::Taken), Ok(DecoderStep::Continue));
    assert_eq!(upload.on_reply(DecoderReply::Full), Ok(DecoderStep::Retry));
    assert_eq!(
        upload.on_reply(DecoderReply::Failed("gone".into())).unwrap_err().message(),
        "decoder input failed: gone"
    );
    let metadata = direct_metadata(EncodeQuality::Hq, seconds(2.0), true);
    assert_eq!((metadata.sample_rate, metadata.channels, metadata.bits_per_sample), (48_000, 2, 16));
    assert_eq!(metadata.track_count, 1);
    assert_eq!(metadata.gap_seconds, seconds(2.0));
    assert_eq!(metadata.total_gap_seconds, seconds(0.0));
    assert_eq!((metadata.duration_seconds, metadata.audio_key), (None, None));
    assert!(metadata.streaming);
}

#[test]
fn encodings_are_answered_by_path() {
    let artifacts = EncodeArtifacts {
        ecdc: vec![1, 2, 3],
        png: vec![9],
        png_side: 1,
        device_label: "gpu-x".into(),
        duration_seconds: seconds(1.0),
        quality: EncodeQuality::Hq,
        audio_key: "k".into(),
        track_count: 1,
        gap_seconds: seconds(1.5),
        total_gap_seconds: seconds(0.0),
    };
    let response = encode_response("/encode/ecdc", artifacts.clone());
    assert_eq!(response.status, 200);
    assert_eq!(response.body, Some(vec![1, 2, 3]));
    assert_eq!(response.content_type, Some("application/octet-stream".to_string()));
    assert_eq!(response.headers.len(), 18);
    assert_eq!(
        response.headers[17],
        (
            "content-disposition".to_string(),
            "attachment; filename=\"output.ecdc\"".to_string()
        )
    );
    let response = encode_response("/encode", artifacts);
    assert_eq!(response.body, Some(vec![9]));
    assert_eq!(response.content_type, Some("image/png".to_string()));
    assert_eq!(response.headers.len(), 17);
    assert_eq!(response.etag, None);
}

#[test]
fn a_context_leaves_who_is_at_fault() {
    let error = client_error("bad".to_string()).context("cannot read the request");
    assert!(is_client_error(&error));
    assert_eq!(error.message(), "cannot read the request");
    let error = EncodeError::Internal("bad".to_string()).context("encodec worker task panicked");
    assert!(!is_client_error(&error));
    assert_eq!(error.message(), "encodec worker task panicked");
}
