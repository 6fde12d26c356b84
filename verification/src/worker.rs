//! The worker: how it fetches requests, what it answers, and what it streams.

use crate::config::{config_fault, finds_ingresses, AppConfig};
use crate::error::{internal_error, EncodeError};
use crate::events::{event_line, is_line_content, line_of};
use crate::headers::string_view;
use crate::ingress::at_least_one;
use crate::json::{json_bytes, json_of, json_string, json_string_form};
use crate::picture::{response_headers, response_lines, ArtifactsView, EncodeArtifacts};
use crate::response::{
    bytes_of, classify_error, json_bytes_response, json_response_of, status_of, unstored,
    unstored_response, HandlerResponse, ResponseView,
};
use crate::text::{
    contains_text, decimal, decimal_text, lemma_contains_middle, pair_views, same_text,
};
use vstd::prelude::*;
use vstd::utf8::*;

verus! {

// ---------------------------------------------------------------------------------------
// Settings
// ---------------------------------------------------------------------------------------

/// A worker.
#[derive(Clone, Debug, PartialEq, Eq)]
pub struct WorkerState {
    config: AppConfig,
}

/// How a worker fetches requests.
#[derive(Clone, Debug, PartialEq, Eq)]
pub struct RemoteWorkerConfig {
    pub worker_id: String,
    pub heartbeat_stage: String,
    pub max_inflight: usize,
    pub poll_interval_ms: u64,
    pub discovery_interval_ms: u64,
    pub ingress_urls: Vec<String>,
    pub discovery_dns: Option<String>,
}

/// Texts.
pub open spec fn text_views(texts: Seq<String>) -> Seq<Seq<char>> {
    Seq::new(texts.len(), |i: int| texts[i]@)
}

fn copied_texts(texts: &Vec<String>) -> (copy: Vec<String>)
    ensures
        text_views(copy@) == text_views(texts@),
{
    let mut copy: Vec<String> = Vec::new();
    let total: usize = texts.len();
    let mut at: usize = 0;
    while at < total
        invariant
            at <= total,
            total == texts@.len(),
            copy@.len() == at,
            forall|i: int| 0 <= i < at ==> (#[trigger] copy@[i])@ == texts@[i]@,
        decreases total - at,
    {
        copy.push(texts[at].clone());
        at = at + 1;
    }
    assert(text_views(copy@) =~= text_views(texts@));
    copy
}

fn floor_one(number: u64) -> (floored: u64)
    ensures
        floored == at_least_one(number as int),
{
    if number < 1 {
        1
    } else {
        number
    }
}

impl WorkerState {
    /// The configuration of the worker.
    pub closed spec fn configured(self) -> AppConfig {
        self.config
    }

    /// A worker with a configuration.
    pub fn new(config: AppConfig) -> (worker: Self)
        ensures
            worker.configured() == config,
    {
        WorkerState { config }
    }

    /// The configuration of the worker.
    pub fn config(&self) -> (config: &AppConfig)
        ensures
            *config == self.configured(),
    {
        &self.config
    }

    /// How the worker fetches requests.
    pub fn remote_worker_config(&self) -> (settings: RemoteWorkerConfig)
        ensures
            settings.worker_id@ == self.configured().upload_response_worker_id@,
            settings.heartbeat_stage@ == "response"@,
            settings.max_inflight == self.configured().upload_response_max_inflight,
            settings.poll_interval_ms == at_least_one(
                self.configured().upload_response_worker_poll_ms as int,
            ),
            settings.discovery_interval_ms == at_least_one(
                self.configured().upload_response_discovery_interval_ms as int,
            ),
            text_views(settings.ingress_urls@) == text_views(
                self.configured().upload_response_ingress_urls@,
            ),
            string_view(settings.discovery_dns) == string_view(
                self.configured().upload_response_discovery_dns,
            ),
    {
        let discovery_dns: Option<String> = match &self.config.upload_response_discovery_dns {
            Some(name) => Some(name.clone()),
            None => None,
        };
        RemoteWorkerConfig {
            worker_id: self.config.upload_response_worker_id.clone(),
            heartbeat_stage: "response".to_owned(),
            max_inflight: self.config.upload_response_max_inflight,
            poll_interval_ms: floor_one(self.config.upload_response_worker_poll_ms),
            discovery_interval_ms: floor_one(self.config.upload_response_discovery_interval_ms),
            ingress_urls: copied_texts(&self.config.upload_response_ingress_urls),
            discovery_dns,
        }
    }

    /// How often the worker asks for more of an upload, in milliseconds.
    pub fn upload_poll_ms(&self) -> (interval: u64)
        ensures
            interval == at_least_one(self.configured().upload_response_worker_poll_ms as int),
    {
        floor_one(self.config.upload_response_worker_poll_ms)
    }
}

/// A configuration that is accepted is used as it is: no interval in it is too short, and a
/// worker takes at least one request at a time.
pub proof fn accepted_intervals_are_kept(config: AppConfig)
    requires
        config_fault(config) is None,
    ensures
        at_least_one(config.upload_response_worker_poll_ms as int)
            == config.upload_response_worker_poll_ms,
        at_least_one(config.upload_response_discovery_interval_ms as int)
            == config.upload_response_discovery_interval_ms,
        at_least_one(config.upload_response_watch_poll_ms as int)
            == config.upload_response_watch_poll_ms,
        config.upload_response_max_inflight > 0,
        config.role is Worker ==> finds_ingresses(config),
{
}

// ---------------------------------------------------------------------------------------
// Answers as a whole
// ---------------------------------------------------------------------------------------

/// The request of a job is not there.
pub fn missing_request(stream_id: u64) -> (error: EncodeError)
    ensures
        error.is_internal("request headers missing for stream "@ + decimal(stream_id as nat)),
{
    let message = "request headers missing for stream ".to_owned().concat(
        decimal_text(stream_id).as_str(),
    );
    internal_error(message.as_str())
}

/// The answer to a request for an encoding that is not streamed: the encoded audio as a
/// file, where the path asks for it, and else the picture.
pub open spec fn encoded_response(path: Seq<char>, artifacts: ArtifactsView) -> ResponseView {
    if path == "/encode/ecdc"@ {
        ResponseView {
            status: 200,
            body: Some(artifacts.ecdc),
            content_type: Some("application/octet-stream"@),
            headers: response_lines(artifacts).push(
                ("content-disposition"@, "attachment; filename=\"output.ecdc\""@),
            ),
            etag: None,
        }
    } else {
        ResponseView {
            status: 200,
            body: Some(artifacts.png),
            content_type: Some("image/png"@),
            headers: response_lines(artifacts),
            etag: None,
        }
    }
}

/// The answer to a request for an encoding that is not streamed.
pub fn encode_response(path: &str, artifacts: EncodeArtifacts) -> (response: HandlerResponse)
    ensures
        response@ == encoded_response(path@, artifacts@),
{
    let headers = response_headers(&artifacts);
    if same_text(path, "/encode/ecdc") {
        let mut headers = headers;
        let ghost before = headers@;
        headers.push(
            (
                "content-disposition".to_owned(),
                "attachment; filename=\"output.ecdc\"".to_owned(),
            ),
        );
        assert(pair_views(headers@) =~= pair_views(before).push(
            ("content-disposition"@, "attachment; filename=\"output.ecdc\""@),
        ));
        HandlerResponse {
            status: 200,
            body: Some(artifacts.ecdc),
            content_type: Some("application/octet-stream".to_owned()),
            headers,
            etag: None,
        }
    } else {
        HandlerResponse {
            status: 200,
            body: Some(artifacts.png),
            content_type: Some("image/png".to_owned()),
            headers,
            etag: None,
        }
    }
}

/// The body of an answer to a request that failed.
pub open spec fn error_text(message: Seq<char>) -> Seq<char> {
    "{\"error\":"@ + json_string_form(message) + "}"@
}

/// The answer to a request that failed.
pub fn error_response(status: u16, message: &str) -> (response: HandlerResponse)
    ensures
        response@ == json_response_of(status, encode_utf8(error_text(message@))),
{
    let form: String = match json_string(message) {
        Ok(form) => form,
        Err(_) => "\"internal error\"".to_owned(),
    };
    let body = "{\"error\":".to_owned().concat(form.as_str()).concat("}");
    json_bytes_response(status, bytes_of(body.as_str()))
}

/// The answer to a request that failed: its status says whose fault it is.
pub fn failure_response(error: &EncodeError) -> (response: HandlerResponse)
    ensures
        response@ == json_response_of(status_of(*error), encode_utf8(error_text(error.text()))),
{
    error_response(classify_error(error), error.message())
}

// ---------------------------------------------------------------------------------------
// Streamed answers
// ---------------------------------------------------------------------------------------

/// The head of a streamed answer.
pub open spec fn stream_head() -> ResponseView {
    unstored(200, None, Some("application/x-ndjson; charset=utf-8"@))
}

/// What is to be written for an event, in order.
#[derive(Debug)]
pub struct LineStep {
    /// The head of the answer, where it was not written before.
    pub head: Option<HandlerResponse>,
    /// The line of the event.
    pub line: Vec<u8>,
}

/// A streamed answer in the making: a head, and lines of events.
#[derive(Debug)]
pub struct JsonLineWriter {
    started: bool,
    finished: bool,
}

impl JsonLineWriter {
    /// Whether the head was written.
    pub closed spec fn has_head(self) -> bool {
        self.started
    }

    /// Whether the answer is complete.
    pub closed spec fn is_complete(self) -> bool {
        self.finished
    }

    /// An answer of which nothing was written.
    pub fn new() -> (writer: Self)
        ensures
            !writer.has_head(),
            !writer.is_complete(),
    {
        JsonLineWriter { started: false, finished: false }
    }

    /// The head of the answer, where it was not written before.
    pub fn pending_head(&self) -> (head: Option<HandlerResponse>)
        ensures
            match head {
                Some(response) => !self.has_head() && response@ == stream_head(),
                None => self.has_head(),
            },
    {
        if self.started {
            None
        } else {
            Some(
                unstored_response(
                    200,
                    None,
                    Some("application/x-ndjson; charset=utf-8".to_owned()),
                ),
            )
        }
    }

    /// The head was written.
    pub fn head_written(self) -> (writer: Self)
        ensures
            writer.has_head(),
            writer.is_complete() == self.is_complete(),
    {
        JsonLineWriter { started: true, finished: self.finished }
    }

    /// What is to be written for an event.
    pub fn on_event(&self, event: &serde_json::Value) -> (step: Result<LineStep, EncodeError>)
        ensures
            step is Ok,
            step->Ok_0.line@ == line_of(json_of(*event)),
            is_line_content(json_bytes(json_of(*event))),
            match step->Ok_0.head {
                Some(response) => !self.has_head() && response@ == stream_head(),
                None => self.has_head(),
            },
    {
        match event_line(event) {
            Ok(line) => Ok(LineStep { head: self.pending_head(), line }),
            Err(error) => Err(error),
        }
    }

    /// Whether the answer still has to be finished.
    pub fn needs_finish(&self) -> (yes: bool)
        ensures
            yes == !self.is_complete(),
    {
        !self.finished
    }

    /// The answer was finished.
    pub fn finish_written(self) -> (writer: Self)
        ensures
            writer.is_complete(),
            writer.has_head() == self.has_head(),
    {
        JsonLineWriter { started: self.started, finished: true }
    }
}

/// An answer carries what its path asks for: the encoded audio, as it is, at the path for it,
/// with a name to save it under, and the picture everywhere else. Both tell every header line of
/// the encoding, and neither is an error.
pub proof fn answers_carry_what_was_asked_for(path: Seq<char>, artifacts: ArtifactsView)
    ensures
        ({
            let response = encoded_response(path, artifacts);
            &&& response.status == 200
            &&& path == "/encode/ecdc"@ ==> response.body == Some(artifacts.ecdc)
            &&& path == "/encode/ecdc"@ ==> response.content_type == Some(
                "application/octet-stream"@,
            )
            &&& path != "/encode/ecdc"@ ==> response.body == Some(artifacts.png)
            &&& path != "/encode/ecdc"@ ==> response.content_type == Some("image/png"@)
            &&& response_lines(artifacts).is_prefix_of(response.headers)
            &&& path != "/encode/ecdc"@ ==> response.headers == response_lines(artifacts)
            &&& path == "/encode/ecdc"@ ==> response.headers.last().0 == "content-disposition"@
        }),
{
    let lines = response_lines(artifacts);
    let response = encoded_response(path, artifacts);
    assert(response.headers.subrange(0, lines.len() as int) =~= lines);
}

/// What a client is told of a failure is the message, written as a JSON string, as the one
/// member of an object.
pub proof fn failures_are_told_in_json(message: Seq<char>)
    ensures
        contains_text(error_text(message), json_string_form(message)),
        "{\"error\":"@.is_prefix_of(error_text(message)),
        error_text(message).len() == json_string_form(message).len() + 10,
        error_text(message).last() == '}',
{
    let start = "{\"error\":"@;
    let end = "}"@;
    reveal_strlit("{\"error\":");
    reveal_strlit("}");
    lemma_contains_middle(start, json_string_form(message), end);
    assert(error_text(message).subrange(0, start.len() as int) =~= start);
}

/// A streamed answer is one that a relay passes on line by line: its head says so in its type.
/// It is no error, it has no body of its own, and it is not to be stored.
pub proof fn streamed_answers_are_relayed_by_lines()
    ensures
        stream_head().status == 200,
        stream_head().body is None,
        stream_head().content_type is Some,
        contains_text(stream_head().content_type->Some_0, "ndjson"@),
        stream_head().headers == seq![("cache-control"@, "no-store"@)],
        stream_head().etag is None,
{
    reveal_strlit("application/x-ndjson; charset=utf-8");
    reveal_strlit("ndjson");
    let content_type = "application/x-ndjson; charset=utf-8"@;
    assert(content_type.subrange(14, 14int + "ndjson"@.len()) =~= "ndjson"@);
}

} // verus!
