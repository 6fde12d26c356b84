//! Routes: which part of the service answers a request.

use crate::config::{target_label, AppConfig};
use crate::error::{internal_error, EncodeError};
use crate::headers::text_view;
use crate::response::{
    bytes_of, json_bytes_response, json_response_of, unstored, unstored_response, HandlerResponse,
    ResponseView,
};
use crate::text::{contains_text, lemma_contains_middle, same_text, starts_with};
use vstd::prelude::*;
use vstd::utf8::*;

verus! {

/// The method of a request, as far as routes go by it.
#[derive(Clone, Copy, Debug, PartialEq, Eq, Structural)]
pub enum RequestMethod {
    Get,
    Head,
    Options,
    Other,
}

/// Who answers a request without a body.
#[derive(Clone, Debug, PartialEq, Eq)]
pub enum Routed {
    /// This is the answer.
    Respond(HandlerResponse),
    /// The routes of the upload cache.
    Upload,
}

/// Who answers a request without a body.
pub enum RoutedView {
    Respond(ResponseView),
    Upload,
}

impl View for Routed {
    type V = RoutedView;

    open spec fn view(&self) -> RoutedView {
        match self {
            Routed::Respond(response) => RoutedView::Respond(response@),
            Routed::Upload => RoutedView::Upload,
        }
    }
}

/// Who answers a request with a body.
#[derive(Clone, Debug, PartialEq, Eq)]
pub enum BodyRouted {
    /// This is the answer.
    Respond(HandlerResponse),
    /// The intake of requests for encodings.
    Encode,
    /// The routes of the upload cache.
    Upload,
}

/// Whether a path is one of the upload cache.
pub open spec fn leads_to_upload(path: Seq<char>) -> bool {
    path == "/_upload_response/streams"@ || "/_upload_response/streams/"@.is_prefix_of(path)
}

/// Whether a path is one of encodings.
pub open spec fn leads_to_encode(path: Seq<char>) -> bool {
    path == "/encode"@ || path == "/encode/ecdc"@ || path == "/encode/stream"@
}

/// Whether a path is one of the upload cache.
pub fn is_upload_path(path: &str) -> (yes: bool)
    ensures
        yes == leads_to_upload(path@),
{
    same_text(path, "/_upload_response/streams") || starts_with(
        path,
        "/_upload_response/streams/",
    )
}

/// Whether a path is one of encodings.
pub fn is_encode_path(path: &str) -> (yes: bool)
    ensures
        yes == leads_to_encode(path@),
{
    same_text(path, "/encode") || same_text(path, "/encode/ecdc") || same_text(
        path,
        "/encode/stream",
    )
}

/// Whether a websocket can be opened at a path.
pub fn can_handle(path: &str) -> (yes: bool)
    ensures
        yes == (path@ == "/encode/stream"@),
{
    same_text(path, "/encode/stream")
}

/// A response of JSON.
pub fn json_response(body: String) -> (response: HandlerResponse)
    ensures
        response@ == json_response_of(200, encode_utf8(body@)),
{
    json_bytes_response(200, bytes_of(body.as_str()))
}

/// A response that says no more than that all is well.
pub fn no_content() -> (response: HandlerResponse)
    ensures
        response@ == unstored(204, None, None),
{
    unstored_response(204, None, None)
}

/// There is nothing at a path.
pub open spec fn not_found_response() -> ResponseView {
    json_response_of(404, encode_utf8("{\"error\":\"not found\"}"@))
}

/// There is nothing at a path.
pub fn not_found() -> (response: HandlerResponse)
    ensures
        response@ == not_found_response(),
{
    json_bytes_response(404, bytes_of("{\"error\":\"not found\"}"))
}

/// What the service says of its state.
pub open spec fn status_text(config: AppConfig) -> Seq<char> {
    "{\"status\":\"ok\",\"service\":\"encodec-api\",\"role\":\""@ + config.role.word()
        + "\",\"backend\":\""@ + config.encodec_backend@ + "\",\"execution_target\":\""@
        + target_label(config) + "\"}"@
}

/// What the service says of itself.
pub open spec fn info_text(config: AppConfig) -> Seq<char> {
    "{\"service\":\"encodec-api\",\"paths\":[\"/encode\",\"/encode/ecdc\",\"/encode/stream\"],\"transport\":\"upload-response\",\"streaming\":\"ndjson\",\"scale\":\"cpu-ingress/gpu-worker\",\"backend\":\""@
        + config.encodec_backend@ + "\",\"execution_target\":\""@ + target_label(config) + "\"}"@
}

/// What the service says of its version.
pub open spec fn version_text(config: AppConfig, sha: Option<Seq<char>>) -> Seq<char> {
    let version = match sha {
        Some(sha) => sha,
        None => "dev"@,
    };
    "{\"sha\":\""@ + version + "\",\"role\":\""@ + config.role.word() + "\"}"@
}

fn status_body(config: &AppConfig) -> (body: String)
    ensures
        body@ == status_text(*config),
{
    "{\"status\":\"ok\",\"service\":\"encodec-api\",\"role\":\"".to_owned().concat(
        config.role.name(),
    ).concat("\",\"backend\":\"").concat(config.encodec_backend_label()).concat(
        "\",\"execution_target\":\"",
    ).concat(config.execution_target_label()).concat("\"}")
}

fn info_body(config: &AppConfig) -> (body: String)
    ensures
        body@ == info_text(*config),
{
    "{\"service\":\"encodec-api\",\"paths\":[\"/encode\",\"/encode/ecdc\",\"/encode/stream\"],\"transport\":\"upload-response\",\"streaming\":\"ndjson\",\"scale\":\"cpu-ingress/gpu-worker\",\"backend\":\"".to_owned().concat(
    config.encodec_backend_label()).concat("\",\"execution_target\":\"").concat(
        config.execution_target_label(),
    ).concat("\"}")
}

fn version_body(config: &AppConfig, sha: Option<&str>) -> (body: String)
    ensures
        body@ == version_text(*config, text_view(sha)),
{
    let version: &str = match sha {
        Some(sha) => sha,
        None => "dev",
    };
    "{\"sha\":\"".to_owned().concat(version).concat("\",\"role\":\"").concat(
        config.role.name(),
    ).concat("\"}")
}

/// The routes of a process of the service.
#[derive(Clone, Debug, PartialEq, Eq)]
pub struct AppRouter {
    config: AppConfig,
    upload: bool,
    encode: bool,
    encode_ws: bool,
}

impl AppRouter {
    /// The configuration.
    pub closed spec fn configured(self) -> AppConfig {
        self.config
    }

    /// Whether there is an upload cache.
    pub closed spec fn has_upload(self) -> bool {
        self.upload
    }

    /// Whether requests for encodings are taken.
    pub closed spec fn has_encode(self) -> bool {
        self.encode
    }

    /// Whether requests for encodings are taken over websockets.
    pub closed spec fn has_encode_ws(self) -> bool {
        self.encode_ws
    }

    /// The routes of a process that runs the given parts of the service.
    pub fn new(config: AppConfig, upload: bool, encode: bool, encode_ws: bool) -> (router: Self)
        ensures
            router.configured() == config,
            router.has_upload() == upload,
            router.has_encode() == encode,
            router.has_encode_ws() == encode_ws,
    {
        AppRouter { config, upload, encode, encode_ws }
    }

    /// Who answers a request without a body. `sha` names the version of the service.
    pub open spec fn routed(
        self,
        method: RequestMethod,
        path: Seq<char>,
        sha: Option<Seq<char>>,
    ) -> RoutedView {
        let get = method == RequestMethod::Get;
        let look = get || method == RequestMethod::Head;
        if get && (path == "/"@ || path == "/health"@ || path == "/healthz"@) {
            RoutedView::Respond(
                json_response_of(
                    200,
                    encode_utf8("{\"status\":\"ok\",\"service\":\"encodec-api\"}"@),
                ),
            )
        } else if get && path == "/status"@ {
            RoutedView::Respond(
                json_response_of(200, encode_utf8(status_text(self.configured()))),
            )
        } else if get && path == "/info"@ {
            RoutedView::Respond(json_response_of(200, encode_utf8(info_text(self.configured()))))
        } else if look && path == "/ha/live"@ {
            if get {
                RoutedView::Respond(unstored(200, Some(encode_utf8("OK"@)), Some("text/plain"@)))
            } else {
                RoutedView::Respond(unstored(200, None, None))
            }
        } else if look && path == "/ha/available"@ {
            RoutedView::Respond(unstored(204, None, None))
        } else if look && path == "/ha/version"@ {
            RoutedView::Respond(
                json_response_of(200, encode_utf8(version_text(self.configured(), sha))),
            )
        } else if method == RequestMethod::Options && leads_to_encode(path) && self.has_encode() {
            RoutedView::Respond(unstored(204, None, None))
        } else if leads_to_upload(path) && self.has_upload() {
            RoutedView::Upload
        } else {
            RoutedView::Respond(not_found_response())
        }
    }

    /// Who answers a request without a body. `sha` names the version of the service.
    pub fn route(&self, method: RequestMethod, path: &str, sha: Option<&str>) -> (routed: Routed)
        ensures
            routed@ == self.routed(method, path@, text_view(sha)),
    {
        let get = method == RequestMethod::Get;
        let look = get || method == RequestMethod::Head;
        if get && (same_text(path, "/") || same_text(path, "/health") || same_text(
            path,
            "/healthz",
        )) {
            Routed::Respond(
                json_response("{\"status\":\"ok\",\"service\":\"encodec-api\"}".to_owned()),
            )
        } else if get && same_text(path, "/status") {
            Routed::Respond(json_response(status_body(&self.config)))
        } else if get && same_text(path, "/info") {
            Routed::Respond(json_response(info_body(&self.config)))
        } else if look && same_text(path, "/ha/live") {
            if get {
                Routed::Respond(
                    unstored_response(200, Some(bytes_of("OK")), Some("text/plain".to_owned())),
                )
            } else {
                Routed::Respond(unstored_response(200, None, None))
            }
        } else if look && same_text(path, "/ha/available") {
            Routed::Respond(no_content())
        } else if look && same_text(path, "/ha/version") {
            Routed::Respond(json_response(version_body(&self.config, sha)))
        } else if method == RequestMethod::Options && is_encode_path(path) && self.encode {
            Routed::Respond(no_content())
        } else if is_upload_path(path) && self.upload {
            Routed::Upload
        } else {
            Routed::Respond(not_found())
        }
    }

    /// Who answers a request with a body.
    pub fn route_body(&self, path: &str) -> (routed: BodyRouted)
        ensures
            if leads_to_encode(path@) && self.has_encode() {
                routed is Encode
            } else if leads_to_upload(path@) && self.has_upload() {
                routed is Upload
            } else {
                routed matches BodyRouted::Respond(response) && response@ == not_found_response()
            },
    {
        proof {
            paths_are_apart(path@);
        }
        if is_encode_path(path) {
            if self.encode {
                BodyRouted::Encode
            } else {
                BodyRouted::Respond(not_found())
            }
        } else if is_upload_path(path) {
            if self.upload {
                BodyRouted::Upload
            } else {
                BodyRouted::Respond(not_found())
            }
        } else {
            BodyRouted::Respond(not_found())
        }
    }

    /// Whether requests with a body are taken at a path.
    pub open spec fn takes_body(self, path: Seq<char>) -> bool {
        (self.has_encode() && leads_to_encode(path)) || (self.has_upload() && leads_to_upload(path))
    }

    /// Whether requests with a body are taken at a path.
    pub fn has_body_handler(&self, path: &str) -> (yes: bool)
        ensures
            yes == self.takes_body(path@),
    {
        (self.encode && is_encode_path(path)) || (self.upload && is_upload_path(path))
    }

    /// Whether a request that is still coming in is answered at a path.
    pub open spec fn takes_stream(self, path: Seq<char>) -> bool {
        self.has_encode() && path == "/encode/stream"@
    }

    /// Whether a request that is still coming in is answered at a path.
    pub fn has_body_stream_handler(&self, path: &str) -> (yes: bool)
        ensures
            yes == self.takes_stream(path@),
    {
        self.encode && same_text(path, "/encode/stream")
    }

    /// Whether the response at a path is streamed.
    pub fn is_streaming(&self, path: &str) -> (yes: bool)
        ensures
            yes == (path@ == "/encode/stream"@),
    {
        same_text(path, "/encode/stream")
    }

    /// Whether the intake of requests for encodings answers a request while it is still
    /// coming in, or why nobody does.
    pub fn route_body_stream(&self, path: &str) -> (routed: Result<(), EncodeError>)
        ensures
            if self.takes_stream(path@) {
                routed is Ok
            } else if path@ == "/encode/stream"@ {
                routed matches Err(error) && error.is_internal("encode ingress not configured"@)
            } else {
                routed matches Err(error) && error.is_internal(
                    "streaming request/response is not supported for this route"@,
                )
            },
    {
        if same_text(path, "/encode/stream") {
            if self.encode {
                Ok(())
            } else {
                Err(internal_error("encode ingress not configured"))
            }
        } else {
            Err(internal_error("streaming request/response is not supported for this route"))
        }
    }

    /// Nobody streams an answer to a request without a body.
    pub fn route_stream(&self) -> (error: EncodeError)
        ensures
            error.is_internal("stream-only routes are not supported"@),
    {
        internal_error("stream-only routes are not supported")
    }

    /// Whether a websocket can be opened at a path.
    pub fn websocket_handler(&self, path: &str) -> (yes: bool)
        ensures
            yes == (self.has_encode_ws() && path@ == "/encode/stream"@),
    {
        self.encode_ws && can_handle(path)
    }

    /// Whatever request is answered while it is still coming in is also one whose body is
    /// taken, and it comes to a path of encodings.
    pub proof fn streams_are_bodies(self, path: Seq<char>)
        ensures
            self.takes_stream(path) ==> self.takes_body(path) && leads_to_encode(path),
    {
    }

    /// A process that runs neither an upload cache nor an intake takes no body at all, and
    /// nothing is found at their paths.
    pub proof fn idle_routers_take_nothing(
        self,
        method: RequestMethod,
        path: Seq<char>,
        sha: Option<Seq<char>>,
    )
        requires
            !self.has_upload(),
            !self.has_encode(),
        ensures
            !self.takes_body(path),
            !self.takes_stream(path),
            leads_to_upload(path) || leads_to_encode(path) ==> self.routed(method, path, sha)
                == RoutedView::Respond(not_found_response()),
    {
        reveal_strlit("/");
        reveal_strlit("/health");
        reveal_strlit("/healthz");
        reveal_strlit("/status");
        reveal_strlit("/info");
        reveal_strlit("/ha/live");
        reveal_strlit("/ha/available");
        reveal_strlit("/ha/version");
        reveal_strlit("/encode");
        reveal_strlit("/encode/ecdc");
        reveal_strlit("/encode/stream");
        reveal_strlit("/_upload_response/streams");
        reveal_strlit("/_upload_response/streams/");
        if leads_to_upload(path) {
            assert(path.len() >= 25);
        }
        if leads_to_encode(path) {
            assert(path[1] == 'e');
        }
    }
}

/// No path is both one of encodings and one of the upload cache.
pub proof fn paths_are_apart(path: Seq<char>)
    ensures
        !(leads_to_encode(path) && leads_to_upload(path)),
{
    reveal_strlit("/encode");
    reveal_strlit("/encode/ecdc");
    reveal_strlit("/encode/stream");
    reveal_strlit("/_upload_response/streams");
    reveal_strlit("/_upload_response/streams/");
    if leads_to_upload(path) {
        assert(path.len() >= 25);
    }
}

/// The state of the service is told with its role, what makes encodings, and where.
pub proof fn states_are_told(config: AppConfig)
    ensures
        contains_text(status_text(config), config.role.word()),
        contains_text(status_text(config), config.encodec_backend@),
        contains_text(status_text(config), target_label(config)),
        contains_text(info_text(config), config.encodec_backend@),
        contains_text(info_text(config), target_label(config)),
{
    let service = "{\"status\":\"ok\",\"service\":\"encodec-api\",\"role\":\""@;
    let role = config.role.word();
    let backend = config.encodec_backend@;
    let place = target_label(config);
    let before_backend = "\",\"backend\":\""@;
    let before_place = "\",\"execution_target\":\""@;
    let end = "\"}"@;
    let status = status_text(config);
    lemma_contains_middle(service, role, before_backend + backend + before_place + place + end);
    assert(status =~= service + role + (before_backend + backend + before_place + place + end));
    lemma_contains_middle(service + role + before_backend, backend, before_place + place + end);
    assert(status =~= (service + role + before_backend) + backend + (before_place + place + end));
    lemma_contains_middle(service + role + before_backend + backend + before_place, place, end);
    assert(status =~= (service + role + before_backend + backend + before_place) + place + end);
    let paths =
        "{\"service\":\"encodec-api\",\"paths\":[\"/encode\",\"/encode/ecdc\",\"/encode/stream\"],\"transport\":\"upload-response\",\"streaming\":\"ndjson\",\"scale\":\"cpu-ingress/gpu-worker\",\"backend\":\""@;
    let info = info_text(config);
    lemma_contains_middle(paths, backend, before_place + place + end);
    assert(info =~= paths + backend + (before_place + place + end));
    lemma_contains_middle(paths + backend + before_place, place, end);
    assert(info =~= (paths + backend + before_place) + place + end);
}

/// The version of the service is told where it is known, with its role, and where it is not
/// known it is told that the service is in development.
pub proof fn versions_are_told(config: AppConfig, sha: Seq<char>)
    ensures
        contains_text(version_text(config, Some(sha)), sha),
        contains_text(version_text(config, Some(sha)), config.role.word()),
        version_text(config, None) == version_text(config, Some("dev"@)),
{
    let start = "{\"sha\":\""@;
    let middle = "\",\"role\":\""@;
    let role = config.role.word();
    let end = "\"}"@;
    let text = version_text(config, Some(sha));
    lemma_contains_middle(start, sha, middle + role + end);
    assert(text =~= start + sha + (middle + role + end));
    lemma_contains_middle(start + sha + middle, role, end);
    assert(text =~= (start + sha + middle) + role + end);
}

/// A request without a body is answered with success at the paths for it, with the right method,
/// and at no other: its state is told to those who get it, a look at its availability needs no
/// body, the paths of encodings may be asked for their options where encodings are made, and all
/// that concerns the upload cache goes there, where there is one. There is nothing anywhere
/// else.
pub proof fn requests_find_their_way(
    router: AppRouter,
    method: RequestMethod,
    path: Seq<char>,
    sha: Option<Seq<char>>,
)
    ensures
        ({
            let routed = router.routed(method, path, sha);
            let health = path == "/"@ || path == "/health"@ || path == "/healthz"@;
            let state = path == "/status"@ || path == "/info"@;
            let watch = path == "/ha/live"@ || path == "/ha/available"@ || path == "/ha/version"@;
            let looks = method is Get || method is Head;
            match routed {
                RoutedView::Upload => leads_to_upload(path) && router.has_upload(),
                RoutedView::Respond(response) => {
                    &&& response.status == 404 || 200 <= response.status < 300
                    &&& response.status != 404 <==> {
                        ||| method is Get && (health || state)
                        ||| looks && watch
                        ||| method is Options && leads_to_encode(path) && router.has_encode()
                    }
                    &&& method is Options && response.status != 404 ==> response.body is None
                    &&& path == "/ha/available"@ && looks ==> response.body is None
                    &&& path == "/ha/live"@ && method is Head ==> response.body is None
                    &&& path == "/status"@ && method is Get ==> response.body == Some(
                        encode_utf8(status_text(router.configured())),
                    )
                    &&& path == "/info"@ && method is Get ==> response.body == Some(
                        encode_utf8(info_text(router.configured())),
                    )
                    &&& path == "/ha/version"@ && looks ==> response.body == Some(
                        encode_utf8(version_text(router.configured(), sha)),
                    )
                    &&& !(leads_to_upload(path) && router.has_upload())
                },
            }
        }),
{
    reveal_strlit("/");
    reveal_strlit("/health");
    reveal_strlit("/healthz");
    reveal_strlit("/status");
    reveal_strlit("/info");
    reveal_strlit("/ha/live");
    reveal_strlit("/ha/available");
    reveal_strlit("/ha/version");
    reveal_strlit("/encode");
    reveal_strlit("/encode/ecdc");
    reveal_strlit("/encode/stream");
    reveal_strlit("/_upload_response/streams");
    reveal_strlit("/_upload_response/streams/");
    assert("/"@.len() == 1);
    assert("/health"@.len() == 7);
    assert("/healthz"@.len() == 8);
    assert("/status"@.len() == 7);
    assert("/info"@.len() == 5);
    assert("/ha/live"@.len() == 8);
    assert("/ha/available"@.len() == 13);
    assert("/ha/version"@.len() == 11);
    assert("/encode"@.len() == 7);
    assert("/encode/ecdc"@.len() == 12);
    assert("/encode/stream"@.len() == 14);
    assert("/_upload_response/streams"@.len() == 25);
    assert("/_upload_response/streams/"@.len() == 26);
    assert("/status"@[1] == 's');
    assert("/health"@[1] == 'h');
    assert("/encode"@[1] == 'e');
    assert("/healthz"@[3] == 'a');
    assert("/ha/live"@[3] == '/');
    if leads_to_upload(path) {
        assert(path.len() >= 25);
    }
}

/// Whoever asks whether the service is well is told the same wherever it is asked, and that it is
/// alive in a word; neither depends on how the service is configured.
pub proof fn health_is_told_everywhere(
    router: AppRouter,
    other: AppRouter,
    sha: Option<Seq<char>>,
)
    ensures
        router.routed(RequestMethod::Get, "/"@, sha) == other.routed(
            RequestMethod::Get,
            "/health"@,
            None,
        ),
        router.routed(RequestMethod::Get, "/"@, sha) == other.routed(
            RequestMethod::Get,
            "/healthz"@,
            None,
        ),
        router.routed(RequestMethod::Get, "/"@, sha) == RoutedView::Respond(
            json_response_of(
                200,
                encode_utf8("{\"status\":\"ok\",\"service\":\"encodec-api\"}"@),
            ),
        ),
        router.routed(RequestMethod::Get, "/ha/live"@, sha) == RoutedView::Respond(
            unstored(200, Some(encode_utf8("OK"@)), Some("text/plain"@)),
        ),
{
    reveal_strlit("/");
    assert("/"@.len() == 1);
    reveal_strlit("/health");
    assert("/health"@.len() == 7);
    reveal_strlit("/healthz");
    assert("/healthz"@.len() == 8);
    reveal_strlit("/status");
    assert("/status"@.len() == 7);
    reveal_strlit("/info");
    assert("/info"@.len() == 5);
    reveal_strlit("/ha/live");
    assert("/ha/live"@.len() == 8);
    assert("/status"@[1] == 's');
    assert("/health"@[1] == 'h');
    assert("/healthz"@[3] == 'a');
    assert("/ha/live"@[3] == '/');
}

/// Where one router has all parts of the service that another has, and more, it takes all
/// bodies that the other takes.
pub proof fn more_parts_take_more(router: AppRouter, other: AppRouter, path: Seq<char>)
    requires
        other.has_encode() ==> router.has_encode(),
        other.has_upload() ==> router.has_upload(),
    ensures
        other.takes_body(path) ==> router.takes_body(path),
        other.takes_stream(path) ==> router.takes_stream(path),
        router.has_encode() ==> router.takes_body("/encode"@) && router.takes_body(
            "/encode/ecdc"@,
        ) && router.takes_body("/encode/stream"@) && router.takes_stream("/encode/stream"@),
        router.has_upload() ==> router.takes_body("/_upload_response/streams"@),
        router.takes_stream(path) ==> path == "/encode/stream"@,
        router.takes_body(path) ==> leads_to_encode(path) && router.has_encode()
            || leads_to_upload(path) && router.has_upload(),
{
}

/// The paths of the upload cache are the one of its streams and all below it; one that only
/// begins alike is none.
pub proof fn the_cache_is_below_its_path(rest: Seq<char>)
    ensures
        leads_to_upload("/_upload_response/streams"@),
        leads_to_upload("/_upload_response/streams/"@ + rest),
        rest.len() > 0 && rest[0] != '/' ==> !leads_to_upload("/_upload_response/streams"@ + rest),
{
    reveal_strlit("/_upload_response/streams");
    reveal_strlit("/_upload_response/streams/");
    let below = "/_upload_response/streams/"@ + rest;
    assert(below.subrange(0, 26) =~= "/_upload_response/streams/"@);
    assert("/_upload_response/streams"@.len() == 25);
    assert("/_upload_response/streams/"@.len() == 26);
    let beside = "/_upload_response/streams"@ + rest;
    if rest.len() > 0 && rest[0] != '/' {
        assert(beside[25] == rest[0]);
        if "/_upload_response/streams/"@.is_prefix_of(beside) {
            assert(beside.subrange(0, 26)[25] == '/');
        }
    }
}

/// Who answers a request is seen as it is, and there is nothing at a path with a status that
/// says so.
pub proof fn answers_are_seen_as_they_are(routed: Routed)
    ensures
        routed is Upload <==> routed@ is Upload,
        routed matches Routed::Respond(response) ==> routed@ == RoutedView::Respond(response@),
        not_found_response().status == 404,
        not_found_response().body is Some,
{
}

} // verus!
