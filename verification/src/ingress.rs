//! The intake of requests: how an exchange with a client goes, and how uploads are taken in.

use crate::config::AppConfig;
use crate::error::{internal_error, EncodeError};
use crate::events::member;
use crate::headers::text_under;
use crate::json::{json_bytes, json_map, json_object, json_to_vec, put_text, Json};
use crate::options::EncodeQuality;
use crate::prepared::{
    program_pcm_descriptor, EnvelopeView, PcmDescriptor, PreparedRequestMetadata, ProgramView,
};
use crate::protocol::CONTENT_TYPE;
use crate::request::{
    is_json_type, reject_json_requests, request_supports_stream_decode, streams_decoded,
    RequestHead,
};
use crate::response::{
    classify_error, json_bytes_response, json_response_of, status_of, HandlerResponse,
};
use crate::samples::form_refusal;
use crate::seconds::{Seconds, SecondsView};
use crate::text::same_text;
use vstd::prelude::*;

verus! {

// ---------------------------------------------------------------------------------------
// Settings
// ---------------------------------------------------------------------------------------

/// The settings by which responses are taken from the cache.
#[derive(Clone, Copy, Debug, PartialEq, Eq, Structural)]
pub struct IngressProxyConfig {
    pub response_timeout_ms: u64,
    pub watch_poll_ms: u64,
}

/// The settings by which responses are taken from the cache.
pub fn ingress_proxy_config(config: &AppConfig) -> (settings: IngressProxyConfig)
    ensures
        settings == (IngressProxyConfig {
            response_timeout_ms: config.upload_response_timeout_ms,
            watch_poll_ms: config.upload_response_watch_poll_ms,
        }),
{
    IngressProxyConfig {
        response_timeout_ms: config.upload_response_timeout_ms,
        watch_poll_ms: config.upload_response_watch_poll_ms,
    }
}

/// A number, or one where it is zero.
pub open spec fn at_least_one(number: int) -> int {
    if number < 1 {
        1
    } else {
        number
    }
}

/// How often the cache is asked for more of a response, in milliseconds.
pub fn relay_poll_ms(config: &AppConfig) -> (interval: u64)
    ensures
        interval == at_least_one(config.upload_response_watch_poll_ms as int),
{
    if config.upload_response_watch_poll_ms < 1 {
        1
    } else {
        config.upload_response_watch_poll_ms
    }
}

/// The size of the slices in which a body is cached, by the size of a slot.
pub fn body_slice_bytes(slot_bytes: usize) -> (size: usize)
    ensures
        size == at_least_one(slot_bytes as int),
{
    if slot_bytes < 1 {
        1
    } else {
        slot_bytes
    }
}

// ---------------------------------------------------------------------------------------
// Exchanges
// ---------------------------------------------------------------------------------------

/// How a client and the service talk.
#[derive(Clone, Copy, Debug, PartialEq, Eq, Structural)]
pub enum Transport {
    /// A request, and a response as a whole.
    Buffered,
    /// A request, and a response that is streamed.
    Streaming,
    /// Messages, both ways.
    Websocket,
}

/// What is to be done next in an exchange.
#[derive(Clone, Copy, Debug, PartialEq, Eq, Structural)]
pub enum ExchangeStep {
    /// Receive the upload as messages.
    Receive,
    /// Prepare the program that the upload asks for.
    Prepare,
    /// Open a request in the cache.
    Open,
    /// Put the request and its samples into the cache: decoded while they arrive, where
    /// `direct`, and else after the upload is complete.
    Cache { direct: bool },
    /// Pass the response on to the client.
    Relay,
    /// Close the request in the cache.
    Close,
    /// Nothing: the exchange is over.
    Finish,
}

/// An exchange with a client.
#[derive(Debug)]
pub struct Exchange {
    transport: Transport,
    direct: bool,
    next: ExchangeStep,
    error: Option<EncodeError>,
}

/// Whether the request is open in the cache when this is the next step.
pub open spec fn is_open_at(step: ExchangeStep) -> bool {
    step is Cache || step is Relay || step is Close
}

/// How many steps are left, at most, when this is the next one.
pub open spec fn steps_left(step: ExchangeStep) -> nat {
    match step {
        ExchangeStep::Receive => 6,
        ExchangeStep::Prepare => 5,
        ExchangeStep::Open => 4,
        ExchangeStep::Cache { direct: _ } => 3,
        ExchangeStep::Relay => 2,
        ExchangeStep::Close => 1,
        ExchangeStep::Finish => 0,
    }
}

/// The step that follows one that was done, or that failed. A request that is open is closed
/// before the exchange is over.
pub open spec fn step_after(step: ExchangeStep, direct: bool, done: bool) -> ExchangeStep {
    match step {
        ExchangeStep::Receive => if done {
            ExchangeStep::Prepare
        } else {
            ExchangeStep::Finish
        },
        ExchangeStep::Prepare => if done {
            ExchangeStep::Open
        } else {
            ExchangeStep::Finish
        },
        ExchangeStep::Open => if done {
            ExchangeStep::Cache { direct }
        } else {
            ExchangeStep::Finish
        },
        ExchangeStep::Cache { direct: _ } => if done {
            ExchangeStep::Relay
        } else {
            ExchangeStep::Close
        },
        ExchangeStep::Relay => ExchangeStep::Close,
        ExchangeStep::Close => ExchangeStep::Finish,
        ExchangeStep::Finish => ExchangeStep::Finish,
    }
}

/// Where an exchange stands after steps that were done or failed.
pub open spec fn stands_at(step: ExchangeStep, direct: bool, outcomes: Seq<bool>) -> ExchangeStep
    decreases outcomes.len(),
{
    if outcomes.len() == 0 {
        step
    } else {
        stands_at(step_after(step, direct, outcomes.first()), direct, outcomes.drop_first())
    }
}

/// How often the request was closed by the steps of an exchange that were done or failed.
pub open spec fn times_closed(step: ExchangeStep, direct: bool, outcomes: Seq<bool>) -> nat
    decreases outcomes.len(),
{
    if outcomes.len() == 0 {
        0
    } else {
        let rest = times_closed(
            step_after(step, direct, outcomes.first()),
            direct,
            outcomes.drop_first(),
        );
        if step is Close {
            rest + 1
        } else {
            rest
        }
    }
}

/// Whatever is done and whatever fails, an exchange is over after six steps, and a request
/// that was open in the cache has then been closed, once. One that was not open, and that
/// could not be opened, is not closed.
pub proof fn open_requests_are_closed_once(
    step: ExchangeStep,
    direct: bool,
    outcomes: Seq<bool>,
)
    ensures
        outcomes.len() >= steps_left(step) ==> stands_at(step, direct, outcomes) is Finish,
        stands_at(step, direct, outcomes) is Finish && is_open_at(step) ==> times_closed(
            step,
            direct,
            outcomes,
        ) == 1,
        step is Open && outcomes.len() > 0 && !outcomes.first() ==> times_closed(
            step,
            direct,
            outcomes,
        ) == 0,
        step is Finish ==> times_closed(step, direct, outcomes) == 0,
        times_closed(step, direct, outcomes) <= 1,
    decreases outcomes.len(),
{
    if outcomes.len() > 0 {
        open_requests_are_closed_once(
            step_after(step, direct, outcomes.first()),
            direct,
            outcomes.drop_first(),
        );
    }
}

impl Exchange {
    #[verifier::type_invariant]
    spec fn inv(self) -> bool {
        &&& self.error is Some ==> self.next is Close || self.next is Finish
        &&& self.next is Receive || self.next is Prepare ==> self.transport is Websocket
        &&& self.next matches ExchangeStep::Cache { direct } ==> direct == self.direct
        &&& self.transport is Websocket ==> !self.direct
    }

    /// What is to be done next.
    pub closed spec fn step(self) -> ExchangeStep {
        self.next
    }

    /// How the client and the service talk.
    pub closed spec fn carried_by(self) -> Transport {
        self.transport
    }

    /// Whether the samples are decoded while they arrive.
    pub closed spec fn decodes_directly(self) -> bool {
        self.direct
    }

    /// What went wrong.
    pub closed spec fn fault(self) -> Option<EncodeError> {
        self.error
    }

    /// Begins an exchange. A request with a body of JSON is refused at once. Messages are
    /// received and prepared before a request is opened in the cache.
    pub fn begin(transport: Transport, head: &RequestHead) -> (exchange: Self)
        ensures
            exchange.carried_by() == transport,
            exchange.decodes_directly() == (!(transport is Websocket) && streams_decoded(
                head.entries(),
            )),
            match text_under(head.entries(), CONTENT_TYPE@) {
                Some(content_type) => if is_json_type(content_type) {
                    &&& exchange.step() is Finish
                    &&& exchange.fault() matches Some(error)
                    &&& error.is_client(
                        "JSON request bodies are not supported; upload audio bytes instead"@,
                    )
                } else {
                    exchange.fault() is None && exchange.step() == first_step(transport)
                },
                None => exchange.fault() is None && exchange.step() == first_step(transport),
            },
    {
        let over_messages: bool = match transport {
            Transport::Websocket => true,
            _ => false,
        };
        let direct: bool = !over_messages && request_supports_stream_decode(head);
        match reject_json_requests(head) {
            Err(error) => Exchange {
                transport,
                direct,
                next: ExchangeStep::Finish,
                error: Some(error),
            },
            Ok(_) => {
                let next: ExchangeStep = if over_messages {
                    ExchangeStep::Receive
                } else {
                    ExchangeStep::Open
                };
                Exchange { transport, direct, next, error: None }
            },
        }
    }

    /// What is to be done next.
    pub fn next_step(&self) -> (step: ExchangeStep)
        ensures
            step == self.step(),
    {
        self.next
    }

    /// The step was done.
    pub fn done(self) -> (exchange: Self)
        ensures
            exchange.step() == step_after(self.step(), self.decodes_directly(), true),
            exchange.carried_by() == self.carried_by(),
            exchange.decodes_directly() == self.decodes_directly(),
            exchange.fault() == self.fault(),
    {
        proof {
            use_type_invariant(&self);
        }
        let next: ExchangeStep = match self.next {
            ExchangeStep::Receive => ExchangeStep::Prepare,
            ExchangeStep::Prepare => ExchangeStep::Open,
            ExchangeStep::Open => ExchangeStep::Cache { direct: self.direct },
            ExchangeStep::Cache { direct: _ } => ExchangeStep::Relay,
            ExchangeStep::Relay => ExchangeStep::Close,
            ExchangeStep::Close => ExchangeStep::Finish,
            ExchangeStep::Finish => ExchangeStep::Finish,
        };
        Exchange { transport: self.transport, direct: self.direct, next, error: self.error }
    }

    /// The step failed. A request that is open is closed before the exchange is over; the
    /// first error is kept.
    pub fn failed(self, error: EncodeError) -> (exchange: Self)
        ensures
            exchange.carried_by() == self.carried_by(),
            exchange.decodes_directly() == self.decodes_directly(),
            exchange.fault() == (if self.fault() is None && !(self.step() is Close)
                && !(self.step() is Finish) {
                Some(error)
            } else {
                self.fault()
            }),
            exchange.step() == step_after(self.step(), self.decodes_directly(), false),
    {
        proof {
            use_type_invariant(&self);
        }
        match self.next {
            ExchangeStep::Cache { direct: _ } => Exchange {
                transport: self.transport,
                direct: self.direct,
                next: ExchangeStep::Close,
                error: Some(error),
            },
            ExchangeStep::Relay => Exchange {
                transport: self.transport,
                direct: self.direct,
                next: ExchangeStep::Close,
                error: Some(error),
            },
            ExchangeStep::Close => Exchange {
                transport: self.transport,
                direct: self.direct,
                next: ExchangeStep::Finish,
                error: self.error,
            },
            ExchangeStep::Finish => self,
            _ => Exchange {
                transport: self.transport,
                direct: self.direct,
                next: ExchangeStep::Finish,
                error: Some(error),
            },
        }
    }

    /// What went wrong, if anything did.
    pub fn into_error(self) -> (error: Option<EncodeError>)
        ensures
            error == self.fault(),
    {
        self.error
    }
}

/// The first step of an exchange.
pub open spec fn first_step(transport: Transport) -> ExchangeStep {
    if transport is Websocket {
        ExchangeStep::Receive
    } else {
        ExchangeStep::Open
    }
}

/// The response to a request that failed.
pub fn error_response(status: u16, message: &str) -> (response: HandlerResponse)
    ensures
        response@ == json_response_of(status, json_bytes(error_json(message@))),
{
    let mut map = json_map();
    put_text(&mut map, "error", message);
    let body: Vec<u8> = match json_to_vec(&json_object(map)) {
        Ok(bytes) => bytes,
        Err(_) => crate::response::bytes_of("{\"error\":\"serialization failure\"}"),
    };
    json_bytes_response(status, body)
}

/// What a client is told when its request failed.
pub open spec fn error_json(message: Seq<char>) -> Json {
    Json::Object(map!["error"@ => Json::Text(message)])
}

/// The response to a request that failed: its status says whose fault it is, and its body
/// says what is wrong.
pub fn failure_response(error: &EncodeError) -> (response: HandlerResponse)
    ensures
        response@ == json_response_of(status_of(*error), json_bytes(error_json(error.text()))),
{
    error_response(classify_error(error), error.message())
}

// ---------------------------------------------------------------------------------------
// Bodies
// ---------------------------------------------------------------------------------------

/// The body of a request cannot be read.
pub open spec fn unreadable_body(cause: Seq<char>) -> Seq<char> {
    "failed to read request body: "@ + cause
}

/// Takes in a part of a body, or tells why there is none.
pub fn collect_chunk(body: &mut Vec<u8>, chunk: Result<Vec<u8>, String>) -> (taken: Result<
    (),
    EncodeError,
>)
    ensures
        match chunk {
            Ok(bytes) => taken is Ok && final(body)@ == old(body)@ + bytes@,
            Err(cause) => {
                &&& taken matches Err(error)
                &&& error.is_internal(unreadable_body(cause@))
                &&& final(body)@ == old(body)@
            },
        },
{
    match chunk {
        Ok(bytes) => {
            let ghost before = body@;
            body.extend_from_slice(bytes.as_slice());
            assert(body@ =~= before + bytes@);
            Ok(())
        },
        Err(cause) => {
            let message = "failed to read request body: ".to_owned().concat(cause.as_str());
            Err(internal_error(message.as_str()))
        },
    }
}

/// A message of a client.
#[derive(Debug)]
pub enum ClientFrame {
    /// A part of the upload.
    Binary(Vec<u8>),
    /// An event, by its type, where it has one.
    Event(Option<String>),
    /// The client closes the connection.
    Close,
    /// Nothing that concerns the upload.
    Other,
    /// The message could not be received.
    Failed(String),
}

/// Whether an event ends an upload.
pub open spec fn ends_upload(event: Option<String>) -> bool {
    event matches Some(name) && (name@ == "Finalize"@ || name@ == "CloseStream"@)
}

/// Takes in a message of a client, and says whether the upload is over.
pub fn receive_frame(body: &mut Vec<u8>, frame: ClientFrame) -> (over: Result<bool, EncodeError>)
    ensures
        final(body)@ == (match frame {
            ClientFrame::Binary(bytes) => old(body)@ + bytes@,
            _ => old(body)@,
        }),
        match frame {
            ClientFrame::Binary(_) => over == Ok::<bool, EncodeError>(false),
            ClientFrame::Event(event) => over == Ok::<bool, EncodeError>(ends_upload(event)),
            ClientFrame::Close => over == Ok::<bool, EncodeError>(true),
            ClientFrame::Other => over == Ok::<bool, EncodeError>(false),
            ClientFrame::Failed(cause) => over matches Err(error) && error.is_internal(
                "websocket receive failed: "@ + cause@,
            ),
        },
{
    match frame {
        ClientFrame::Binary(bytes) => {
            let ghost before = body@;
            body.extend_from_slice(bytes.as_slice());
            assert(body@ =~= before + bytes@);
            Ok(false)
        },
        ClientFrame::Event(Some(name)) => Ok(
            same_text(name.as_str(), "Finalize") || same_text(name.as_str(), "CloseStream"),
        ),
        ClientFrame::Event(None) => Ok(false),
        ClientFrame::Close => Ok(true),
        ClientFrame::Other => Ok(false),
        ClientFrame::Failed(cause) => {
            let message = "websocket receive failed: ".to_owned().concat(cause.as_str());
            Err(internal_error(message.as_str()))
        },
    }
}

// ---------------------------------------------------------------------------------------
// Uploads that are decoded while they arrive
// ---------------------------------------------------------------------------------------

/// No time at all.
pub open spec fn no_time() -> SecondsView {
    SecondsView { bits: 0, text: "0"@, hundredths: "0"@, millionths: "0.000000"@ }
}

/// What a worker is to be told of a program that is decoded while it arrives.
pub open spec fn direct_envelope(quality: EncodeQuality, gap: SecondsView) -> EnvelopeView {
    EnvelopeView {
        descriptor: PcmDescriptor { sample_rate: 48_000, channels: 2, bits_per_sample: 16 },
        quality,
        track_count: 1,
        gap,
        total_gap: no_time(),
        duration: None,
        audio_key: None,
    }
}

/// A program that is decoded while it arrives has the quality and the gap that were asked for.
/// It is one track, so that its gaps take no time, and nothing is told of it that only the
/// samples can tell. Its samples have the form that bundles for stereo at 48 kHz expect.
pub proof fn direct_programs_are_one_track(
    quality: EncodeQuality,
    gap: SecondsView,
    program: ProgramView,
)
    ensures
        direct_envelope(quality, gap).quality == quality,
        direct_envelope(quality, gap).gap == gap,
        direct_envelope(quality, gap).track_count == 1,
        direct_envelope(quality, gap).total_gap.bits == 0,
        direct_envelope(quality, gap).duration is None,
        direct_envelope(quality, gap).audio_key is None,
        program.descriptor == direct_envelope(quality, gap).descriptor ==> form_refusal(
            program,
            2,
            48_000,
        ) is None,
{
}

/// What is known of a program that is decoded while it arrives: it has one track, and so no
/// gaps, and neither its duration nor its key is known yet.
pub fn direct_metadata(quality: EncodeQuality, gap_seconds: Seconds, streaming: bool) -> (metadata:
    PreparedRequestMetadata)
    ensures
        metadata.envelope() == (crate::prepared::EnvelopeView {
            descriptor: PcmDescriptor { sample_rate: 48_000, channels: 2, bits_per_sample: 16 },
            quality,
            track_count: 1,
            gap: gap_seconds@,
            total_gap: no_time(),
            duration: None,
            audio_key: None,
        }),
        metadata.envelope() == direct_envelope(quality, gap_seconds@),
        metadata.streaming == streaming,
{
    let descriptor = program_pcm_descriptor();
    let total_gap_seconds = Seconds {
        bits: 0,
        text: "0".to_owned(),
        hundredths: "0".to_owned(),
        millionths: "0.000000".to_owned(),
    };
    PreparedRequestMetadata {
        sample_rate: descriptor.sample_rate,
        channels: descriptor.channels,
        bits_per_sample: descriptor.bits_per_sample,
        quality,
        track_count: 1,
        gap_seconds,
        total_gap_seconds,
        duration_seconds: None,
        audio_key: None,
        streaming,
    }
}

/// What a decoder answered when it was given a part of an upload.
#[derive(Debug)]
pub enum DecoderReply {
    /// It took the part.
    Taken,
    /// It has no room for the part now.
    Full,
    /// It cannot go on.
    Failed(String),
}

/// What is to be done after a decoder has answered. What it has decoded is cached first.
#[derive(Clone, Copy, Debug, PartialEq, Eq, Structural)]
pub enum DecoderStep {
    /// Go on with the upload.
    Continue,
    /// Let others work, and give it the part again.
    Retry,
}

/// An upload that is decoded while it arrives.
#[derive(Debug)]
pub struct DirectUpload {
    uploaded: usize,
    decoded: usize,
}

impl DirectUpload {
    /// How many bytes have arrived.
    pub closed spec fn arrived(self) -> nat {
        self.uploaded as nat
    }

    /// How many bytes of samples came of them.
    pub closed spec fn samples(self) -> nat {
        self.decoded as nat
    }

    /// An upload of which nothing has arrived.
    pub fn new() -> (upload: Self)
        ensures
            upload.arrived() == 0,
            upload.samples() == 0,
    {
        DirectUpload { uploaded: 0, decoded: 0 }
    }

    /// How many bytes have arrived.
    pub fn upload_bytes(&self) -> (count: usize)
        ensures
            count == self.arrived(),
    {
        self.uploaded
    }

    /// How many bytes of samples came of them.
    pub fn decoded_body_bytes(&self) -> (count: usize)
        ensures
            count == self.samples(),
    {
        self.decoded
    }

    /// A part of the upload has arrived: what goes to the decoder. An empty part does not,
    /// as that would tell the decoder that the upload is over.
    pub fn on_chunk(self, chunk: Result<Vec<u8>, String>) -> (next: (
        Self,
        Result<Option<Vec<u8>>, EncodeError>,
    ))
        requires
            chunk matches Ok(bytes) ==> self.arrived() + bytes@.len() <= usize::MAX,
        ensures
            next.0.samples() == self.samples(),
            match chunk {
                Ok(bytes) => {
                    &&& next.0.arrived() == self.arrived() + bytes@.len()
                    &&& next.1 == Ok::<Option<Vec<u8>>, EncodeError>(
                        if bytes@.len() == 0 {
                            None
                        } else {
                            Some(bytes)
                        },
                    )
                },
                Err(cause) => {
                    &&& next.0.arrived() == self.arrived()
                    &&& next.1 matches Err(error)
                    &&& error.is_internal(unreadable_body(cause@))
                },
            },
    {
        match chunk {
            Ok(bytes) => {
                let uploaded: usize = self.uploaded + bytes.len();
                let upload = DirectUpload { uploaded, decoded: self.decoded };
                if bytes.len() == 0 {
                    (upload, Ok(None))
                } else {
                    (upload, Ok(Some(bytes)))
                }
            },
            Err(cause) => {
                let message = "failed to read request body: ".to_owned().concat(cause.as_str());
                (self, Err(internal_error(message.as_str())))
            },
        }
    }

    /// The decoder has answered.
    pub fn on_reply(&self, reply: DecoderReply) -> (step: Result<DecoderStep, EncodeError>)
        ensures
            match reply {
                DecoderReply::Taken => step == Ok::<DecoderStep, EncodeError>(
                    DecoderStep::Continue,
                ),
                DecoderReply::Full => step == Ok::<DecoderStep, EncodeError>(DecoderStep::Retry),
                DecoderReply::Failed(cause) => step matches Err(error) && error.is_internal(
                    "decoder input failed: "@ + cause@,
                ),
            },
    {
        match reply {
            DecoderReply::Taken => Ok(DecoderStep::Continue),
            DecoderReply::Full => Ok(DecoderStep::Retry),
            DecoderReply::Failed(cause) => {
                let message = "decoder input failed: ".to_owned().concat(cause.as_str());
                Err(internal_error(message.as_str()))
            },
        }
    }

    /// The decoder gave samples, of the given size in bytes, or failed.
    pub fn on_output(self, output: Result<usize, String>) -> (next: (
        Self,
        Result<(), EncodeError>,
    ))
        requires
            output matches Ok(size) ==> self.samples() + size <= usize::MAX,
        ensures
            next.0.arrived() == self.arrived(),
            match output {
                Ok(size) => next.1 is Ok && next.0.samples() == self.samples() + size,
                Err(cause) => {
                    &&& next.0.samples() == self.samples()
                    &&& next.1 matches Err(error)
                    &&& error.is_internal("audio decode failed: "@ + cause@)
                },
            },
    {
        match output {
            Ok(size) => {
                let decoded: usize = self.decoded + size;
                (DirectUpload { uploaded: self.uploaded, decoded }, Ok(()))
            },
            Err(cause) => {
                let message = "audio decode failed: ".to_owned().concat(cause.as_str());
                (self, Err(internal_error(message.as_str())))
            },
        }
    }

    /// The upload is over. It has to have held audio.
    pub fn complete(&self) -> (checked: Result<(), EncodeError>)
        ensures
            if self.samples() > 0 {
                checked is Ok
            } else {
                checked matches Err(error) && error.is_internal(
                    "request body did not include decodable audio"@,
                )
            },
    {
        if self.decoded > 0 {
            Ok(())
        } else {
            Err(internal_error("request body did not include decodable audio"))
        }
    }
}

/// A number that is at least one is kept, and one takes the place of a smaller one.
pub proof fn small_numbers_are_raised_to_one(number: int)
    ensures
        at_least_one(number) >= 1,
        at_least_one(number) >= number,
        at_least_one(number) == number || at_least_one(number) == 1,
{
}

/// Every step of an exchange follows its own forerunner: a request is opened once what it asks
/// for is prepared, cached once it is open, passed on once it is cached, and closed once it was
/// open; and nothing is prepared that was not received. It is cached in the way that the
/// exchange was begun for.
pub proof fn steps_follow_their_forerunners(step: ExchangeStep, direct: bool, done: bool)
    ensures
        match step_after(step, direct, done) {
            ExchangeStep::Receive => false,
            ExchangeStep::Prepare => step is Receive && done,
            ExchangeStep::Open => step is Prepare && done,
            ExchangeStep::Cache { direct: way } => step is Open && done && way == direct,
            ExchangeStep::Relay => step is Cache && done,
            ExchangeStep::Close => step is Relay || (step is Cache && !done),
            ExchangeStep::Finish => step is Close || step is Finish || !done,
        },
        !is_open_at(step) && !done ==> step_after(step, direct, done) is Finish,
        steps_left(step_after(step, direct, done)) < steps_left(step) || step is Finish,
{
}

/// Where nothing fails, an exchange takes every step: over messages the upload is received and
/// prepared before the request is opened, and else it is opened at once.
pub proof fn undisturbed_exchanges_take_every_step(transport: Transport, direct: bool)
    ensures
        ({
            let opened = if transport is Websocket {
                step_after(step_after(first_step(transport), direct, true), direct, true)
            } else {
                first_step(transport)
            };
            let cached = step_after(opened, direct, true);
            let relayed = step_after(cached, direct, true);
            let closed = step_after(relayed, direct, true);
            &&& opened is Open
            &&& cached == ExchangeStep::Cache { direct }
            &&& relayed is Relay
            &&& closed is Close
            &&& step_after(closed, direct, true) is Finish
        }),
        transport is Websocket ==> first_step(transport) is Receive,
{
}

/// An upload over messages ends with one of two events. No other one ends it, nor does one
/// without a type.
pub proof fn two_events_end_an_upload(event: Option<String>)
    ensures
        event is None ==> !ends_upload(event),
        event matches Some(name) ==> (ends_upload(event) <==> name@ == "Finalize"@ || name@
            == "CloseStream"@),
        event matches Some(name) && name@ == "KeepAlive"@ ==> !ends_upload(event),
{
    reveal_strlit("Finalize");
    reveal_strlit("CloseStream");
    reveal_strlit("KeepAlive");
    assert("KeepAlive"@.len() == 9);
    assert("Finalize"@.len() == 8);
    assert("CloseStream"@.len() == 11);
}

/// What a client is told of a failure is the message, under a name of its own.
pub proof fn failures_are_told(message: Seq<char>, cause: Seq<char>)
    ensures
        member(error_json(message), "error"@) == Some(Json::Text(message)),
        cause.is_suffix_of(unreadable_body(cause)),
        unreadable_body(cause).len() > cause.len(),
{
    reveal_strlit("failed to read request body: ");
    let all = unreadable_body(cause);
    assert("failed to read request body: "@.len() == 29);
    assert(all.subrange(all.len() - cause.len(), all.len() as int) =~= cause);
}

/// No time is zero, and is written so in all its forms.
pub proof fn no_time_is_zero()
    ensures
        no_time().bits == 0,
        no_time().text == "0"@,
        no_time().hundredths == no_time().text,
        no_time().millionths == no_time().text + ".000000"@,
{
    reveal_strlit("0");
    reveal_strlit(".000000");
    reveal_strlit("0.000000");
    assert("0"@ + ".000000"@ =~= "0.000000"@);
}

} // verus!
