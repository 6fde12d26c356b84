//! Streamed encodings, from the first event to the last.

use crate::artifacts::{
    artifact_events, artifact_jsons, full_pieces, jsons, piece, piece_count, piece_jsons,
    selected_events, selected_jsons, EcdcStream,
};
use crate::config::AppConfig;
use crate::digest::{hex, sha256};
use crate::error::EncodeError;
use crate::events::{
    artifact_chunk_json, artifact_end_json, artifact_start_json, done_event, done_json,
    encoding_event, encoding_json, header_members, headers_to_json, loading_event, loading_json,
    member, metadata_event, metadata_json, packing_event, packing_json, request_event, request_json,
    upload_complete_json, upload_finalize_json, upload_progress_json, uploads_are_told,
};
use crate::form::ParsedEncodeRequest;
use crate::json::{json_of, Json};
use crate::options::{EncodeQuality, StreamArtifactSelection};
use crate::picture::{
    artifacts_of, build_artifacts_from_ecdc, is_side_for, response_headers, response_lines,
    ArtifactsView, EncodeArtifacts,
};
use crate::prepared::{
    keys_tell_encodings_apart, samples_key_tail, streamed_program, EnvelopeView, PreparedEncodeProgram,
    PreparedRequestEnvelope, ProgramView,
};
use crate::request::{artifact_word, stream_artifact_selection, RequestHead};
use crate::seconds::{Seconds, SecondsView};
use crate::text::lemma_same_middle;
use crate::upload::{
    event_json, is_current, is_due, taken_in, BufferedUpload, FrameStep, SampleUpload, SourceFrame,
};
use vstd::prelude::*;

verus! {

// ---------------------------------------------------------------------------------------
// The order of events
// ---------------------------------------------------------------------------------------

/// Whether an event has the given type.
pub open spec fn is_of_type(event: Json, name: Seq<char>) -> bool {
    event matches Json::Object(members) && members.contains_key("type"@) && members["type"@]
        == Json::Text(name)
}

/// Whether an event says that the encoded audio is packed into a picture.
pub open spec fn is_packing(event: Json) -> bool {
    event matches Json::Object(members) && members.contains_key("status"@) && members["status"@]
        == Json::Text("packing"@)
}

/// Whether an event can stand anywhere between the first and the last event of a stream: it is
/// neither of these, and it is not the one that says that the encoded audio is packed.
pub open spec fn is_midstream(event: Json) -> bool {
    &&& !is_of_type(event, "Metadata"@)
    &&& !is_of_type(event, "Done"@)
    &&& !is_packing(event)
}

/// Whether events can all stand midstream.
pub open spec fn are_midstream(events: Seq<Json>) -> bool {
    forall|i: int| 0 <= i < events.len() ==> is_midstream(#[trigger] events[i])
}

/// Whether these are the events of a stream whose audio is not encoded yet: the first tells
/// what is going to be sent, and all others stand midstream.
pub open spec fn is_running(events: Seq<Json>) -> bool {
    &&& events.len() > 0
    &&& is_of_type(events[0], "Metadata"@)
    &&& !is_of_type(events[0], "Done"@)
    &&& !is_packing(events[0])
    &&& forall|i: int| 0 < i < events.len() ==> is_midstream(#[trigger] events[i])
}

/// Whether these are the events of a stream whose audio is encoded, and which said so with
/// the event at `packed`: before it the stream was running, and all after it stands midstream.
pub open spec fn is_encoded(events: Seq<Json>, packed: int) -> bool {
    &&& 0 < packed < events.len()
    &&& is_running(events.take(packed))
    &&& events[packed] == packing_json()
    &&& forall|i: int| packed < i < events.len() ==> is_midstream(#[trigger] events[i])
}

/// Whether these are all events of a stream. The first, and no other, tells what is going to be
/// sent; the last, and no other, that all is done; and one event between them, and no other,
/// that the encoded audio is packed.
pub open spec fn is_whole_stream(events: Seq<Json>) -> bool {
    exists|packed: int| #[trigger] is_whole_with(events, packed)
}

/// Whether these are all events of a stream, the one at `packed` saying that the encoded audio is
/// packed.
pub open spec fn is_whole_with(events: Seq<Json>, packed: int) -> bool {
    &&& 0 < packed < events.len() - 1
    &&& forall|i: int|
        0 <= i < events.len() ==> {
            &&& is_of_type(#[trigger] events[i], "Metadata"@) <==> i == 0
            &&& is_of_type(events[i], "Done"@) <==> i == events.len() - 1
            &&& is_packing(events[i]) <==> i == packed
        }
}

/// An optional event as events.
pub open spec fn noted(event: Option<Json>) -> Seq<Json> {
    match event {
        Some(event) => seq![event],
        None => Seq::empty(),
    }
}

/// Whether a word has the given first letter and length.
spec fn begins(word: Seq<char>, first: char, length: nat) -> bool {
    word.len() == length && word[0] == first
}

/// The names of members, and the words that stand in them, are told apart.
proof fn lemma_words()
    ensures
        "type"@ != "status"@,
        "type"@ != "msg"@,
        "type"@ != "request_id"@,
        "type"@ != "path"@,
        "type"@ != "artifact"@,
        "type"@ != "bytes_received"@,
        "type"@ != "finalize"@,
        "type"@ != "track_count"@,
        "type"@ != "quality"@,
        "type"@ != "gap_seconds"@,
        "type"@ != "audio_key"@,
        "type"@ != "duration"@,
        "type"@ != "bandwidthKbps"@,
        "type"@ != "cached"@,
        "type"@ != "meta"@,
        "type"@ != "png_size"@,
        "type"@ != "ecdc_bytes"@,
        "type"@ != "name"@,
        "type"@ != "content_type"@,
        "type"@ != "encoding"@,
        "type"@ != "size_bytes"@,
        "type"@ != "index"@,
        "type"@ != "data"@,
        "type"@ != "chunks"@,
        "status"@ != "msg"@,
        "status"@ != "request_id"@,
        "status"@ != "path"@,
        "status"@ != "artifact"@,
        "status"@ != "bytes_received"@,
        "status"@ != "finalize"@,
        "status"@ != "track_count"@,
        "status"@ != "quality"@,
        "status"@ != "gap_seconds"@,
        "status"@ != "audio_key"@,
        "status"@ != "duration"@,
        "status"@ != "bandwidthKbps"@,
        "status"@ != "cached"@,
        "status"@ != "meta"@,
        "status"@ != "png_size"@,
        "status"@ != "ecdc_bytes"@,
        "status"@ != "name"@,
        "status"@ != "content_type"@,
        "status"@ != "encoding"@,
        "status"@ != "size_bytes"@,
        "status"@ != "index"@,
        "status"@ != "data"@,
        "status"@ != "chunks"@,
        "packing"@ != "loading"@,
        "packing"@ != "encoding"@,
        "Metadata"@ != "Done"@,
        "Metadata"@ != "Progress"@,
        "Metadata"@ != "UploadProgress"@,
        "Metadata"@ != "UploadComplete"@,
        "Metadata"@ != "Request"@,
        "Metadata"@ != "ArtifactStart"@,
        "Metadata"@ != "ArtifactChunk"@,
        "Metadata"@ != "ArtifactEnd"@,
        "Done"@ != "Progress"@,
        "Done"@ != "UploadProgress"@,
        "Done"@ != "UploadComplete"@,
        "Done"@ != "Request"@,
        "Done"@ != "ArtifactStart"@,
        "Done"@ != "ArtifactChunk"@,
        "Done"@ != "ArtifactEnd"@,
{
    reveal_strlit("type");
    assert(begins("type"@, 't', 4));
    reveal_strlit("status");
    assert(begins("status"@, 's', 6));
    reveal_strlit("msg");
    assert(begins("msg"@, 'm', 3));
    reveal_strlit("request_id");
    assert(begins("request_id"@, 'r', 10));
    reveal_strlit("path");
    assert(begins("path"@, 'p', 4));
    reveal_strlit("artifact");
    assert(begins("artifact"@, 'a', 8));
    reveal_strlit("bytes_received");
    assert(begins("bytes_received"@, 'b', 14));
    reveal_strlit("finalize");
    assert(begins("finalize"@, 'f', 8));
    reveal_strlit("track_count");
    assert(begins("track_count"@, 't', 11));
    reveal_strlit("quality");
    assert(begins("quality"@, 'q', 7));
    reveal_strlit("gap_seconds");
    assert(begins("gap_seconds"@, 'g', 11));
    reveal_strlit("audio_key");
    assert(begins("audio_key"@, 'a', 9));
    reveal_strlit("duration");
    assert(begins("duration"@, 'd', 8));
    reveal_strlit("bandwidthKbps");
    assert(begins("bandwidthKbps"@, 'b', 13));
    reveal_strlit("cached");
    assert(begins("cached"@, 'c', 6));
    reveal_strlit("meta");
    assert(begins("meta"@, 'm', 4));
    reveal_strlit("png_size");
    assert(begins("png_size"@, 'p', 8));
    reveal_strlit("ecdc_bytes");
    assert(begins("ecdc_bytes"@, 'e', 10));
    reveal_strlit("name");
    assert(begins("name"@, 'n', 4));
    reveal_strlit("content_type");
    assert(begins("content_type"@, 'c', 12));
    reveal_strlit("encoding");
    assert(begins("encoding"@, 'e', 8));
    reveal_strlit("size_bytes");
    assert(begins("size_bytes"@, 's', 10));
    reveal_strlit("index");
    assert(begins("index"@, 'i', 5));
    reveal_strlit("data");
    assert(begins("data"@, 'd', 4));
    reveal_strlit("chunks");
    assert(begins("chunks"@, 'c', 6));
    reveal_strlit("packing");
    assert(begins("packing"@, 'p', 7));
    reveal_strlit("loading");
    assert(begins("loading"@, 'l', 7));
    reveal_strlit("Metadata");
    assert(begins("Metadata"@, 'M', 8));
    reveal_strlit("Done");
    assert(begins("Done"@, 'D', 4));
    reveal_strlit("Progress");
    assert(begins("Progress"@, 'P', 8));
    reveal_strlit("UploadProgress");
    assert(begins("UploadProgress"@, 'U', 14));
    reveal_strlit("UploadComplete");
    assert(begins("UploadComplete"@, 'U', 14));
    reveal_strlit("Request");
    assert(begins("Request"@, 'R', 7));
    reveal_strlit("ArtifactStart");
    assert(begins("ArtifactStart"@, 'A', 13));
    reveal_strlit("ArtifactChunk");
    assert(begins("ArtifactChunk"@, 'A', 13));
    reveal_strlit("ArtifactEnd");
    assert(begins("ArtifactEnd"@, 'A', 11));
}

proof fn lemma_first_event(
    request_id: Seq<char>,
    path: Seq<char>,
    selection: StreamArtifactSelection,
)
    ensures
        is_running(seq![metadata_json(request_id, path, selection)]),
{
    lemma_words();
}

proof fn lemma_progress_events(duration: Option<Json>, bandwidth: Json)
    ensures
        is_midstream(loading_json(duration)),
        is_midstream(encoding_json(duration, bandwidth)),
        is_packing(packing_json()),
        !is_of_type(packing_json(), "Metadata"@),
        !is_of_type(packing_json(), "Done"@),
{
    lemma_words();
}

proof fn lemma_upload_events(request_id: Seq<char>, received: nat)
    ensures
        is_midstream(upload_progress_json(request_id, received)),
        is_midstream(upload_finalize_json(request_id, received)),
        is_midstream(upload_complete_json(request_id, received)),
{
    lemma_words();
}

proof fn lemma_request_event(
    request_id: Seq<char>,
    track_count: nat,
    quality: EncodeQuality,
    gap_seconds: Json,
    audio_key: Seq<char>,
)
    ensures
        is_midstream(request_json(request_id, track_count, quality, gap_seconds, audio_key)),
{
    lemma_words();
}

proof fn lemma_last_event(
    request_id: Seq<char>,
    meta: Json,
    duration: Json,
    png_size: nat,
    ecdc_bytes: nat,
)
    ensures
        ({
            let event = done_json(request_id, meta, duration, png_size, ecdc_bytes);
            is_of_type(event, "Done"@) && !is_of_type(event, "Metadata"@) && !is_packing(event)
        }),
{
    lemma_words();
}

proof fn lemma_artifact_start(
    request_id: Seq<char>,
    name: Seq<char>,
    content_type: Seq<char>,
    size: Option<nat>,
)
    ensures
        is_midstream(artifact_start_json(request_id, name, content_type, size)),
{
    lemma_words();
}

proof fn lemma_artifact_end(request_id: Seq<char>, name: Seq<char>, chunks: nat, size: nat)
    ensures
        is_midstream(artifact_end_json(request_id, name, chunks, size)),
{
    lemma_words();
}

proof fn lemma_artifact_chunk(request_id: Seq<char>, name: Seq<char>, index: nat, bytes: Seq<u8>)
    ensures
        is_midstream(artifact_chunk_json(request_id, name, index, bytes)),
{
    lemma_words();
}

proof fn lemma_pieces(
    request_id: Seq<char>,
    name: Seq<char>,
    bytes: Seq<u8>,
    from: int,
    to: int,
)
    ensures
        are_midstream(piece_jsons(request_id, name, bytes, from, to)),
{
    let events = piece_jsons(request_id, name, bytes, from, to);
    assert forall|i: int| 0 <= i < events.len() implies is_midstream(#[trigger] events[i]) by {
        lemma_artifact_chunk(request_id, name, (from + i) as nat, piece(bytes, from + i));
    }
}

proof fn lemma_artifact(
    request_id: Seq<char>,
    name: Seq<char>,
    content_type: Seq<char>,
    bytes: Seq<u8>,
)
    ensures
        are_midstream(artifact_jsons(request_id, name, content_type, bytes)),
{
    let count = piece_count(bytes.len());
    lemma_artifact_start(request_id, name, content_type, Some(bytes.len()));
    lemma_pieces(request_id, name, bytes, 0, count as int);
    lemma_artifact_end(request_id, name, count, bytes.len());
}

proof fn lemma_selected(
    request_id: Seq<char>,
    selection: StreamArtifactSelection,
    ecdc: Seq<u8>,
    png: Seq<u8>,
)
    ensures
        are_midstream(selected_jsons(request_id, selection, ecdc, png)),
{
    lemma_artifact(request_id, "ecdc"@, "application/octet-stream"@, ecdc);
    lemma_artifact(request_id, "png"@, "image/png"@, png);
}

proof fn lemma_runs_on(events: Seq<Json>, more: Seq<Json>)
    requires
        is_running(events),
        are_midstream(more),
    ensures
        is_running(events + more),
{
    let all = events + more;
    assert forall|i: int| 0 < i < all.len() implies is_midstream(#[trigger] all[i]) by {
        if i < events.len() {
            assert(all[i] == events[i]);
        } else {
            assert(all[i] == more[i - events.len()]);
        }
    }
}

proof fn lemma_packed(events: Seq<Json>, more: Seq<Json>)
    requires
        is_running(events),
        are_midstream(more),
    ensures
        is_encoded(events.push(packing_json()) + more, events.len() as int),
{
    let all = events.push(packing_json()) + more;
    let packed = events.len() as int;
    assert(all.take(packed) =~= events);
    assert forall|i: int| packed < i < all.len() implies is_midstream(#[trigger] all[i]) by {
        assert(all[i] == more[i - packed - 1]);
    }
}

/// A stream whose audio is encoded becomes a whole stream by the event that says that all is
/// done.
proof fn lemma_closed(events: Seq<Json>, packed: int, last: Json)
    requires
        is_encoded(events, packed),
        is_of_type(last, "Done"@),
        !is_of_type(last, "Metadata"@),
        !is_packing(last),
    ensures
        is_whole_stream(events.push(last)),
{
    let all = events.push(last);
    lemma_progress_events(None, packing_json());
    assert forall|i: int| 0 <= i < all.len() implies {
        &&& is_of_type(#[trigger] all[i], "Metadata"@) <==> i == 0
        &&& is_of_type(all[i], "Done"@) <==> i == all.len() - 1
        &&& is_packing(all[i]) <==> i == packed
    } by {
        if i < packed {
            assert(all[i] == events.take(packed)[i]);
        } else if i < events.len() {
            assert(all[i] == events[i]);
        }
    }
    assert(is_whole_with(all, packed));
}

// ---------------------------------------------------------------------------------------
// The beginning
// ---------------------------------------------------------------------------------------

/// Whether a text can be the name of a request: a random UUID, hyphenated, in lower case.
pub open spec fn is_request_id(id: Seq<char>) -> bool {
    &&& id.len() == 36
    &&& id[14] == '4'
    &&& forall|i: int|
        0 <= i < 36 ==> if i == 8 || i == 13 || i == 18 || i == 23 {
            #[trigger] id[i] == '-'
        } else {
            '0' <= id[i] <= '9' || 'a' <= id[i] <= 'f'
        }
}

/// `uuid::Uuid::new_v4`, as text. Which UUID comes is left to chance; every one has this
/// form. It panics only where the system gives no random bytes.
#[verifier::external_body]
pub(crate) fn new_request_id() -> (id: String)
    ensures
        is_request_id(id@),
{
    uuid::Uuid::new_v4().to_string()
}

/// A stream of which the first event is known, and no more.
pub struct OpenStream {
    request_id: String,
    selection: StreamArtifactSelection,
    log: Ghost<Seq<Json>>,
}

impl OpenStream {
    #[verifier::type_invariant]
    spec fn inv(self) -> bool {
        is_running(self.log@)
    }

    /// The request that is served.
    pub closed spec fn request(self) -> Seq<char> {
        self.request_id@
    }

    /// The artifacts that the client selected.
    pub closed spec fn selected(self) -> StreamArtifactSelection {
        self.selection
    }

    /// The events so far.
    pub closed spec fn sent(self) -> Seq<Json> {
        self.log@
    }

    /// The request that is served.
    pub fn request_id(&self) -> (id: &str)
        ensures
            id@ == self.request(),
    {
        self.request_id.as_str()
    }

    /// The artifacts that the client selected.
    pub fn selection(&self) -> (selection: StreamArtifactSelection)
        ensures
            selection == self.selected(),
    {
        self.selection
    }
}

/// Begins a stream for a request with the given name: the stream and its first event.
pub fn open_stream(head: &RequestHead, request_id: String) -> (opening: Result<
    (OpenStream, serde_json::Value),
    EncodeError,
>)
    ensures
        match opening {
            Ok((stream, event)) => {
                &&& StreamArtifactSelection::parsed(artifact_word(*head), Ok(stream.selected()))
                &&& stream.request() == request_id@
                &&& json_of(event) == metadata_json(request_id@, head.path@, stream.selected())
                &&& stream.sent() == seq![json_of(event)]
                &&& is_running(stream.sent())
            },
            Err(error) => StreamArtifactSelection::parsed(artifact_word(*head), Err(error)),
        },
{
    match stream_artifact_selection(head) {
        Ok(selection) => {
            let event = metadata_event(request_id.as_str(), head.path.as_str(), selection);
            proof {
                lemma_first_event(request_id@, head.path@, selection);
            }
            let ghost log = seq![json_of(event)];
            let stream = OpenStream { request_id, selection, log: Ghost(log) };
            Ok((stream, event))
        },
        Err(error) => Err(error),
    }
}

/// Begins a stream for a request, and gives the request a name.
pub fn begin_stream(head: &RequestHead) -> (opening: Result<
    (OpenStream, serde_json::Value),
    EncodeError,
>)
    ensures
        match opening {
            Ok((stream, event)) => {
                &&& StreamArtifactSelection::parsed(artifact_word(*head), Ok(stream.selected()))
                &&& is_request_id(stream.request())
                &&& json_of(event) == metadata_json(
                    stream.request(),
                    head.path@,
                    stream.selected(),
                )
                &&& stream.sent() == seq![json_of(event)]
                &&& is_running(stream.sent())
            },
            Err(error) => StreamArtifactSelection::parsed(artifact_word(*head), Err(error)),
        },
{
    open_stream(head, new_request_id())
}

// ---------------------------------------------------------------------------------------
// Samples that are encoded while they arrive
// ---------------------------------------------------------------------------------------

/// A stream whose samples are arriving.
pub struct ArrivingSamples {
    request_id: String,
    selection: StreamArtifactSelection,
    envelope: PreparedRequestEnvelope,
    upload: SampleUpload,
    ecdc: EcdcStream,
    log: Ghost<Seq<Json>>,
}

/// A stream whose samples have arrived and are being encoded.
pub struct EncodingSamples {
    request_id: String,
    selection: StreamArtifactSelection,
    program: PreparedEncodeProgram,
    ecdc: EcdcStream,
    log: Ghost<Seq<Json>>,
}

/// The program that arrived samples make: what the request did not tell follows from them.
pub open spec fn arrived_program(envelope: EnvelopeView, samples: Seq<u8>, counted: SecondsView)
    -> ProgramView {
    ProgramView {
        pcm: Seq::empty(),
        descriptor: envelope.descriptor,
        duration: match envelope.duration {
            Some(duration) => duration,
            None => counted,
        },
        quality: envelope.quality,
        audio_key: match envelope.audio_key {
            Some(key) => key,
            None => hex(
                sha256(
                    samples + samples_key_tail(
                        envelope.descriptor,
                        envelope.quality,
                        envelope.track_count,
                        envelope.gap,
                        envelope.total_gap,
                    ),
                ),
            ),
        },
        track_count: envelope.track_count,
        gap: envelope.gap,
        total_gap: envelope.total_gap,
    }
}

/// The event that a frame of an upload leads to. `told` is how many bytes the client was told
/// of before.
pub open spec fn frame_json(request_id: Seq<char>, arrived: nat, told: nat, frame: SourceFrame)
    -> Option<Json> {
    match frame {
        SourceFrame::Body(part) => if part@.len() > 0 && is_due(arrived + part@.len(), told) {
            Some(upload_progress_json(request_id, arrived + part@.len()))
        } else {
            None
        },
        SourceFrame::Finalize => Some(upload_finalize_json(request_id, arrived)),
        _ => None,
    }
}

impl ArrivingSamples {
    #[verifier::type_invariant]
    spec fn inv(self) -> bool {
        &&& self.upload.request() == self.request_id@
        &&& self.ecdc.selected() == self.selection.has_ecdc()
        &&& self.ecdc.selected() ==> self.ecdc.request() == self.request_id@
        &&& self.ecdc.bytes() == Seq::<u8>::empty()
        &&& is_running(self.log@)
    }

    /// The request that is served.
    pub closed spec fn request(self) -> Seq<char> {
        self.request_id@
    }

    /// The artifacts that the client selected.
    pub closed spec fn selected(self) -> StreamArtifactSelection {
        self.selection
    }

    /// What the request tells of the program.
    pub closed spec fn told_of(self) -> EnvelopeView {
        self.envelope@
    }

    /// The samples that have arrived.
    pub closed spec fn samples(self) -> Seq<u8> {
        self.upload.bytes()
    }

    /// The events so far.
    pub closed spec fn sent(self) -> Seq<Json> {
        self.log@
    }

    /// How many bytes the client was told of.
    pub closed spec fn told(self) -> nat {
        self.upload.told()
    }

    /// Opens a stream: the events that say that the samples are at hand and are encoded, and
    /// the start of the encoded audio, where the client selected it. `bandwidth` is that of
    /// the quality.
    pub fn open(
        stream: OpenStream,
        envelope: PreparedRequestEnvelope,
        bandwidth: serde_json::Value,
    ) -> (opened: (Self, Vec<serde_json::Value>))
        ensures
            opened.0.request() == stream.request(),
            opened.0.selected() == stream.selected(),
            opened.0.told_of() == envelope@,
            opened.0.samples() == Seq::<u8>::empty(),
            opened.0.told() == 0,
            jsons(opened.1@) == seq![
                loading_json(None),
                encoding_json(None, json_of(bandwidth)),
            ] + (if stream.selected().has_ecdc() {
                seq![
                    artifact_start_json(
                        stream.request(),
                        "ecdc"@,
                        "application/octet-stream"@,
                        None,
                    ),
                ]
            } else {
                Seq::empty()
            }),
            opened.0.sent() == stream.sent() + jsons(opened.1@),
            is_running(opened.0.sent()),
    {
        proof {
            use_type_invariant(&stream);
            lemma_progress_events(None, json_of(bandwidth));
            lemma_artifact_start(stream.request(), "ecdc"@, "application/octet-stream"@, None);
        }
        let mut events: Vec<serde_json::Value> = Vec::new();
        events.push(loading_event(None));
        events.push(encoding_event(None, bandwidth));
        assert(jsons(events@) =~= seq![
            loading_json(None),
            encoding_json(None, json_of(bandwidth)),
        ]);
        let ghost before = events@;
        let (ecdc, mut starts) = EcdcStream::open(stream.request_id.as_str(), stream.selection);
        let ghost added = starts@;
        events.append(&mut starts);
        assert(jsons(events@) =~= jsons(before) + jsons(added));
        proof {
            lemma_runs_on(stream.log@, jsons(events@));
        }
        let ghost log = stream.log@ + jsons(events@);
        let upload = SampleUpload::new(stream.request_id.as_str());
        let opened = ArrivingSamples {
            request_id: stream.request_id,
            selection: stream.selection,
            envelope,
            upload,
            ecdc,
            log: Ghost(log),
        };
        (opened, events)
    }

    /// How many bytes of samples have arrived.
    pub fn received(&self) -> (count: usize)
        ensures
            count == self.samples().len(),
    {
        self.upload.received()
    }

    /// What the request tells of the program.
    pub fn envelope(&self) -> (envelope: &PreparedRequestEnvelope)
        ensures
            envelope@ == self.told_of(),
    {
        &self.envelope
    }

    /// What a frame leads to: samples go to the encoder, and the client is told how many have
    /// arrived once enough have since it was last told.
    pub fn on_frame(self, frame: SourceFrame) -> (next: (Self, FrameStep))
        requires
            frame matches SourceFrame::Body(part) ==> self.samples().len() + part@.len()
                <= usize::MAX,
        ensures
            next.0.request() == self.request(),
            next.0.selected() == self.selected(),
            next.0.told_of() == self.told_of(),
            next.0.samples() == taken_in(self.samples(), frame),
            is_current(next.0.samples().len(), next.0.told()),
            next.0.told() == (match frame {
                SourceFrame::Body(part) => if part@.len() > 0 && is_due(
                    self.samples().len() + part@.len(),
                    self.told(),
                ) {
                    self.samples().len() + part@.len()
                } else {
                    self.told()
                },
                _ => self.told(),
            }),
            next.1.feed == (match frame {
                SourceFrame::Body(part) => if part@.len() > 0 {
                    Some(part)
                } else {
                    None
                },
                _ => None,
            }),
            event_json(next.1.event) == frame_json(
                self.request(),
                self.samples().len(),
                self.told(),
                frame,
            ),
            next.1.stop == (frame is End),
            next.0.sent() == self.sent() + noted(event_json(next.1.event)),
            is_running(next.0.sent()),
    {
        proof {
            use_type_invariant(&self);
            lemma_upload_events(self.request(), self.samples().len());
            lemma_upload_events(self.request(), taken_in(self.samples(), frame).len());
        }
        let (upload, step) = self.upload.on_frame(frame);
        proof {
            lemma_runs_on(self.log@, noted(event_json(step.event)));
        }
        let ghost log = self.log@ + noted(event_json(step.event));
        let stream = ArrivingSamples {
            request_id: self.request_id,
            selection: self.selection,
            envelope: self.envelope,
            upload,
            ecdc: self.ecdc,
            log: Ghost(log),
        };
        (stream, step)
    }

    /// The samples have arrived: the event that says so, the one that tells what was
    /// understood of the request, and the stream of what they become, or an error where
    /// there are none. `counted` is how long the samples are, and `gap_seconds` the gap
    /// between tracks.
    pub fn complete(self, counted: Seconds, gap_seconds: serde_json::Value) -> (done: Result<
        (EncodingSamples, Vec<serde_json::Value>),
        EncodeError,
    >)
        ensures
            match done {
                Ok((stream, events)) => {
                    let program = arrived_program(self.told_of(), self.samples(), counted@);
                    &&& self.samples().len() > 0
                    &&& stream.request() == self.request()
                    &&& stream.selected() == self.selected()
                    &&& stream.encodes() == program
                    &&& stream.encoded() == Seq::<u8>::empty()
                    &&& jsons(events@) == seq![
                        upload_complete_json(self.request(), self.samples().len()),
                        request_json(
                            self.request(),
                            program.track_count as nat,
                            program.quality,
                            json_of(gap_seconds),
                            program.audio_key,
                        ),
                    ]
                    &&& stream.sent() == self.sent() + jsons(events@)
                    &&& is_running(stream.sent())
                },
                Err(error) => self.samples().len() == 0 && error.is_internal(
                    "request body did not include audio bytes"@,
                ),
            },
    {
        proof {
            use_type_invariant(&self);
        }
        match self.upload.complete() {
            Err(error) => Err(error),
            Ok((complete, digest)) => {
                let program = streamed_program(self.envelope, digest, counted);
                let requested = request_event(
                    self.request_id.as_str(),
                    program.track_count,
                    program.quality,
                    gap_seconds,
                    program.audio_key.as_str(),
                );
                let mut events: Vec<serde_json::Value> = Vec::new();
                events.push(complete);
                events.push(requested);
                assert(jsons(events@) =~= seq![json_of(complete), json_of(requested)]);
                proof {
                    lemma_upload_events(self.request(), self.samples().len());
                    lemma_request_event(
                        self.request(),
                        program.track_count as nat,
                        program.quality,
                        json_of(gap_seconds),
                        program.audio_key@,
                    );
                    lemma_runs_on(self.log@, jsons(events@));
                }
                let ghost log = self.log@ + jsons(events@);
                let stream = EncodingSamples {
                    request_id: self.request_id,
                    selection: self.selection,
                    program,
                    ecdc: self.ecdc,
                    log: Ghost(log),
                };
                Ok((stream, events))
            },
        }
    }
}

impl EncodingSamples {
    #[verifier::type_invariant]
    spec fn inv(self) -> bool {
        &&& self.ecdc.selected() == self.selection.has_ecdc()
        &&& self.ecdc.selected() ==> self.ecdc.request() == self.request_id@
        &&& is_running(self.log@)
    }

    /// The request that is served.
    pub closed spec fn request(self) -> Seq<char> {
        self.request_id@
    }

    /// The artifacts that the client selected.
    pub closed spec fn selected(self) -> StreamArtifactSelection {
        self.selection
    }

    /// The program that is encoded.
    pub closed spec fn encodes(self) -> ProgramView {
        self.program@
    }

    /// What the encoder has given so far, where the client selected the encoded audio.
    pub closed spec fn encoded(self) -> Seq<u8> {
        self.ecdc.bytes()
    }

    /// The events so far.
    pub closed spec fn sent(self) -> Seq<Json> {
        self.log@
    }

    /// How much the encoder has given so far, where the client selected the encoded audio.
    pub fn encoded_bytes(&self) -> (size: usize)
        ensures
            size == self.encoded().len(),
    {
        self.ecdc.len()
    }

    /// The encoder gave more: the events that can be sent now.
    pub fn on_chunk(self, more: &[u8]) -> (next: (Self, Vec<serde_json::Value>))
        requires
            self.encoded().len() + more@.len() <= usize::MAX,
        ensures
            next.0.request() == self.request(),
            next.0.selected() == self.selected(),
            next.0.encodes() == self.encodes(),
            next.0.encoded() == (if self.selected().has_ecdc() {
                self.encoded() + more@
            } else {
                self.encoded()
            }),
            jsons(next.1@) == (if self.selected().has_ecdc() {
                piece_jsons(
                    self.request(),
                    "ecdc"@,
                    self.encoded() + more@,
                    full_pieces(self.encoded().len()) as int,
                    full_pieces(self.encoded().len() + more@.len()) as int,
                )
            } else {
                Seq::empty()
            }),
            next.0.sent() == self.sent() + jsons(next.1@),
            is_running(next.0.sent()),
    {
        proof {
            use_type_invariant(&self);
            lemma_pieces(
                self.request(),
                "ecdc"@,
                self.encoded() + more@,
                full_pieces(self.encoded().len()) as int,
                full_pieces(self.encoded().len() + more@.len()) as int,
            );
        }
        let (ecdc, events) = self.ecdc.extend(more);
        proof {
            lemma_runs_on(self.log@, jsons(events@));
        }
        let ghost log = self.log@ + jsons(events@);
        let stream = EncodingSamples {
            request_id: self.request_id,
            selection: self.selection,
            program: self.program,
            ecdc,
            log: Ghost(log),
        };
        (stream, events)
    }

    /// The encoder is done and gave `ecdc` in all. The events are to be sent first: what is
    /// left of the encoded audio, where the client selected it, and that it is packed into a
    /// picture. Then come the artifacts, with the events that carry the picture, where the
    /// client selected that, or an error where there is nothing to pack.
    pub fn finish(self, config: &AppConfig, ecdc: Vec<u8>) -> (finished: (
        Vec<serde_json::Value>,
        Result<(EncodedStream, Vec<serde_json::Value>), EncodeError>,
    ))
        requires
            ecdc@.len() <= isize::MAX,
        ensures
            jsons(finished.0@) == (if self.selected().has_ecdc() {
                piece_jsons(
                    self.request(),
                    "ecdc"@,
                    self.encoded(),
                    full_pieces(self.encoded().len()) as int,
                    piece_count(self.encoded().len()) as int,
                ).push(
                    artifact_end_json(
                        self.request(),
                        "ecdc"@,
                        piece_count(self.encoded().len()),
                        ecdc@.len(),
                    ),
                )
            } else {
                Seq::empty()
            }).push(packing_json()),
            match finished.1 {
                Ok((stream, events)) => {
                    let made = stream.made();
                    &&& ecdc@.len() > 0
                    &&& stream.request() == self.request()
                    &&& is_side_for(ecdc@.len(), made.png_side)
                    &&& made == artifacts_of(*config, self.encodes(), ecdc@, made.png_side)
                    &&& jsons(events@) == (if self.selected().has_png() {
                        artifact_jsons(self.request(), "png"@, "image/png"@, made.png)
                    } else {
                        Seq::empty()
                    })
                    &&& stream.sent() == self.sent() + jsons(finished.0@) + jsons(events@)
                },
                Err(error) => ecdc@.len() == 0 && error.is_internal("failed to encode PNG"@),
            },
    {
        proof {
            use_type_invariant(&self);
            lemma_pieces(
                self.request(),
                "ecdc"@,
                self.encoded(),
                full_pieces(self.encoded().len()) as int,
                piece_count(self.encoded().len()) as int,
            );
            lemma_artifact_end(
                self.request(),
                "ecdc"@,
                piece_count(self.encoded().len()),
                ecdc@.len(),
            );
        }
        let mut events = self.ecdc.finish(ecdc.len());
        let ghost before = jsons(events@);
        events.push(packing_event());
        assert(jsons(events@) =~= before.push(packing_json()));
        proof {
            lemma_runs_on(self.log@, before);
        }
        let ghost running = self.log@ + before;
        match build_artifacts_from_ecdc(config, &self.program, ecdc) {
            Err(error) => (events, Err(error)),
            Ok(artifacts) => {
                let picture: Vec<serde_json::Value> = if self.selection.includes_png() {
                    artifact_events(
                        self.request_id.as_str(),
                        "png",
                        "image/png",
                        artifacts.png.as_slice(),
                    )
                } else {
                    let none: Vec<serde_json::Value> = Vec::new();
                    assert(jsons(none@) =~= Seq::empty());
                    none
                };
                proof {
                    lemma_artifact(self.request(), "png"@, "image/png"@, artifacts@.png);
                    lemma_packed(running, jsons(picture@));
                }
                let ghost log = running.push(packing_json()) + jsons(picture@);
                let ghost packed = running.len() as int;
                assert(log =~= self.log@ + jsons(events@) + jsons(picture@));
                let stream = EncodedStream {
                    request_id: self.request_id,
                    artifacts,
                    log: Ghost(log),
                    packed: Ghost(packed),
                };
                (events, Ok((stream, picture)))
            },
        }
    }
}

// ---------------------------------------------------------------------------------------
// Uploads that are encoded when they are complete
// ---------------------------------------------------------------------------------------

/// A stream whose upload is arriving and is kept until it is complete.
pub struct ArrivingUpload {
    request_id: String,
    selection: StreamArtifactSelection,
    upload: BufferedUpload,
    log: Ghost<Seq<Json>>,
}

/// A stream whose upload has arrived.
pub struct ArrivedUpload {
    request_id: String,
    selection: StreamArtifactSelection,
    log: Ghost<Seq<Json>>,
}

/// A stream whose request is understood.
pub struct UnderstoodUpload {
    request_id: String,
    selection: StreamArtifactSelection,
    log: Ghost<Seq<Json>>,
}

/// A stream whose program is being encoded as a whole.
pub struct EncodingProgram {
    request_id: String,
    selection: StreamArtifactSelection,
    program: PreparedEncodeProgram,
    log: Ghost<Seq<Json>>,
}

impl ArrivingUpload {
    #[verifier::type_invariant]
    spec fn inv(self) -> bool {
        self.upload.request() == self.request_id@ && is_running(self.log@)
    }

    /// The request that is served.
    pub closed spec fn request(self) -> Seq<char> {
        self.request_id@
    }

    /// The artifacts that the client selected.
    pub closed spec fn selected(self) -> StreamArtifactSelection {
        self.selection
    }

    /// The bytes that have arrived.
    pub closed spec fn bytes(self) -> Seq<u8> {
        self.upload.bytes()
    }

    /// How many bytes the client was told of.
    pub closed spec fn told(self) -> nat {
        self.upload.told()
    }

    /// The events so far.
    pub closed spec fn sent(self) -> Seq<Json> {
        self.log@
    }

    /// A stream of whose upload nothing has arrived.
    pub fn open(stream: OpenStream) -> (opened: Self)
        ensures
            opened.request() == stream.request(),
            opened.selected() == stream.selected(),
            opened.bytes() == Seq::<u8>::empty(),
            opened.told() == 0,
            opened.sent() == stream.sent(),
            is_running(opened.sent()),
    {
        proof {
            use_type_invariant(&stream);
        }
        let upload = BufferedUpload::new(stream.request_id.as_str());
        ArrivingUpload {
            request_id: stream.request_id,
            selection: stream.selection,
            upload,
            log: stream.log,
        }
    }

    /// What a frame leads to: a part of the body is kept, and the client is told how much has
    /// arrived once enough has since it was last told.
    pub fn on_frame(self, frame: SourceFrame) -> (next: (Self, FrameStep))
        ensures
            next.0.request() == self.request(),
            next.0.selected() == self.selected(),
            next.0.bytes() == taken_in(self.bytes(), frame),
            is_current(next.0.bytes().len(), next.0.told()),
            next.0.told() == (match frame {
                SourceFrame::Body(part) => if is_due(
                    self.bytes().len() + part@.len(),
                    self.told(),
                ) {
                    self.bytes().len() + part@.len()
                } else {
                    self.told()
                },
                _ => self.told(),
            }),
            next.1.feed is None,
            event_json(next.1.event) == (match frame {
                SourceFrame::Body(part) => if is_due(
                    self.bytes().len() + part@.len(),
                    self.told(),
                ) {
                    Some(
                        upload_progress_json(self.request(), self.bytes().len() + part@.len()),
                    )
                } else {
                    None
                },
                SourceFrame::Finalize => Some(
                    upload_finalize_json(self.request(), self.bytes().len()),
                ),
                _ => None,
            }),
            next.1.stop == (frame is End),
            next.0.sent() == self.sent() + noted(event_json(next.1.event)),
            is_running(next.0.sent()),
    {
        proof {
            use_type_invariant(&self);
            lemma_upload_events(self.request(), self.bytes().len());
            lemma_upload_events(self.request(), taken_in(self.bytes(), frame).len());
        }
        let (upload, step) = self.upload.on_frame(frame);
        proof {
            lemma_runs_on(self.log@, noted(event_json(step.event)));
        }
        let ghost log = self.log@ + noted(event_json(step.event));
        let stream = ArrivingUpload {
            request_id: self.request_id,
            selection: self.selection,
            upload,
            log: Ghost(log),
        };
        (stream, step)
    }

    /// The upload has arrived: its body and the event that says so, or an error where there is
    /// none.
    pub fn complete(self) -> (done: Result<
        (ArrivedUpload, Vec<u8>, serde_json::Value),
        EncodeError,
    >)
        ensures
            match done {
                Ok((stream, body, event)) => {
                    &&& self.bytes().len() > 0
                    &&& stream.request() == self.request()
                    &&& stream.selected() == self.selected()
                    &&& body@ == self.bytes()
                    &&& json_of(event) == upload_complete_json(self.request(), self.bytes().len())
                    &&& stream.sent() == self.sent().push(json_of(event))
                    &&& is_running(stream.sent())
                },
                Err(error) => self.bytes().len() == 0 && error.is_internal(
                    "request body did not include audio bytes"@,
                ),
            },
    {
        proof {
            use_type_invariant(&self);
            lemma_upload_events(self.request(), self.bytes().len());
        }
        match self.upload.complete() {
            Err(error) => Err(error),
            Ok((body, event)) => {
                let ghost log = self.log@.push(json_of(event));
                proof {
                    lemma_runs_on(self.log@, seq![json_of(event)]);
                    assert(log =~= self.log@ + seq![json_of(event)]);
                }
                let stream = ArrivedUpload {
                    request_id: self.request_id,
                    selection: self.selection,
                    log: Ghost(log),
                };
                Ok((stream, body, event))
            },
        }
    }
}

impl ArrivedUpload {
    #[verifier::type_invariant]
    spec fn inv(self) -> bool {
        is_running(self.log@)
    }

    /// The request that is served.
    pub closed spec fn request(self) -> Seq<char> {
        self.request_id@
    }

    /// The artifacts that the client selected.
    pub closed spec fn selected(self) -> StreamArtifactSelection {
        self.selection
    }

    /// The events so far.
    pub closed spec fn sent(self) -> Seq<Json> {
        self.log@
    }

    /// The request is understood: the event that tells so.
    pub fn understood(self, parsed: &ParsedEncodeRequest, gap_seconds: serde_json::Value) -> (next:
        (UnderstoodUpload, serde_json::Value))
        ensures
            next.0.request() == self.request(),
            next.0.selected() == self.selected(),
            json_of(next.1) == request_json(
                self.request(),
                parsed.files@.len(),
                parsed.quality,
                json_of(gap_seconds),
                parsed.audio_key@,
            ),
            next.0.sent() == self.sent().push(json_of(next.1)),
            is_running(next.0.sent()),
    {
        proof {
            use_type_invariant(&self);
            lemma_request_event(
                self.request(),
                parsed.files@.len(),
                parsed.quality,
                json_of(gap_seconds),
                parsed.audio_key@,
            );
        }
        let event = parsed_event(self.request_id.as_str(), parsed, gap_seconds);
        let ghost log = self.log@.push(json_of(event));
        proof {
            lemma_runs_on(self.log@, seq![json_of(event)]);
            assert(log =~= self.log@ + seq![json_of(event)]);
        }
        let stream = UnderstoodUpload {
            request_id: self.request_id,
            selection: self.selection,
            log: Ghost(log),
        };
        (stream, event)
    }
}

impl UnderstoodUpload {
    #[verifier::type_invariant]
    spec fn inv(self) -> bool {
        is_running(self.log@)
    }

    /// The request that is served.
    pub closed spec fn request(self) -> Seq<char> {
        self.request_id@
    }

    /// The artifacts that the client selected.
    pub closed spec fn selected(self) -> StreamArtifactSelection {
        self.selection
    }

    /// The events so far.
    pub closed spec fn sent(self) -> Seq<Json> {
        self.log@
    }

    /// The program is prepared and is going to be encoded: the events that say so. Both
    /// durations are that of the program, and `bandwidth` is that of its quality.
    pub fn prepared(
        self,
        program: PreparedEncodeProgram,
        loading_duration: serde_json::Value,
        encoding_duration: serde_json::Value,
        bandwidth: serde_json::Value,
    ) -> (next: (EncodingProgram, Vec<serde_json::Value>))
        ensures
            next.0.request() == self.request(),
            next.0.selected() == self.selected(),
            next.0.encodes() == program@,
            jsons(next.1@) == seq![
                loading_json(Some(json_of(loading_duration))),
                encoding_json(Some(json_of(encoding_duration)), json_of(bandwidth)),
            ],
            next.0.sent() == self.sent() + jsons(next.1@),
            is_running(next.0.sent()),
    {
        proof {
            use_type_invariant(&self);
            lemma_progress_events(Some(json_of(loading_duration)), json_of(bandwidth));
            lemma_progress_events(Some(json_of(encoding_duration)), json_of(bandwidth));
        }
        let events = program_opening_events(loading_duration, encoding_duration, bandwidth);
        proof {
            lemma_runs_on(self.log@, jsons(events@));
        }
        let ghost log = self.log@ + jsons(events@);
        let stream = EncodingProgram {
            request_id: self.request_id,
            selection: self.selection,
            program,
            log: Ghost(log),
        };
        (stream, events)
    }
}

impl EncodingProgram {
    #[verifier::type_invariant]
    spec fn inv(self) -> bool {
        is_running(self.log@)
    }

    /// The request that is served.
    pub closed spec fn request(self) -> Seq<char> {
        self.request_id@
    }

    /// The artifacts that the client selected.
    pub closed spec fn selected(self) -> StreamArtifactSelection {
        self.selection
    }

    /// The program that is encoded.
    pub closed spec fn encodes(self) -> ProgramView {
        self.program@
    }

    /// The events so far.
    pub closed spec fn sent(self) -> Seq<Json> {
        self.log@
    }

    /// The program that is encoded.
    pub fn program(&self) -> (program: &PreparedEncodeProgram)
        ensures
            program@ == self.encodes(),
    {
        &self.program
    }

    /// The encoder is done and gave `ecdc`. The event is to be sent first: that it is packed
    /// into a picture. Then come the artifacts, with the events that carry those that the
    /// client selected, or an error where there is nothing to pack.
    pub fn finish(self, config: &AppConfig, ecdc: Vec<u8>) -> (finished: (
        serde_json::Value,
        Result<(EncodedStream, Vec<serde_json::Value>), EncodeError>,
    ))
        requires
            ecdc@.len() <= isize::MAX,
        ensures
            json_of(finished.0) == packing_json(),
            match finished.1 {
                Ok((stream, events)) => {
                    let made = stream.made();
                    &&& ecdc@.len() > 0
                    &&& stream.request() == self.request()
                    &&& is_side_for(ecdc@.len(), made.png_side)
                    &&& made == artifacts_of(*config, self.encodes(), ecdc@, made.png_side)
                    &&& jsons(events@) == selected_jsons(
                        self.request(),
                        self.selected(),
                        ecdc@,
                        made.png,
                    )
                    &&& stream.sent() == self.sent().push(packing_json()) + jsons(events@)
                },
                Err(error) => ecdc@.len() == 0 && error.is_internal("failed to encode PNG"@),
            },
    {
        proof {
            use_type_invariant(&self);
        }
        let packing = packing_event();
        match build_artifacts_from_ecdc(config, &self.program, ecdc) {
            Err(error) => (packing, Err(error)),
            Ok(artifacts) => {
                let events = stream_artifacts(self.request_id.as_str(), self.selection, &artifacts);
                proof {
                    lemma_selected(self.request(), self.selection, artifacts@.ecdc, artifacts@.png);
                    lemma_packed(self.log@, jsons(events@));
                }
                let ghost log = self.log@.push(packing_json()) + jsons(events@);
                let ghost packed = self.log@.len() as int;
                let stream = EncodedStream {
                    request_id: self.request_id,
                    artifacts,
                    log: Ghost(log),
                    packed: Ghost(packed),
                };
                (packing, Ok((stream, events)))
            },
        }
    }
}

// ---------------------------------------------------------------------------------------
// The end
// ---------------------------------------------------------------------------------------

/// A stream whose audio is encoded and whose artifacts are sent.
pub struct EncodedStream {
    request_id: String,
    artifacts: EncodeArtifacts,
    log: Ghost<Seq<Json>>,
    packed: Ghost<int>,
}

impl EncodedStream {
    #[verifier::type_invariant]
    spec fn inv(self) -> bool {
        is_encoded(self.log@, self.packed@)
    }

    /// The request that is served.
    pub closed spec fn request(self) -> Seq<char> {
        self.request_id@
    }

    /// What the encoding gave.
    pub closed spec fn made(self) -> ArtifactsView {
        self.artifacts@
    }

    /// The events so far.
    pub closed spec fn sent(self) -> Seq<Json> {
        self.log@
    }

    /// What the encoding gave.
    pub fn artifacts(&self) -> (artifacts: &EncodeArtifacts)
        ensures
            artifacts@ == self.made(),
    {
        &self.artifacts
    }

    /// Closes the stream: its last event. With it the stream is whole, so the events came in
    /// their order.
    pub fn close(self, duration: serde_json::Value) -> (event: serde_json::Value)
        ensures
            json_of(event) == done_json(
                self.request(),
                Json::Object(header_members(response_lines(self.made()))),
                json_of(duration),
                self.made().png_side,
                self.made().ecdc.len(),
            ),
            is_whole_stream(self.sent().push(json_of(event))),
    {
        let event = closing_event(self.request_id.as_str(), &self.artifacts, duration);
        proof {
            use_type_invariant(&self);
            lemma_last_event(
                self.request(),
                Json::Object(header_members(response_lines(self.made()))),
                json_of(duration),
                self.made().png_side,
                self.made().ecdc.len(),
            );
            lemma_closed(self.log@, self.packed@, json_of(event));
        }
        event
    }
}

// ---------------------------------------------------------------------------------------
// Events of a stream
// ---------------------------------------------------------------------------------------

/// The event that tells what was understood of a request.
pub fn parsed_event(
    request_id: &str,
    parsed: &ParsedEncodeRequest,
    gap_seconds: serde_json::Value,
) -> (event: serde_json::Value)
    ensures
        json_of(event) == request_json(
            request_id@,
            parsed.files@.len(),
            parsed.quality,
            json_of(gap_seconds),
            parsed.audio_key@,
        ),
{
    request_event(
        request_id,
        parsed.files.len(),
        parsed.quality,
        gap_seconds,
        parsed.audio_key.as_str(),
    )
}

/// The events with which the encoding of a whole program begins. Both durations are that of
/// the program, and `bandwidth` is that of its quality.
pub fn program_opening_events(
    loading_duration: serde_json::Value,
    encoding_duration: serde_json::Value,
    bandwidth: serde_json::Value,
) -> (events: Vec<serde_json::Value>)
    ensures
        jsons(events@) == seq![
            loading_json(Some(json_of(loading_duration))),
            encoding_json(Some(json_of(encoding_duration)), json_of(bandwidth)),
        ],
{
    let mut events: Vec<serde_json::Value> = Vec::new();
    events.push(loading_event(Some(loading_duration)));
    events.push(encoding_event(Some(encoding_duration), bandwidth));
    assert(jsons(events@) =~= seq![
        loading_json(Some(json_of(loading_duration))),
        encoding_json(Some(json_of(encoding_duration)), json_of(bandwidth)),
    ]);
    events
}

/// The events that carry the artifacts that the client selected.
pub fn stream_artifacts(
    request_id: &str,
    selection: StreamArtifactSelection,
    artifacts: &EncodeArtifacts,
) -> (events: Vec<serde_json::Value>)
    ensures
        jsons(events@) == selected_jsons(
            request_id@,
            selection,
            artifacts@.ecdc,
            artifacts@.png,
        ),
{
    selected_events(request_id, selection, artifacts.ecdc.as_slice(), artifacts.png.as_slice())
}

/// The last event of a stream: the header lines that an answer as a whole would have, and
/// the sizes of what was made.
pub fn closing_event(
    request_id: &str,
    artifacts: &EncodeArtifacts,
    duration: serde_json::Value,
) -> (event: serde_json::Value)
    ensures
        json_of(event) == done_json(
            request_id@,
            Json::Object(header_members(response_lines(artifacts@))),
            json_of(duration),
            artifacts@.png_side,
            artifacts@.ecdc.len(),
        ),
{
    let lines = response_headers(artifacts);
    let meta = headers_to_json(lines.as_slice());
    done_event(request_id, meta, duration, artifacts.png_side, artifacts.ecdc.len())
}

/// The program that arrived samples make is the one that the worker was told of: what it was
/// told is kept, all of it, and only a duration or a key that it was not told comes from the
/// samples.
pub proof fn what_was_told_is_kept(
    envelope: EnvelopeView,
    samples: Seq<u8>,
    counted: SecondsView,
)
    ensures
        ({
            let program = arrived_program(envelope, samples, counted);
            let told = program.envelope();
            &&& told.descriptor == envelope.descriptor
            &&& told.quality == envelope.quality
            &&& told.track_count == envelope.track_count
            &&& told.gap == envelope.gap
            &&& told.total_gap == envelope.total_gap
            &&& envelope.duration is Some ==> told.duration == envelope.duration
            &&& envelope.duration is None ==> program.duration == counted
            &&& envelope.audio_key is Some ==> told.audio_key == envelope.audio_key
        }),
{
}

/// Where the key of samples is not told, it is the digest of the samples and of how they are
/// encoded, so that it is the same only where the digest of these is: the standard and the high
/// quality of the same samples are digested from different bytes.
pub proof fn untold_keys_are_digests(
    envelope: EnvelopeView,
    samples: Seq<u8>,
    counted: SecondsView,
    other: EncodeQuality,
)
    requires
        envelope.audio_key is None,
    ensures
        exists|taken_in: Seq<u8>, others: Seq<u8>|
            {
                &&& samples.is_prefix_of(taken_in)
                &&& samples.is_prefix_of(others)
                &&& (taken_in == others <==> envelope.quality == other)
                &&& arrived_program(envelope, samples, counted).audio_key == hex(
                    #[trigger] sha256(taken_in),
                )
                &&& arrived_program(
                    EnvelopeView { quality: other, ..envelope },
                    samples,
                    counted,
                ).audio_key == hex(#[trigger] sha256(others))
            },
{
    let tail = samples_key_tail(
        envelope.descriptor,
        envelope.quality,
        envelope.track_count,
        envelope.gap,
        envelope.total_gap,
    );
    let other_tail = samples_key_tail(
        envelope.descriptor,
        other,
        envelope.track_count,
        envelope.gap,
        envelope.total_gap,
    );
    keys_tell_encodings_apart(
        envelope.descriptor,
        envelope.quality,
        envelope.track_count,
        envelope.gap,
        envelope.total_gap,
        other,
        envelope.track_count,
        envelope.gap,
        envelope.total_gap,
    );
    let taken_in = samples + tail;
    let others = samples + other_tail;
    assert(taken_in.subrange(0, samples.len() as int) =~= samples);
    assert(others.subrange(0, samples.len() as int) =~= samples);
    if taken_in == others {
        let none = Seq::<u8>::empty();
        assert(samples + tail + none =~= taken_in);
        assert(samples + other_tail + none =~= others);
        lemma_same_middle(samples, tail, other_tail, none);
    }
    assert(arrived_program(envelope, samples, counted).audio_key == hex(sha256(taken_in)));
    assert(arrived_program(
        EnvelopeView { quality: other, ..envelope },
        samples,
        counted,
    ).audio_key == hex(sha256(others)));
}

/// While an upload arrives the client is told, of all that has arrived, when enough has since it
/// was last told, and whenever it asks to finalize; nothing else that comes is told.
pub proof fn frames_tell_how_much_has_arrived(
    request_id: Seq<char>,
    arrived: nat,
    told: nat,
    frame: SourceFrame,
)
    ensures
        ({
            let event = frame_json(request_id, arrived, told, frame);
            match frame {
                SourceFrame::Body(part) => {
                    let now = arrived + part@.len();
                    &&& event is Some <==> part@.len() > 0 && now - told >= 1024 * 1024
                    &&& event is Some ==> member(event->Some_0, "bytes_received"@) == Some(
                        Json::Count(now),
                    )
                },
                SourceFrame::Finalize => {
                    &&& event is Some
                    &&& member(event->Some_0, "bytes_received"@) == Some(Json::Count(arrived))
                },
                _ => event is None,
            }
        }),
{
    uploads_are_told(request_id, arrived);
    if let SourceFrame::Body(part) = frame {
        uploads_are_told(request_id, arrived + part@.len());
    }
}

} // verus!
