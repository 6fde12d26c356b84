//! The events of a streamed encoding: JSON objects, one to a line.

use crate::error::{internal_error, EncodeError};
use crate::json::{
    json_bytes, json_insert, json_map, json_members, json_object, json_of, json_text, json_to_vec,
    no_members, put_count, put_flag, put_text, put_value, Json,
};
use crate::options::{EncodeQuality, StreamArtifactSelection};
use crate::text::pair_views;
use base64::Engine;
use vstd::prelude::*;
use vstd::utf8::*;

verus! {

/// Bytes in base64, with the standard alphabet and padding.
pub uninterp spec fn base64_form(bytes: Seq<u8>) -> Seq<char>;

/// `base64::engine::general_purpose::STANDARD.encode`. Four characters stand for three bytes, so
/// the text of more bytes than are admitted here would be larger than any allocation.
#[verifier::external_body]
pub(crate) fn base64_text(bytes: &[u8]) -> (text: String)
    requires
        bytes@.len() <= isize::MAX / 4 * 3,
    ensures
        text@ == base64_form(bytes@),
{
    base64::engine::general_purpose::STANDARD.encode(bytes)
}

// ---------------------------------------------------------------------------------------
// Lines
// ---------------------------------------------------------------------------------------

/// The line that carries an event: its compact JSON form and a line feed.
pub open spec fn line_of(event: Json) -> Seq<u8> {
    json_bytes(event).push(0x0a)
}

/// What is known of the JSON form of an event: it is text, it is not empty, and no control
/// character stands in it.
pub open spec fn is_line_content(bytes: Seq<u8>) -> bool {
    &&& bytes.len() > 0
    &&& valid_utf8(bytes)
    &&& forall|i: int| 0 <= i < bytes.len() ==> #[trigger] bytes[i] >= 0x20
}

/// The line that carries an event.
pub fn event_line(event: &serde_json::Value) -> (line: Result<Vec<u8>, EncodeError>)
    ensures
        line is Ok,
        line->Ok_0@ == line_of(json_of(*event)),
        is_line_content(json_bytes(json_of(*event))),
{
    match json_to_vec(event) {
        Ok(bytes) => {
            let mut line = bytes;
            line.push(10u8);
            Ok(line)
        },
        Err(_) => Err(internal_error("failed to serialize streaming event")),
    }
}

// ---------------------------------------------------------------------------------------
// Events
// ---------------------------------------------------------------------------------------

/// The first event of a stream: what is going to be sent.
pub open spec fn metadata_json(
    request_id: Seq<char>,
    path: Seq<char>,
    artifact: StreamArtifactSelection,
) -> Json {
    Json::Object(
        map![
            "type"@ => Json::Text("Metadata"@),
            "request_id"@ => Json::Text(request_id),
            "path"@ => Json::Text(path),
            "artifact"@ => Json::Text(artifact.word()),
        ],
    )
}

/// The first event of a stream.
pub fn metadata_event(
    request_id: &str,
    path: &str,
    artifact: StreamArtifactSelection,
) -> (event: serde_json::Value)
    ensures
        json_of(event) == metadata_json(request_id@, path@, artifact),
{
    let mut map = json_map();
    put_text(&mut map, "type", "Metadata");
    put_text(&mut map, "request_id", request_id);
    put_text(&mut map, "path", path);
    put_text(&mut map, "artifact", artifact.as_str());
    json_object(map)
}

/// How much of an upload has arrived.
pub open spec fn upload_progress_json(request_id: Seq<char>, received: nat) -> Json {
    Json::Object(
        map![
            "type"@ => Json::Text("UploadProgress"@),
            "request_id"@ => Json::Text(request_id),
            "bytes_received"@ => Json::Count(received),
        ],
    )
}

/// How much of an upload has arrived.
pub fn upload_progress_event(request_id: &str, received: usize) -> (event: serde_json::Value)
    ensures
        json_of(event) == upload_progress_json(request_id@, received as nat),
{
    let mut map = json_map();
    put_text(&mut map, "type", "UploadProgress");
    put_text(&mut map, "request_id", request_id);
    put_count(&mut map, "bytes_received", received);
    json_object(map)
}

/// How much of an upload had arrived when the client asked to finalize it.
pub open spec fn upload_finalize_json(request_id: Seq<char>, received: nat) -> Json {
    Json::Object(
        map![
            "type"@ => Json::Text("UploadProgress"@),
            "request_id"@ => Json::Text(request_id),
            "bytes_received"@ => Json::Count(received),
            "finalize"@ => Json::Flag(true),
        ],
    )
}

/// How much of an upload had arrived when the client asked to finalize it.
pub fn upload_finalize_event(request_id: &str, received: usize) -> (event: serde_json::Value)
    ensures
        json_of(event) == upload_finalize_json(request_id@, received as nat),
{
    let mut map = json_map();
    put_text(&mut map, "type", "UploadProgress");
    put_text(&mut map, "request_id", request_id);
    put_count(&mut map, "bytes_received", received);
    put_flag(&mut map, "finalize", true);
    json_object(map)
}

/// The upload has arrived.
pub open spec fn upload_complete_json(request_id: Seq<char>, received: nat) -> Json {
    Json::Object(
        map![
            "type"@ => Json::Text("UploadComplete"@),
            "request_id"@ => Json::Text(request_id),
            "bytes_received"@ => Json::Count(received),
        ],
    )
}

/// The upload has arrived.
pub fn upload_complete_event(request_id: &str, received: usize) -> (event: serde_json::Value)
    ensures
        json_of(event) == upload_complete_json(request_id@, received as nat),
{
    let mut map = json_map();
    put_text(&mut map, "type", "UploadComplete");
    put_text(&mut map, "request_id", request_id);
    put_count(&mut map, "bytes_received", received);
    json_object(map)
}

/// What was understood of the request.
pub open spec fn request_json(
    request_id: Seq<char>,
    track_count: nat,
    quality: EncodeQuality,
    gap_seconds: Json,
    audio_key: Seq<char>,
) -> Json {
    Json::Object(
        map![
            "type"@ => Json::Text("Request"@),
            "request_id"@ => Json::Text(request_id),
            "track_count"@ => Json::Count(track_count),
            "quality"@ => Json::Text(quality.word()),
            "gap_seconds"@ => gap_seconds,
            "audio_key"@ => Json::Text(audio_key),
        ],
    )
}

/// What was understood of the request.
pub fn request_event(
    request_id: &str,
    track_count: usize,
    quality: EncodeQuality,
    gap_seconds: serde_json::Value,
    audio_key: &str,
) -> (event: serde_json::Value)
    ensures
        json_of(event) == request_json(
            request_id@,
            track_count as nat,
            quality,
            json_of(gap_seconds),
            audio_key@,
        ),
{
    let mut map = json_map();
    put_text(&mut map, "type", "Request");
    put_text(&mut map, "request_id", request_id);
    put_count(&mut map, "track_count", track_count);
    put_text(&mut map, "quality", quality.as_str());
    put_value(&mut map, "gap_seconds", gap_seconds);
    put_text(&mut map, "audio_key", audio_key);
    json_object(map)
}

/// A step of the work: the members that every such event has.
pub open spec fn progress_members(status: Seq<char>, message: Seq<char>) -> Map<Seq<char>, Json> {
    map![
        "type"@ => Json::Text("Progress"@),
        "status"@ => Json::Text(status),
        "msg"@ => Json::Text(message),
    ]
}

fn progress_map(status: &str, message: &str) -> (map: serde_json::Map<String, serde_json::Value>)
    ensures
        json_members(map) == progress_members(status@, message@),
{
    let mut map = json_map();
    put_text(&mut map, "type", "Progress");
    put_text(&mut map, "status", status);
    put_text(&mut map, "msg", message);
    map
}

/// The audio is at hand. The duration is told where it is known.
pub open spec fn loading_json(duration: Option<Json>) -> Json {
    let members = progress_members("loading"@, "Prepared canonical stereo PCM"@);
    match duration {
        Some(duration) => Json::Object(members.insert("duration"@, duration)),
        None => Json::Object(members),
    }
}

/// The audio is at hand.
pub fn loading_event(duration: Option<serde_json::Value>) -> (event: serde_json::Value)
    ensures
        json_of(event) == loading_json(
            match duration {
                Some(duration) => Some(json_of(duration)),
                None => None,
            },
        ),
{
    let mut map = progress_map("loading", "Prepared canonical stereo PCM");
    if let Some(duration) = duration {
        put_value(&mut map, "duration", duration);
    }
    json_object(map)
}

/// The encoding begins. The duration is told where it is known.
pub open spec fn encoding_json(duration: Option<Json>, bandwidth: Json) -> Json {
    let members = progress_members("encoding"@, "Encoding with EnCodec..."@);
    match duration {
        Some(duration) => Json::Object(
            members.insert("duration"@, duration).insert("bandwidthKbps"@, bandwidth),
        ),
        None => Json::Object(members.insert("bandwidthKbps"@, bandwidth)),
    }
}

/// The encoding begins.
pub fn encoding_event(
    duration: Option<serde_json::Value>,
    bandwidth: serde_json::Value,
) -> (event: serde_json::Value)
    ensures
        json_of(event) == encoding_json(
            match duration {
                Some(duration) => Some(json_of(duration)),
                None => None,
            },
            json_of(bandwidth),
        ),
{
    let mut map = progress_map("encoding", "Encoding with EnCodec...");
    if let Some(duration) = duration {
        put_value(&mut map, "duration", duration);
    }
    put_value(&mut map, "bandwidthKbps", bandwidth);
    json_object(map)
}

/// The encoded audio is packed into a picture.
pub open spec fn packing_json() -> Json {
    Json::Object(progress_members("packing"@, "Packing bytes to RGB..."@))
}

/// The encoded audio is packed into a picture.
pub fn packing_event() -> (event: serde_json::Value)
    ensures
        json_of(event) == packing_json(),
{
    json_object(progress_map("packing", "Packing bytes to RGB..."))
}

/// The last event of a stream.
pub open spec fn done_json(
    request_id: Seq<char>,
    meta: Json,
    duration: Json,
    png_size: nat,
    ecdc_bytes: nat,
) -> Json {
    Json::Object(
        map![
            "type"@ => Json::Text("Done"@),
            "request_id"@ => Json::Text(request_id),
            "cached"@ => Json::Flag(false),
            "meta"@ => meta,
            "duration"@ => duration,
            "png_size"@ => Json::Count(png_size),
            "ecdc_bytes"@ => Json::Count(ecdc_bytes),
        ],
    )
}

/// The last event of a stream.
pub fn done_event(
    request_id: &str,
    meta: serde_json::Value,
    duration: serde_json::Value,
    png_size: usize,
    ecdc_bytes: usize,
) -> (event: serde_json::Value)
    ensures
        json_of(event) == done_json(
            request_id@,
            json_of(meta),
            json_of(duration),
            png_size as nat,
            ecdc_bytes as nat,
        ),
{
    let mut map = json_map();
    put_text(&mut map, "type", "Done");
    put_text(&mut map, "request_id", request_id);
    put_flag(&mut map, "cached", false);
    put_value(&mut map, "meta", meta);
    put_value(&mut map, "duration", duration);
    put_count(&mut map, "png_size", png_size);
    put_count(&mut map, "ecdc_bytes", ecdc_bytes);
    json_object(map)
}

/// An artifact begins. Its size is told where it is known.
pub open spec fn artifact_start_json(
    request_id: Seq<char>,
    name: Seq<char>,
    content_type: Seq<char>,
    size: Option<nat>,
) -> Json {
    let members = map![
        "type"@ => Json::Text("ArtifactStart"@),
        "request_id"@ => Json::Text(request_id),
        "name"@ => Json::Text(name),
        "content_type"@ => Json::Text(content_type),
        "encoding"@ => Json::Text("base64"@),
    ];
    match size {
        Some(size) => Json::Object(members.insert("size_bytes"@, Json::Count(size))),
        None => Json::Object(members),
    }
}

/// An artifact begins.
pub fn artifact_start_event(
    request_id: &str,
    name: &str,
    content_type: &str,
    size: Option<usize>,
) -> (event: serde_json::Value)
    ensures
        json_of(event) == artifact_start_json(
            request_id@,
            name@,
            content_type@,
            match size {
                Some(size) => Some(size as nat),
                None => None,
            },
        ),
{
    let mut map = json_map();
    put_text(&mut map, "type", "ArtifactStart");
    put_text(&mut map, "request_id", request_id);
    put_text(&mut map, "name", name);
    put_text(&mut map, "content_type", content_type);
    put_text(&mut map, "encoding", "base64");
    if let Some(size) = size {
        put_count(&mut map, "size_bytes", size);
    }
    json_object(map)
}

/// A piece of an artifact.
pub open spec fn artifact_chunk_json(
    request_id: Seq<char>,
    name: Seq<char>,
    index: nat,
    bytes: Seq<u8>,
) -> Json {
    Json::Object(
        map![
            "type"@ => Json::Text("ArtifactChunk"@),
            "request_id"@ => Json::Text(request_id),
            "name"@ => Json::Text(name),
            "index"@ => Json::Count(index),
            "data"@ => Json::Text(base64_form(bytes)),
        ],
    )
}

/// A piece of an artifact.
pub fn artifact_chunk_event(
    request_id: &str,
    name: &str,
    index: usize,
    bytes: &[u8],
) -> (event: serde_json::Value)
    requires
        bytes@.len() <= isize::MAX / 4 * 3,
    ensures
        json_of(event) == artifact_chunk_json(request_id@, name@, index as nat, bytes@),
{
    let mut map = json_map();
    put_text(&mut map, "type", "ArtifactChunk");
    put_text(&mut map, "request_id", request_id);
    put_text(&mut map, "name", name);
    put_count(&mut map, "index", index);
    put_text(&mut map, "data", base64_text(bytes).as_str());
    json_object(map)
}

/// An artifact ends.
pub open spec fn artifact_end_json(
    request_id: Seq<char>,
    name: Seq<char>,
    chunks: nat,
    size: nat,
) -> Json {
    Json::Object(
        map![
            "type"@ => Json::Text("ArtifactEnd"@),
            "request_id"@ => Json::Text(request_id),
            "name"@ => Json::Text(name),
            "chunks"@ => Json::Count(chunks),
            "size_bytes"@ => Json::Count(size),
        ],
    )
}

/// An artifact ends.
pub fn artifact_end_event(
    request_id: &str,
    name: &str,
    chunks: usize,
    size: usize,
) -> (event: serde_json::Value)
    ensures
        json_of(event) == artifact_end_json(request_id@, name@, chunks as nat, size as nat),
{
    let mut map = json_map();
    put_text(&mut map, "type", "ArtifactEnd");
    put_text(&mut map, "request_id", request_id);
    put_text(&mut map, "name", name);
    put_count(&mut map, "chunks", chunks);
    put_count(&mut map, "size_bytes", size);
    json_object(map)
}

/// The members of the object that header lines make: a name that comes twice keeps the
/// value that comes last.
pub open spec fn header_members(lines: Seq<(Seq<char>, Seq<char>)>) -> Map<Seq<char>, Json>
    decreases lines.len(),
{
    if lines.len() == 0 {
        no_members()
    } else {
        header_members(lines.drop_last()).insert(lines.last().0, Json::Text(lines.last().1))
    }
}

/// Header lines with different names are all members of the object that they make.
pub proof fn member_is_kept(lines: Seq<(Seq<char>, Seq<char>)>, index: int)
    requires
        0 <= index < lines.len(),
        forall|i: int, j: int|
            0 <= i < j < lines.len() ==> (#[trigger] lines[i]).0 != (#[trigger] lines[j]).0,
    ensures
        header_members(lines).contains_key(lines[index].0),
        header_members(lines)[lines[index].0] == Json::Text(lines[index].1),
    decreases lines.len(),
{
    if index < lines.len() - 1 {
        let before = lines.drop_last();
        assert forall|i: int, j: int| 0 <= i < j < before.len() implies (#[trigger] before[i]).0
            != (#[trigger] before[j]).0 by {
            assert(before[i] == lines[i]);
            assert(before[j] == lines[j]);
        }
        member_is_kept(before, index);
        assert(lines.last() == lines[lines.len() - 1]);
        assert(lines[index].0 != lines[lines.len() - 1].0);
    }
}

/// Header lines as a JSON object of strings.
pub fn headers_to_json(headers: &[(String, String)]) -> (object: serde_json::Value)
    ensures
        json_of(object) == Json::Object(header_members(pair_views(headers@))),
{
    let ghost views = pair_views(headers@);
    let mut map = json_map();
    let mut i: usize = 0;
    while i < headers.len()
        invariant
            i <= headers@.len(),
            views == pair_views(headers@),
            json_members(map) == header_members(views.take(i as int)),
        decreases headers@.len() - i,
    {
        let line = &headers[i];
        json_insert(&mut map, line.0.clone(), json_text(line.1.clone()));
        assert(views.take(i + 1).drop_last() =~= views.take(i as int));
        assert(views.take(i + 1).last() == (line.0@, line.1@));
        i = i + 1;
    }
    assert(views.take(i as int) =~= views);
    json_object(map)
}

// ---------------------------------------------------------------------------------------
// What events tell
// ---------------------------------------------------------------------------------------

/// A member of an event, if it has one with this name.
pub open spec fn member(event: Json, name: Seq<char>) -> Option<Json> {
    match event {
        Json::Object(members) => if members.contains_key(name) {
            Some(members[name])
        } else {
            None
        },
        _ => None,
    }
}

/// Whether a word has the given first letter and length.
spec fn begins(word: Seq<char>, first: char, length: nat) -> bool {
    word.len() == length && word[0] == first
}

/// The first event of a stream tells the request, its path, and by its word which artifacts are
/// going to be sent.
pub proof fn openings_tell_the_selection(
    request_id: Seq<char>,
    path: Seq<char>,
    artifact: StreamArtifactSelection,
)
    ensures
        ({
            let event = metadata_json(request_id, path, artifact);
            &&& member(event, "type"@) == Some(Json::Text("Metadata"@))
            &&& member(event, "request_id"@) == Some(Json::Text(request_id))
            &&& member(event, "path"@) == Some(Json::Text(path))
            &&& member(event, "artifact"@) matches Some(Json::Text(word))
            &&& StreamArtifactSelection::named(word) == Some(artifact)
        }),
{
    reveal_strlit("type");
    assert(begins("type"@, 't', 4));
    reveal_strlit("request_id");
    assert(begins("request_id"@, 'r', 10));
    reveal_strlit("path");
    assert(begins("path"@, 'p', 4));
    reveal_strlit("artifact");
    assert(begins("artifact"@, 'a', 8));
    StreamArtifactSelection::words_name_themselves(artifact);
}

/// The event that tells what was understood of a request tells by its word the quality of the
/// encoding, and how many tracks there are, the gap between them and the key, each as it is.
pub proof fn requests_are_told(
    request_id: Seq<char>,
    track_count: nat,
    quality: EncodeQuality,
    gap_seconds: Json,
    audio_key: Seq<char>,
)
    ensures
        ({
            let event = request_json(request_id, track_count, quality, gap_seconds, audio_key);
            &&& member(event, "type"@) == Some(Json::Text("Request"@))
            &&& member(event, "request_id"@) == Some(Json::Text(request_id))
            &&& member(event, "track_count"@) == Some(Json::Count(track_count))
            &&& member(event, "quality"@) matches Some(Json::Text(word))
            &&& EncodeQuality::named(word) == Some(quality)
            &&& member(event, "gap_seconds"@) == Some(gap_seconds)
            &&& member(event, "audio_key"@) == Some(Json::Text(audio_key))
        }),
{
    reveal_strlit("type");
    assert(begins("type"@, 't', 4));
    reveal_strlit("request_id");
    assert(begins("request_id"@, 'r', 10));
    reveal_strlit("track_count");
    assert(begins("track_count"@, 't', 11));
    reveal_strlit("quality");
    assert(begins("quality"@, 'q', 7));
    reveal_strlit("gap_seconds");
    assert(begins("gap_seconds"@, 'g', 11));
    reveal_strlit("audio_key");
    assert(begins("audio_key"@, 'a', 9));
    EncodeQuality::words_name_themselves(quality);
}

/// The events of an upload tell the request and how much has arrived. They are told apart by
/// their type, and the one that follows a wish to finalize by a member that no other has.
pub proof fn uploads_are_told(request_id: Seq<char>, received: nat)
    ensures
        ({
            let progress = upload_progress_json(request_id, received);
            let finalize = upload_finalize_json(request_id, received);
            let complete = upload_complete_json(request_id, received);
            &&& member(progress, "request_id"@) == Some(Json::Text(request_id))
            &&& member(finalize, "request_id"@) == Some(Json::Text(request_id))
            &&& member(complete, "request_id"@) == Some(Json::Text(request_id))
            &&& member(progress, "bytes_received"@) == Some(Json::Count(received))
            &&& member(finalize, "bytes_received"@) == Some(Json::Count(received))
            &&& member(complete, "bytes_received"@) == Some(Json::Count(received))
            &&& member(progress, "type"@) == member(finalize, "type"@)
            &&& member(progress, "type"@) != member(complete, "type"@)
            &&& member(finalize, "finalize"@) == Some(Json::Flag(true))
            &&& member(progress, "finalize"@) is None
            &&& member(complete, "finalize"@) is None
        }),
{
    reveal_strlit("type");
    assert(begins("type"@, 't', 4));
    reveal_strlit("request_id");
    assert(begins("request_id"@, 'r', 10));
    reveal_strlit("bytes_received");
    assert(begins("bytes_received"@, 'b', 14));
    reveal_strlit("finalize");
    assert(begins("finalize"@, 'f', 8));
    reveal_strlit("UploadProgress");
    assert(begins("UploadProgress"@, 'U', 14));
    reveal_strlit("UploadComplete");
    assert(begins("UploadComplete"@, 'U', 14));
    assert("UploadProgress"@[6] == 'P');
    assert("UploadComplete"@[6] == 'C');
}

/// The steps of the work are told in the same form, and told apart by their status. The duration
/// is told where it is known, and the bandwidth with the encoding alone.
pub proof fn steps_are_told(duration: Json, bandwidth: Json)
    ensures
        member(loading_json(Some(duration)), "duration"@) == Some(duration),
        member(loading_json(None), "duration"@) is None,
        member(encoding_json(Some(duration), bandwidth), "duration"@) == Some(duration),
        member(encoding_json(None, bandwidth), "duration"@) is None,
        member(encoding_json(Some(duration), bandwidth), "bandwidthKbps"@) == Some(bandwidth),
        member(encoding_json(None, bandwidth), "bandwidthKbps"@) == Some(bandwidth),
        member(loading_json(Some(duration)), "bandwidthKbps"@) is None,
        member(loading_json(Some(duration)), "status"@) == Some(Json::Text("loading"@)),
        member(loading_json(None), "status"@) == Some(Json::Text("loading"@)),
        member(encoding_json(Some(duration), bandwidth), "status"@) == Some(
            Json::Text("encoding"@),
        ),
        member(encoding_json(None, bandwidth), "status"@) == Some(Json::Text("encoding"@)),
        member(packing_json(), "status"@) == Some(Json::Text("packing"@)),
        member(loading_json(None), "type"@) == Some(Json::Text("Progress"@)),
        member(encoding_json(None, bandwidth), "type"@) == Some(Json::Text("Progress"@)),
        member(packing_json(), "type"@) == Some(Json::Text("Progress"@)),
        member(loading_json(Some(duration)), "msg"@) == Some(
            Json::Text("Prepared canonical stereo PCM"@),
        ),
        member(loading_json(None), "msg"@) == Some(Json::Text("Prepared canonical stereo PCM"@)),
        member(encoding_json(Some(duration), bandwidth), "msg"@) == Some(
            Json::Text("Encoding with EnCodec..."@),
        ),
        member(encoding_json(None, bandwidth), "msg"@) == Some(
            Json::Text("Encoding with EnCodec..."@),
        ),
        member(packing_json(), "msg"@) == Some(Json::Text("Packing bytes to RGB..."@)),
{
    reveal_strlit("type");
    assert(begins("type"@, 't', 4));
    reveal_strlit("status");
    assert(begins("status"@, 's', 6));
    reveal_strlit("msg");
    assert(begins("msg"@, 'm', 3));
    reveal_strlit("duration");
    assert(begins("duration"@, 'd', 8));
    reveal_strlit("bandwidthKbps");
    assert(begins("bandwidthKbps"@, 'b', 13));
}

/// The last event of a stream tells the request, and the header lines, the duration and the
/// sizes of what was made, each as it is. Nothing that is streamed comes from a cache.
pub proof fn endings_tell_what_was_made(
    request_id: Seq<char>,
    meta: Json,
    duration: Json,
    png_size: nat,
    ecdc_bytes: nat,
)
    ensures
        ({
            let event = done_json(request_id, meta, duration, png_size, ecdc_bytes);
            &&& member(event, "type"@) == Some(Json::Text("Done"@))
            &&& member(event, "request_id"@) == Some(Json::Text(request_id))
            &&& member(event, "cached"@) == Some(Json::Flag(false))
            &&& member(event, "meta"@) == Some(meta)
            &&& member(event, "duration"@) == Some(duration)
            &&& member(event, "png_size"@) == Some(Json::Count(png_size))
            &&& member(event, "ecdc_bytes"@) == Some(Json::Count(ecdc_bytes))
        }),
{
    reveal_strlit("type");
    assert(begins("type"@, 't', 4));
    reveal_strlit("request_id");
    assert(begins("request_id"@, 'r', 10));
    reveal_strlit("cached");
    assert(begins("cached"@, 'c', 6));
    reveal_strlit("meta");
    assert(begins("meta"@, 'm', 4));
    reveal_strlit("duration");
    assert(begins("duration"@, 'd', 8));
    reveal_strlit("png_size");
    assert(begins("png_size"@, 'p', 8));
    reveal_strlit("ecdc_bytes");
    assert(begins("ecdc_bytes"@, 'e', 10));
}

/// The events of an artifact tell the request and the artifact's name. The first one tells its
/// type, and its size where that is known; those of the pieces tell which piece they hold, and
/// hold it in base64; and the last one tells how many pieces there were and how much they hold.
pub proof fn artifacts_are_told(
    request_id: Seq<char>,
    name: Seq<char>,
    content_type: Seq<char>,
    size: nat,
    index: nat,
    bytes: Seq<u8>,
    chunks: nat,
)
    ensures
        ({
            let start = artifact_start_json(request_id, name, content_type, Some(size));
            let growing = artifact_start_json(request_id, name, content_type, None);
            let chunk = artifact_chunk_json(request_id, name, index, bytes);
            let end = artifact_end_json(request_id, name, chunks, size);
            &&& member(start, "request_id"@) == Some(Json::Text(request_id))
            &&& member(growing, "request_id"@) == Some(Json::Text(request_id))
            &&& member(chunk, "request_id"@) == Some(Json::Text(request_id))
            &&& member(end, "request_id"@) == Some(Json::Text(request_id))
            &&& member(start, "name"@) == Some(Json::Text(name))
            &&& member(growing, "name"@) == Some(Json::Text(name))
            &&& member(chunk, "name"@) == Some(Json::Text(name))
            &&& member(end, "name"@) == Some(Json::Text(name))
            &&& member(start, "content_type"@) == Some(Json::Text(content_type))
            &&& member(growing, "content_type"@) == Some(Json::Text(content_type))
            &&& member(start, "encoding"@) == Some(Json::Text("base64"@))
            &&& member(growing, "encoding"@) == Some(Json::Text("base64"@))
            &&& member(start, "size_bytes"@) == Some(Json::Count(size))
            &&& member(growing, "size_bytes"@) is None
            &&& member(chunk, "index"@) == Some(Json::Count(index))
            &&& member(chunk, "data"@) == Some(Json::Text(base64_form(bytes)))
            &&& member(end, "chunks"@) == Some(Json::Count(chunks))
            &&& member(end, "size_bytes"@) == Some(Json::Count(size))
        }),
{
    reveal_strlit("type");
    assert(begins("type"@, 't', 4));
    reveal_strlit("request_id");
    assert(begins("request_id"@, 'r', 10));
    reveal_strlit("name");
    assert(begins("name"@, 'n', 4));
    reveal_strlit("content_type");
    assert(begins("content_type"@, 'c', 12));
    reveal_strlit("encoding");
    assert(begins("encoding"@, 'e', 8));
    reveal_strlit("size_bytes");
    assert(begins("size_bytes"@, 's', 10));
    reveal_strlit("index");
    assert(begins("index"@, 'i', 5));
    reveal_strlit("data");
    assert(begins("data"@, 'd', 4));
    reveal_strlit("chunks");
    assert(begins("chunks"@, 'c', 6));
}

/// Of header lines with the same name the last one is told, and nothing is told that no line
/// says.
pub proof fn the_last_line_is_told(
    lines: Seq<(Seq<char>, Seq<char>)>,
    name: Seq<char>,
    value: Seq<char>,
)
    ensures
        header_members(lines.push((name, value))) == header_members(lines).insert(
            name,
            Json::Text(value),
        ),
        (forall|i: int| 0 <= i < lines.len() ==> (#[trigger] lines[i]).0 != name)
            ==> !header_members(lines).contains_key(name),
    decreases lines.len(),
{
    assert(lines.push((name, value)).drop_last() =~= lines);
    if lines.len() > 0 {
        let before = lines.drop_last();
        the_last_line_is_told(before, name, value);
        if forall|i: int| 0 <= i < lines.len() ==> (#[trigger] lines[i]).0 != name {
            assert forall|i: int| 0 <= i < before.len() implies (#[trigger] before[i]).0 != name by {
                assert(before[i] == lines[i]);
            }
            assert(lines[lines.len() - 1].0 != name);
        }
    }
}

} // verus!
