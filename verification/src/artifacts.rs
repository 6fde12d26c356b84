//! Sending artifacts as events: cutting them into pieces, whole or as they grow.

use crate::events::{
    artifact_chunk_event, artifact_chunk_json, artifact_end_event, artifact_end_json,
    artifact_start_event, artifact_start_json, artifacts_are_told, base64_form, member,
};
use crate::json::{json_of, Json};
use crate::options::StreamArtifactSelection;
use vstd::prelude::*;

verus! {

/// The size of the pieces in which an artifact is sent.
pub const STREAM_ARTIFACT_CHUNK_BYTES: usize = 49_152;

/// What events say.
pub open spec fn jsons(events: Seq<serde_json::Value>) -> Seq<Json> {
    Seq::new(events.len(), |i: int| json_of(events[i]))
}

/// How many pieces an artifact of this size has.
pub open spec fn piece_count(size: nat) -> nat {
    (size + STREAM_ARTIFACT_CHUNK_BYTES - 1) as nat / STREAM_ARTIFACT_CHUNK_BYTES as nat
}

/// How many full pieces an artifact of this size has.
pub open spec fn full_pieces(size: nat) -> nat {
    size / STREAM_ARTIFACT_CHUNK_BYTES as nat
}

/// The piece of an artifact with the given index: as long as a piece can be, but for the
/// last, which holds what is left.
pub open spec fn piece(bytes: Seq<u8>, index: int) -> Seq<u8> {
    let start = index * STREAM_ARTIFACT_CHUNK_BYTES;
    let end = start + STREAM_ARTIFACT_CHUNK_BYTES;
    bytes.subrange(
        start,
        if end <= bytes.len() {
            end
        } else {
            bytes.len() as int
        },
    )
}

/// The events that carry the pieces of an artifact, from the index `from` to before `to`.
pub open spec fn piece_jsons(
    request_id: Seq<char>,
    name: Seq<char>,
    bytes: Seq<u8>,
    from: int,
    to: int,
) -> Seq<Json> {
    Seq::new(
        (to - from) as nat,
        |i: int| artifact_chunk_json(request_id, name, (from + i) as nat, piece(bytes, from + i)),
    )
}

/// The events that carry a whole artifact.
pub open spec fn artifact_jsons(
    request_id: Seq<char>,
    name: Seq<char>,
    content_type: Seq<char>,
    bytes: Seq<u8>,
) -> Seq<Json> {
    let count = piece_count(bytes.len());
    seq![artifact_start_json(request_id, name, content_type, Some(bytes.len()))] + piece_jsons(
        request_id,
        name,
        bytes,
        0,
        count as int,
    ) + seq![artifact_end_json(request_id, name, count, bytes.len())]
}

/// Where the pieces of an artifact start and end.
proof fn lemma_piece_bounds(size: nat, index: int)
    requires
        0 <= index,
    ensures
        index < full_pieces(size) <==> (index + 1) * STREAM_ARTIFACT_CHUNK_BYTES <= size,
        index < piece_count(size) <==> index * STREAM_ARTIFACT_CHUNK_BYTES < size,
        full_pieces(size) <= piece_count(size) <= full_pieces(size) + 1,
        full_pieces(size) * STREAM_ARTIFACT_CHUNK_BYTES <= size,
        piece_count(size) == full_pieces(size) <==> full_pieces(size)
            * STREAM_ARTIFACT_CHUNK_BYTES == size,
{
}

/// The events that carry a whole artifact.
pub fn artifact_events(
    request_id: &str,
    name: &str,
    content_type: &str,
    bytes: &[u8],
) -> (events: Vec<serde_json::Value>)
    ensures
        jsons(events@) == artifact_jsons(request_id@, name@, content_type@, bytes@),
{
    let size: usize = bytes.len();
    let mut events: Vec<serde_json::Value> = Vec::new();
    events.push(artifact_start_event(request_id, name, content_type, Some(size)));
    let ghost start = seq![
        artifact_start_json(request_id@, name@, content_type@, Some(bytes@.len())),
    ];
    let mut at: usize = 0;
    let mut chunks: usize = 0;
    assert(jsons(events@) =~= start + piece_jsons(request_id@, name@, bytes@, 0, 0));
    while at < size
        invariant
            size == bytes@.len(),
            at <= size,
            chunks <= piece_count(size as nat),
            at < size ==> at == chunks * STREAM_ARTIFACT_CHUNK_BYTES,
            at == size ==> chunks == piece_count(size as nat),
            jsons(events@) == start + piece_jsons(request_id@, name@, bytes@, 0, chunks as int),
        decreases size - at,
    {
        proof {
            lemma_piece_bounds(size as nat, chunks as int);
            lemma_piece_bounds(size as nat, chunks + 1);
        }
        let end: usize = if size - at > STREAM_ARTIFACT_CHUNK_BYTES {
            at + STREAM_ARTIFACT_CHUNK_BYTES
        } else {
            size
        };
        let part: &[u8] = vstd::slice::slice_subrange(bytes, at, end);
        assert(part@ == piece(bytes@, chunks as int));
        let ghost before = jsons(events@);
        events.push(artifact_chunk_event(request_id, name, chunks, part));
        assert(jsons(events@) =~= before.push(
            artifact_chunk_json(request_id@, name@, chunks as nat, piece(bytes@, chunks as int)),
        ));
        assert(jsons(events@) =~= start + piece_jsons(
            request_id@,
            name@,
            bytes@,
            0,
            chunks + 1,
        ));
        chunks = chunks + 1;
        at = end;
    }
    let ghost before = jsons(events@);
    events.push(artifact_end_event(request_id, name, chunks, size));
    assert(jsons(events@) =~= before.push(
        artifact_end_json(request_id@, name@, chunks as nat, size as nat),
    ));
    assert(jsons(events@) =~= artifact_jsons(request_id@, name@, content_type@, bytes@));
    events
}

/// The pieces of an artifact put together again.
pub open spec fn joined_pieces(bytes: Seq<u8>, count: nat) -> Seq<u8>
    decreases count,
{
    if count == 0 {
        Seq::empty()
    } else {
        joined_pieces(bytes, (count - 1) as nat) + piece(bytes, count - 1)
    }
}

/// No byte of an artifact is lost, added or moved: its pieces, put together in the order of
/// their indices, are the artifact.
pub proof fn pieces_rejoin(bytes: Seq<u8>)
    ensures
        joined_pieces(bytes, piece_count(bytes.len())) == bytes,
{
    let count = piece_count(bytes.len());
    lemma_piece_bounds(bytes.len(), count as int);
    if count > 0 {
        lemma_piece_bounds(bytes.len(), count - 1);
        lemma_joined_prefix(bytes, (count - 1) as nat);
        assert(joined_pieces(bytes, count) =~= bytes);
    } else {
        assert(joined_pieces(bytes, count) =~= bytes);
    }
}

proof fn lemma_joined_prefix(bytes: Seq<u8>, count: nat)
    requires
        count <= full_pieces(bytes.len()),
    ensures
        joined_pieces(bytes, count) == bytes.take(count * STREAM_ARTIFACT_CHUNK_BYTES),
    decreases count,
{
    if count > 0 {
        lemma_piece_bounds(bytes.len(), count - 1);
        lemma_joined_prefix(bytes, (count - 1) as nat);
        assert(joined_pieces(bytes, count) =~= bytes.take(count * STREAM_ARTIFACT_CHUNK_BYTES));
    } else {
        assert(joined_pieces(bytes, count) =~= bytes.take(0));
    }
}

/// An artifact that is sent while it is still growing.
pub struct GrowingArtifact {
    request_id: String,
    name: String,
    /// What has arrived and was not sent, because it does not fill a piece.
    pending: Vec<u8>,
    /// How many pieces were sent.
    sent: usize,
    /// How many bytes have arrived.
    size: usize,
    /// The bytes that have arrived.
    grown: Ghost<Seq<u8>>,
}

impl GrowingArtifact {
    #[verifier::type_invariant]
    spec fn inv(self) -> bool {
        let grown = self.grown@;
        &&& self.size == grown.len()
        &&& self.sent == full_pieces(grown.len())
        &&& self.pending@ == grown.skip(self.sent * STREAM_ARTIFACT_CHUNK_BYTES)
    }

    /// The bytes that have arrived.
    pub closed spec fn bytes(self) -> Seq<u8> {
        self.grown@
    }

    /// The request that the artifact belongs to.
    pub closed spec fn request(self) -> Seq<char> {
        self.request_id@
    }

    /// The name of the artifact.
    pub closed spec fn label(self) -> Seq<char> {
        self.name@
    }

    /// An artifact of which nothing has arrived.
    pub fn new(request_id: &str, name: &str) -> (artifact: Self)
        ensures
            artifact.request() == request_id@,
            artifact.label() == name@,
            artifact.bytes() == Seq::<u8>::empty(),
    {
        let pending: Vec<u8> = Vec::new();
        proof {
            lemma_piece_bounds(0, 0);
            assert(Seq::<u8>::empty().skip(0) =~= Seq::<u8>::empty());
        }
        GrowingArtifact {
            request_id: request_id.to_owned(),
            name: name.to_owned(),
            pending,
            sent: 0,
            size: 0,
            grown: Ghost(Seq::empty()),
        }
    }

    /// How many bytes have arrived.
    pub fn len(&self) -> (size: usize)
        ensures
            size == self.bytes().len(),
    {
        proof {
            use_type_invariant(self);
        }
        self.size
    }

    /// Takes in more of the artifact and gives the events that can be sent now: one for
    /// each piece that is now full and was not before.
    pub fn extend(&mut self, more: &[u8]) -> (events: Vec<serde_json::Value>)
        requires
            old(self).bytes().len() + more@.len() <= usize::MAX,
        ensures
            final(self).bytes() == old(self).bytes() + more@,
            final(self).request() == old(self).request(),
            final(self).label() == old(self).label(),
            jsons(events@) == piece_jsons(
                old(self).request(),
                old(self).label(),
                old(self).bytes() + more@,
                full_pieces(old(self).bytes().len()) as int,
                full_pieces(old(self).bytes().len() + more@.len()) as int,
            ),
    {
        proof {
            use_type_invariant(&*self);
        }
        let ghost all = self.grown@ + more@;
        let ghost from = full_pieces(self.grown@.len()) as int;
        let ghost to = full_pieces(all.len()) as int;
        let ghost request_id = self.request_id@;
        let ghost name = self.name@;
        let mut pending: Vec<u8> = Vec::new();
        pending.extend_from_slice(self.pending.as_slice());
        pending.extend_from_slice(more);
        let mut sent: usize = self.sent;
        let mut events: Vec<serde_json::Value> = Vec::new();
        proof {
            lemma_piece_bounds(self.grown@.len(), from);
            lemma_piece_bounds(all.len(), from);
            assert(pending@ =~= all.skip(sent * STREAM_ARTIFACT_CHUNK_BYTES));
            assert(jsons(events@) =~= piece_jsons(request_id, name, all, from, from));
        }
        while pending.len() >= STREAM_ARTIFACT_CHUNK_BYTES
            invariant
                from <= sent <= to,
                to == full_pieces(all.len()),
                all.len() <= usize::MAX,
                request_id == self.request_id@,
                name == self.name@,
                sent * STREAM_ARTIFACT_CHUNK_BYTES <= all.len(),
                pending@ == all.skip(sent * STREAM_ARTIFACT_CHUNK_BYTES),
                jsons(events@) == piece_jsons(request_id, name, all, from, sent as int),
            decreases pending@.len(),
        {
            proof {
                lemma_piece_bounds(all.len(), sent as int);
            }
            let rest = pending.split_off(STREAM_ARTIFACT_CHUNK_BYTES);
            assert(pending@ =~= piece(all, sent as int));
            assert(rest@ =~= all.skip((sent + 1) * STREAM_ARTIFACT_CHUNK_BYTES));
            let ghost before = jsons(events@);
            events.push(
                artifact_chunk_event(
                    self.request_id.as_str(),
                    self.name.as_str(),
                    sent,
                    pending.as_slice(),
                ),
            );
            assert(jsons(events@) =~= before.push(
                artifact_chunk_json(request_id, name, sent as nat, piece(all, sent as int)),
            ));
            assert(jsons(events@) =~= piece_jsons(request_id, name, all, from, sent + 1));
            sent = sent + 1;
            pending = rest;
        }
        proof {
            lemma_piece_bounds(all.len(), sent as int);
        }
        let size: usize = self.size + more.len();
        *self = GrowingArtifact {
            request_id: self.request_id.clone(),
            name: self.name.clone(),
            pending,
            sent,
            size,
            grown: Ghost(all),
        };
        events
    }

    /// The events that remain when the artifact is complete: its last piece, where that is
    /// not a full one, and the end, which tells the size that the sender names.
    pub fn finish(self, size: usize) -> (events: Vec<serde_json::Value>)
        ensures
            jsons(events@) == piece_jsons(
                self.request(),
                self.label(),
                self.bytes(),
                full_pieces(self.bytes().len()) as int,
                piece_count(self.bytes().len()) as int,
            ).push(
                artifact_end_json(
                    self.request(),
                    self.label(),
                    piece_count(self.bytes().len()),
                    size as nat,
                ),
            ),
    {
        proof {
            use_type_invariant(&self);
            lemma_piece_bounds(self.grown@.len(), self.sent as int);
        }
        let ghost from = self.sent as int;
        let mut chunks: usize = self.sent;
        let mut events: Vec<serde_json::Value> = Vec::new();
        if self.pending.len() > 0 {
            assert(self.pending@ =~= piece(self.grown@, from));
            events.push(
                artifact_chunk_event(
                    self.request_id.as_str(),
                    self.name.as_str(),
                    chunks,
                    self.pending.as_slice(),
                ),
            );
            chunks = chunks + 1;
        }
        assert(jsons(events@) =~= piece_jsons(
            self.request(),
            self.label(),
            self.bytes(),
            from,
            chunks as int,
        ));
        let ghost before = jsons(events@);
        events.push(
            artifact_end_event(self.request_id.as_str(), self.name.as_str(), chunks, size),
        );
        assert(jsons(events@) =~= before.push(
            artifact_end_json(self.request(), self.label(), chunks as nat, size as nat),
        ));
        events
    }
}

/// All parts of an artifact, one after the other.
pub open spec fn concatenated(parts: Seq<Seq<u8>>) -> Seq<u8>
    decreases parts.len(),
{
    if parts.len() == 0 {
        Seq::empty()
    } else {
        concatenated(parts.drop_last()) + parts.last()
    }
}

/// The events that a growing artifact gives for the parts that arrive, in order, before it
/// is finished.
pub open spec fn grown_jsons(
    request_id: Seq<char>,
    name: Seq<char>,
    parts: Seq<Seq<u8>>,
) -> Seq<Json>
    decreases parts.len(),
{
    if parts.len() == 0 {
        Seq::empty()
    } else {
        let before = concatenated(parts.drop_last());
        let after = before + parts.last();
        grown_jsons(request_id, name, parts.drop_last()) + piece_jsons(
            request_id,
            name,
            after,
            full_pieces(before.len()) as int,
            full_pieces(after.len()) as int,
        )
    }
}

/// How an artifact arrives does not matter: in whatever parts it comes, the pieces that are
/// sent as it grows and when it is finished are those of the whole artifact.
pub proof fn growing_sends_the_whole(
    request_id: Seq<char>,
    name: Seq<char>,
    parts: Seq<Seq<u8>>,
)
    ensures
        ({
            let whole = concatenated(parts);
            let full = full_pieces(whole.len()) as int;
            let count = piece_count(whole.len()) as int;
            grown_jsons(request_id, name, parts) + piece_jsons(
                request_id,
                name,
                whole,
                full,
                count,
            ) == piece_jsons(request_id, name, whole, 0, count)
        }),
{
    let whole = concatenated(parts);
    let full = full_pieces(whole.len()) as int;
    let count = piece_count(whole.len()) as int;
    lemma_grown_pieces(request_id, name, parts);
    lemma_piece_bounds(whole.len(), full);
    assert(piece_jsons(request_id, name, whole, 0, full) + piece_jsons(
        request_id,
        name,
        whole,
        full,
        count,
    ) =~= piece_jsons(request_id, name, whole, 0, count));
}

proof fn lemma_grown_pieces(request_id: Seq<char>, name: Seq<char>, parts: Seq<Seq<u8>>)
    ensures
        grown_jsons(request_id, name, parts) == piece_jsons(
            request_id,
            name,
            concatenated(parts),
            0,
            full_pieces(concatenated(parts).len()) as int,
        ),
    decreases parts.len(),
{
    if parts.len() == 0 {
        lemma_piece_bounds(0, 0);
        assert(grown_jsons(request_id, name, parts) =~= piece_jsons(
            request_id,
            name,
            concatenated(parts),
            0,
            0,
        ));
    } else {
        let before = concatenated(parts.drop_last());
        let after = before + parts.last();
        let from = full_pieces(before.len()) as int;
        let to = full_pieces(after.len()) as int;
        lemma_grown_pieces(request_id, name, parts.drop_last());
        assert forall|i: int| 0 <= i < from implies piece(before, i) == piece(after, i) by {
            lemma_piece_bounds(before.len(), i);
            assert(piece(before, i) =~= piece(after, i));
        }
        assert(from <= to);
        assert(grown_jsons(request_id, name, parts) =~= piece_jsons(
            request_id,
            name,
            after,
            0,
            to,
        ));
    }
}

/// The encoded audio as a stream sends it: piece by piece where the client selected it, and
/// not at all where it did not.
pub struct EcdcStream {
    artifact: Option<GrowingArtifact>,
}

impl EcdcStream {
    /// Whether the client selected the encoded audio.
    pub closed spec fn selected(self) -> bool {
        self.artifact is Some
    }

    /// The part of the encoded audio that has arrived, where the client selected it.
    pub closed spec fn bytes(self) -> Seq<u8> {
        match self.artifact {
            Some(artifact) => artifact.bytes(),
            None => Seq::empty(),
        }
    }

    /// The request that is served.
    pub closed spec fn request(self) -> Seq<char> {
        match self.artifact {
            Some(artifact) => artifact.request(),
            None => Seq::empty(),
        }
    }

    /// Whether the artifact has the name of encoded audio.
    #[verifier::type_invariant]
    spec fn inv(self) -> bool {
        self.artifact matches Some(artifact) ==> artifact.label() == "ecdc"@
    }

    /// Opens the stream: the start of the artifact, where the client selected it.
    pub fn open(request_id: &str, selection: StreamArtifactSelection) -> (opened: (
        Self,
        Vec<serde_json::Value>,
    ))
        ensures
            opened.0.selected() == selection.has_ecdc(),
            opened.0.bytes() == Seq::<u8>::empty(),
            selection.has_ecdc() ==> opened.0.request() == request_id@,
            jsons(opened.1@) == (if selection.has_ecdc() {
                seq![
                    artifact_start_json(
                        request_id@,
                        "ecdc"@,
                        "application/octet-stream"@,
                        None,
                    ),
                ]
            } else {
                Seq::empty()
            }),
    {
        let mut events: Vec<serde_json::Value> = Vec::new();
        if selection.includes_ecdc() {
            events.push(
                artifact_start_event(request_id, "ecdc", "application/octet-stream", None),
            );
            assert(jsons(events@) =~= seq![
                artifact_start_json(request_id@, "ecdc"@, "application/octet-stream"@, None),
            ]);
            (EcdcStream { artifact: Some(GrowingArtifact::new(request_id, "ecdc")) }, events)
        } else {
            assert(jsons(events@) =~= Seq::empty());
            (EcdcStream { artifact: None }, events)
        }
    }

    /// How many bytes of the selected artifact have arrived.
    pub fn len(&self) -> (size: usize)
        ensures
            size == self.bytes().len(),
    {
        match &self.artifact {
            Some(artifact) => artifact.len(),
            None => 0,
        }
    }

    /// Takes in more of the encoded audio.
    pub fn extend(self, more: &[u8]) -> (extended: (Self, Vec<serde_json::Value>))
        requires
            self.bytes().len() + more@.len() <= usize::MAX,
        ensures
            extended.0.selected() == self.selected(),
            extended.0.request() == self.request(),
            extended.0.bytes() == (if self.selected() {
                self.bytes() + more@
            } else {
                self.bytes()
            }),
            jsons(extended.1@) == (if self.selected() {
                piece_jsons(
                    self.request(),
                    "ecdc"@,
                    self.bytes() + more@,
                    full_pieces(self.bytes().len()) as int,
                    full_pieces(self.bytes().len() + more@.len()) as int,
                )
            } else {
                Seq::empty()
            }),
    {
        proof {
            use_type_invariant(&self);
        }
        match self.artifact {
            Some(artifact) => {
                let mut artifact = artifact;
                let events = artifact.extend(more);
                (EcdcStream { artifact: Some(artifact) }, events)
            },
            None => {
                let events: Vec<serde_json::Value> = Vec::new();
                assert(jsons(events@) =~= Seq::empty());
                (EcdcStream { artifact: None }, events)
            },
        }
    }

    /// The events that remain when the encoded audio, of the given size, is complete.
    pub fn finish(self, size: usize) -> (events: Vec<serde_json::Value>)
        ensures
            jsons(events@) == (if self.selected() {
                piece_jsons(
                    self.request(),
                    "ecdc"@,
                    self.bytes(),
                    full_pieces(self.bytes().len()) as int,
                    piece_count(self.bytes().len()) as int,
                ).push(
                    artifact_end_json(
                        self.request(),
                        "ecdc"@,
                        piece_count(self.bytes().len()),
                        size as nat,
                    ),
                )
            } else {
                Seq::empty()
            }),
    {
        proof {
            use_type_invariant(&self);
        }
        match self.artifact {
            Some(artifact) => artifact.finish(size),
            None => {
                let events: Vec<serde_json::Value> = Vec::new();
                assert(jsons(events@) =~= Seq::empty());
                events
            },
        }
    }
}

/// The events that carry the selected ones of two finished artifacts: first the encoded
/// audio, then the picture.
pub open spec fn selected_jsons(
    request_id: Seq<char>,
    selection: StreamArtifactSelection,
    ecdc: Seq<u8>,
    png: Seq<u8>,
) -> Seq<Json> {
    let audio = if selection.has_ecdc() {
        artifact_jsons(request_id, "ecdc"@, "application/octet-stream"@, ecdc)
    } else {
        Seq::empty()
    };
    let picture = if selection.has_png() {
        artifact_jsons(request_id, "png"@, "image/png"@, png)
    } else {
        Seq::empty()
    };
    audio + picture
}

/// The events that carry the selected ones of two finished artifacts.
pub fn selected_events(
    request_id: &str,
    selection: StreamArtifactSelection,
    ecdc: &[u8],
    png: &[u8],
) -> (events: Vec<serde_json::Value>)
    ensures
        jsons(events@) == selected_jsons(request_id@, selection, ecdc@, png@),
{
    let mut events: Vec<serde_json::Value> = Vec::new();
    assert(jsons(events@) =~= Seq::empty());
    if selection.includes_ecdc() {
        events = artifact_events(request_id, "ecdc", "application/octet-stream", ecdc);
    }
    if selection.includes_png() {
        let ghost audio = events@;
        let mut picture = artifact_events(request_id, "png", "image/png", png);
        let ghost shown = picture@;
        events.append(&mut picture);
        assert(jsons(events@) =~= jsons(audio) + jsons(shown));
    }
    assert(jsons(events@) =~= selected_jsons(request_id@, selection, ecdc@, png@));
    events
}

/// Every piece of an artifact but the last is as long as a piece can be, and the last is not
/// empty and no longer. There are as many pieces as that takes.
pub proof fn pieces_are_full_but_the_last(bytes: Seq<u8>, index: int)
    requires
        0 <= index < piece_count(bytes.len()),
    ensures
        index < piece_count(bytes.len()) - 1 ==> piece(bytes, index).len() == 49_152,
        0 < piece(bytes, index).len() <= 49_152,
        (piece_count(bytes.len()) - 1) * 49_152 < bytes.len() <= piece_count(bytes.len()) * 49_152,
{
    lemma_piece_bounds(bytes.len(), index);
    lemma_piece_bounds(bytes.len(), index + 1);
    lemma_piece_bounds(bytes.len(), piece_count(bytes.len()) as int);
    lemma_piece_bounds(bytes.len(), piece_count(bytes.len()) - 1);
}

/// The events of a whole artifact are its start, its pieces in order and its end. The start
/// tells the size of the artifact, the pieces their index, and the end how many pieces came
/// before it and the size once more. All of them name the request and the artifact.
pub proof fn whole_artifacts_are_told(
    request_id: Seq<char>,
    name: Seq<char>,
    content_type: Seq<char>,
    bytes: Seq<u8>,
    index: int,
)
    ensures
        ({
            let events = artifact_jsons(request_id, name, content_type, bytes);
            let last = events.len() - 1;
            &&& events.len() == piece_count(bytes.len()) + 2
            &&& member(events[0], "size_bytes"@) == Some(Json::Count(bytes.len()))
            &&& member(events[0], "content_type"@) == Some(Json::Text(content_type))
            &&& member(events[0], "name"@) == Some(Json::Text(name))
            &&& 0 <= index < piece_count(bytes.len()) ==> {
                let carrying = events[1 + index];
                &&& member(carrying, "request_id"@) == Some(Json::Text(request_id))
                &&& member(carrying, "name"@) == Some(Json::Text(name))
                &&& member(carrying, "index"@) == Some(Json::Count(index as nat))
                &&& member(carrying, "data"@) == Some(Json::Text(base64_form(piece(bytes, index))))
            }
            &&& member(events[last], "name"@) == Some(Json::Text(name))
            &&& member(events[last], "chunks"@) == Some(Json::Count((events.len() - 2) as nat))
            &&& member(events[last], "size_bytes"@) == Some(Json::Count(bytes.len()))
            &&& member(events[0], "request_id"@) == Some(Json::Text(request_id))
            &&& member(events[last], "request_id"@) == Some(Json::Text(request_id))
        }),
{
    artifacts_are_told(
        request_id,
        name,
        content_type,
        bytes.len(),
        index as nat,
        piece(bytes, index),
        piece_count(bytes.len()),
    );
}

/// A stream carries the artifacts that the client selected and no others: the encoded audio
/// where the selection holds it, and then the picture where the selection holds that, each
/// whole.
pub proof fn selected_artifacts_are_carried(
    request_id: Seq<char>,
    selection: StreamArtifactSelection,
    ecdc: Seq<u8>,
    png: Seq<u8>,
)
    ensures
        ({
            let events = selected_jsons(request_id, selection, ecdc, png);
            let audio = artifact_jsons(request_id, "ecdc"@, "application/octet-stream"@, ecdc);
            let picture = artifact_jsons(request_id, "png"@, "image/png"@, png);
            match selection {
                StreamArtifactSelection::Ecdc => events == audio,
                StreamArtifactSelection::Png => events == picture,
                StreamArtifactSelection::Both => events == audio + picture,
            }
        }),
{
    let audio = artifact_jsons(request_id, "ecdc"@, "application/octet-stream"@, ecdc);
    let picture = artifact_jsons(request_id, "png"@, "image/png"@, png);
    assert(audio + Seq::<Json>::empty() =~= audio);
    assert(Seq::<Json>::empty() + picture =~= picture);
}

/// Events are seen in order, each as it is.
pub proof fn events_are_seen_as_they_are(events: Seq<serde_json::Value>, index: int)
    ensures
        jsons(events).len() == events.len(),
        0 <= index < events.len() ==> jsons(events)[index] == json_of(events[index]),
{
}

} // verus!
