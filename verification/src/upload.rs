//! Receiving uploads: what each frame of an upload leads to.

use crate::digest::{absorbed, digest_new, digest_update, Digest256};
use crate::error::{internal_error, EncodeError};
use crate::events::{
    upload_complete_event, upload_complete_json, upload_finalize_event, upload_finalize_json,
    upload_progress_event, upload_progress_json,
};
use crate::json::{json_of, Json};
use vstd::prelude::*;

verus! {

/// After how many further bytes the progress of an upload is told again.
pub const STREAM_UPLOAD_PROGRESS_BYTES: usize = 1_048_576;

/// A frame of an upload.
#[derive(Debug)]
pub enum SourceFrame {
    /// A part of the body.
    Body(Vec<u8>),
    /// The client asks to finalize.
    Finalize,
    /// The client is still there.
    KeepAlive,
    /// The request is over.
    End,
    /// Headers of the request or of a stage.
    Head,
}

/// What was received of a body, frame by frame: all parts up to the end.
pub open spec fn body_of(frames: Seq<SourceFrame>) -> Seq<u8>
    decreases frames.len(),
{
    if frames.len() == 0 {
        Seq::empty()
    } else {
        match frames.first() {
            SourceFrame::Body(bytes) => bytes@ + body_of(frames.drop_first()),
            SourceFrame::End => Seq::empty(),
            _ => body_of(frames.drop_first()),
        }
    }
}

/// Whether the progress has to be told again.
pub open spec fn is_due(received: nat, reported: nat) -> bool {
    received - reported >= STREAM_UPLOAD_PROGRESS_BYTES
}

/// What the client was told of an upload is at most what has arrived, and less than the
/// progress interval short of it.
pub open spec fn is_current(received: nat, told: nat) -> bool {
    told <= received < told + STREAM_UPLOAD_PROGRESS_BYTES
}

/// The bytes that have arrived once a frame has.
pub open spec fn taken_in(bytes: Seq<u8>, frame: SourceFrame) -> Seq<u8> {
    match frame {
        SourceFrame::Body(part) => bytes + part@,
        _ => bytes,
    }
}

/// The bytes that have arrived once the frames have, up to the end of the request.
pub open spec fn taken_in_all(bytes: Seq<u8>, frames: Seq<SourceFrame>) -> Seq<u8>
    decreases frames.len(),
{
    if frames.len() == 0 || frames.first() is End {
        bytes
    } else {
        taken_in_all(taken_in(bytes, frames.first()), frames.drop_first())
    }
}

/// Taking in the frames one by one, up to the end of the request, gives the body that they
/// carry.
pub proof fn frames_make_the_body(bytes: Seq<u8>, frames: Seq<SourceFrame>)
    ensures
        taken_in_all(bytes, frames) == bytes + body_of(frames),
    decreases frames.len(),
{
    if frames.len() == 0 || frames.first() is End {
        assert(bytes + body_of(frames) =~= bytes);
    } else {
        let next = taken_in(bytes, frames.first());
        frames_make_the_body(next, frames.drop_first());
        assert(bytes + body_of(frames) =~= next + body_of(frames.drop_first()));
    }
}

/// What a frame leads to.
pub struct FrameStep {
    /// A part of the body that goes to the encoder.
    pub feed: Option<Vec<u8>>,
    /// An event for the client, to be sent after the part has gone to the encoder.
    pub event: Option<serde_json::Value>,
    /// Whether the upload is over.
    pub stop: bool,
}

/// The event of a step, as JSON.
pub open spec fn event_json(event: Option<serde_json::Value>) -> Option<Json> {
    match event {
        Some(event) => Some(json_of(event)),
        None => None,
    }
}

/// An upload of samples that is encoded while it arrives. It is counted and its digest is
/// taken, but it is not kept.
pub struct SampleUpload {
    request_id: String,
    received: usize,
    reported: usize,
    digest: Digest256,
}

impl SampleUpload {
    #[verifier::type_invariant]
    spec fn inv(self) -> bool {
        &&& self.received == absorbed(self.digest).len()
        &&& self.reported <= self.received
        &&& !is_due(self.received as nat, self.reported as nat)
    }

    /// The request that is served.
    pub closed spec fn request(self) -> Seq<char> {
        self.request_id@
    }

    /// The bytes that have arrived.
    pub closed spec fn bytes(self) -> Seq<u8> {
        absorbed(self.digest)
    }

    /// How many bytes the client was told of.
    pub closed spec fn told(self) -> nat {
        self.reported as nat
    }

    /// An upload of which nothing has arrived.
    pub fn new(request_id: &str) -> (upload: Self)
        ensures
            upload.request() == request_id@,
            upload.bytes() == Seq::<u8>::empty(),
            upload.told() == 0,
            is_current(upload.bytes().len(), upload.told()),
    {
        SampleUpload {
            request_id: request_id.to_owned(),
            received: 0,
            reported: 0,
            digest: digest_new(),
        }
    }

    /// How many bytes have arrived.
    pub fn received(&self) -> (count: usize)
        ensures
            count == self.bytes().len(),
    {
        proof {
            use_type_invariant(self);
        }
        self.received
    }

    /// What a frame leads to. A part of the body is counted and goes to the encoder, and
    /// the client is told once enough has arrived since it was last told; an empty part
    /// leads to nothing.
    pub fn on_frame(self, frame: SourceFrame) -> (next: (Self, FrameStep))
        requires
            frame matches SourceFrame::Body(part) ==> self.bytes().len() + part@.len()
                <= usize::MAX,
        ensures
            next.0.request() == self.request(),
            next.0.bytes() == taken_in(self.bytes(), frame),
            is_current(next.0.bytes().len(), next.0.told()),
            match frame {
                SourceFrame::Body(part) => {
                    let received = self.bytes().len() + part@.len();
                    let due = part@.len() > 0 && is_due(received, self.told());
                    &&& next.0.told() == (if due {
                        received
                    } else {
                        self.told()
                    })
                    &&& next.1.feed == (if part@.len() > 0 {
                        Some(part)
                    } else {
                        None
                    })
                    &&& event_json(next.1.event) == (if due {
                        Some(upload_progress_json(self.request(), received))
                    } else {
                        None
                    })
                    &&& !next.1.stop
                },
                SourceFrame::Finalize => {
                    &&& next.0.told() == self.told()
                    &&& next.1.feed is None
                    &&& event_json(next.1.event) == Some(
                        upload_finalize_json(self.request(), self.bytes().len()),
                    )
                    &&& !next.1.stop
                },
                _ => {
                    &&& next.0.told() == self.told()
                    &&& next.1.feed is None
                    &&& next.1.event is None
                    &&& next.1.stop == (frame is End)
                },
            },
    {
        proof {
            use_type_invariant(&self);
        }
        match frame {
            SourceFrame::Body(part) => {
                if part.len() == 0 {
                    assert(self.bytes() + part@ =~= self.bytes());
                    return (self, FrameStep { feed: None, event: None, stop: false });
                }
                let mut digest = self.digest;
                digest_update(&mut digest, part.as_slice());
                let received: usize = self.received + part.len();
                let mut reported: usize = self.reported;
                let mut event: Option<serde_json::Value> = None;
                if received - reported >= STREAM_UPLOAD_PROGRESS_BYTES {
                    reported = received;
                    event = Some(upload_progress_event(self.request_id.as_str(), received));
                }
                let upload = SampleUpload {
                    request_id: self.request_id,
                    received,
                    reported,
                    digest,
                };
                (upload, FrameStep { feed: Some(part), event, stop: false })
            },
            SourceFrame::Finalize => {
                let event = upload_finalize_event(self.request_id.as_str(), self.received);
                (self, FrameStep { feed: None, event: Some(event), stop: false })
            },
            SourceFrame::End => (self, FrameStep { feed: None, event: None, stop: true }),
            _ => (self, FrameStep { feed: None, event: None, stop: false }),
        }
    }

    /// The end of the upload: the event that tells of it and the digest of what arrived, or
    /// an error where nothing did.
    pub fn complete(self) -> (done: Result<(serde_json::Value, Digest256), EncodeError>)
        ensures
            match done {
                Ok((event, digest)) => {
                    &&& self.bytes().len() > 0
                    &&& json_of(event) == upload_complete_json(self.request(), self.bytes().len())
                    &&& absorbed(digest) == self.bytes()
                },
                Err(error) => self.bytes().len() == 0 && error.is_internal(
                    "request body did not include audio bytes"@,
                ),
            },
    {
        proof {
            use_type_invariant(&self);
        }
        if self.received == 0 {
            return Err(internal_error("request body did not include audio bytes"));
        }
        let event = upload_complete_event(self.request_id.as_str(), self.received);
        Ok((event, self.digest))
    }
}

/// An upload that is kept until it is complete.
pub struct BufferedUpload {
    request_id: String,
    body: Vec<u8>,
    reported: usize,
}

impl BufferedUpload {
    #[verifier::type_invariant]
    spec fn inv(self) -> bool {
        &&& self.reported <= self.body@.len()
        &&& !is_due(self.body@.len(), self.reported as nat)
    }

    /// The request that is served.
    pub closed spec fn request(self) -> Seq<char> {
        self.request_id@
    }

    /// The bytes that have arrived.
    pub closed spec fn bytes(self) -> Seq<u8> {
        self.body@
    }

    /// How many bytes the client was told of.
    pub closed spec fn told(self) -> nat {
        self.reported as nat
    }

    /// An upload of which nothing has arrived.
    pub fn new(request_id: &str) -> (upload: Self)
        ensures
            upload.request() == request_id@,
            upload.bytes() == Seq::<u8>::empty(),
            upload.told() == 0,
            is_current(upload.bytes().len(), upload.told()),
    {
        let body: Vec<u8> = Vec::new();
        BufferedUpload { request_id: request_id.to_owned(), body, reported: 0 }
    }

    /// What a frame leads to. A part of the body is kept, and the client is told once
    /// enough has arrived since it was last told.
    pub fn on_frame(self, frame: SourceFrame) -> (next: (Self, FrameStep))
        ensures
            next.0.request() == self.request(),
            next.0.bytes() == taken_in(self.bytes(), frame),
            is_current(next.0.bytes().len(), next.0.told()),
            next.1.feed is None,
            next.1.stop == (frame is End),
            match frame {
                SourceFrame::Body(part) => {
                    let received = self.bytes().len() + part@.len();
                    let due = is_due(received, self.told());
                    &&& next.0.told() == (if due {
                        received
                    } else {
                        self.told()
                    })
                    &&& event_json(next.1.event) == (if due {
                        Some(upload_progress_json(self.request(), received))
                    } else {
                        None
                    })
                },
                SourceFrame::Finalize => {
                    &&& next.0.told() == self.told()
                    &&& event_json(next.1.event) == Some(
                        upload_finalize_json(self.request(), self.bytes().len()),
                    )
                },
                _ => {
                    &&& next.0.told() == self.told()
                    &&& next.1.event is None
                },
            },
    {
        proof {
            use_type_invariant(&self);
        }
        match frame {
            SourceFrame::Body(part) => {
                let mut body = self.body;
                body.extend_from_slice(part.as_slice());
                let mut reported: usize = self.reported;
                let mut event: Option<serde_json::Value> = None;
                if body.len() - reported >= STREAM_UPLOAD_PROGRESS_BYTES {
                    reported = body.len();
                    event = Some(upload_progress_event(self.request_id.as_str(), body.len()));
                }
                let upload = BufferedUpload { request_id: self.request_id, body, reported };
                (upload, FrameStep { feed: None, event, stop: false })
            },
            SourceFrame::Finalize => {
                let event = upload_finalize_event(self.request_id.as_str(), self.body.len());
                (self, FrameStep { feed: None, event: Some(event), stop: false })
            },
            SourceFrame::End => (self, FrameStep { feed: None, event: None, stop: true }),
            _ => (self, FrameStep { feed: None, event: None, stop: false }),
        }
    }

    /// The end of the upload: the body and the event that tells of it, or an error where
    /// nothing arrived.
    pub fn complete(self) -> (done: Result<(Vec<u8>, serde_json::Value), EncodeError>)
        ensures
            match done {
                Ok((body, event)) => {
                    &&& self.bytes().len() > 0
                    &&& body@ == self.bytes()
                    &&& json_of(event) == upload_complete_json(self.request(), self.bytes().len())
                },
                Err(error) => self.bytes().len() == 0 && error.is_internal(
                    "request body did not include audio bytes"@,
                ),
            },
    {
        if self.body.len() == 0 {
            return Err(internal_error("request body did not include audio bytes"));
        }
        let event = upload_complete_event(self.request_id.as_str(), self.body.len());
        Ok((self.body, event))
    }
}

/// Takes in a frame of an upload of which nobody is told, and says whether it is over.
pub fn collect_frame(body: &mut Vec<u8>, frame: SourceFrame) -> (stop: bool)
    ensures
        final(body)@ == taken_in(old(body)@, frame),
        stop == (frame is End),
{
    match frame {
        SourceFrame::Body(part) => {
            body.extend_from_slice(part.as_slice());
            false
        },
        SourceFrame::End => true,
        _ => false,
    }
}

/// The client is told of an upload when a further mebibyte has arrived since it was last told,
/// and not before: a single byte less is not enough. More that arrives does not make it less due.
pub proof fn progress_is_due_by_the_mebibyte(told: nat, more: nat)
    ensures
        is_due(told + 1024 * 1024 + more, told),
        more < 1024 * 1024 ==> !is_due(told + more, told),
        is_current(told + more, told) <==> !is_due(told + more, told),
{
}

/// Only the parts of a body make it up: frames of any other kind add nothing, and nothing that
/// comes after the end belongs to it.
pub proof fn only_parts_make_the_body(
    before: Seq<SourceFrame>,
    frame: SourceFrame,
    after: Seq<SourceFrame>,
)
    requires
        forall|i: int| 0 <= i < before.len() ==> !((#[trigger] before[i]) is End),
    ensures
        match frame {
            SourceFrame::Body(part) => body_of(before + seq![frame] + after) == body_of(before)
                + part@ + body_of(after),
            SourceFrame::End => body_of(before + seq![frame] + after) == body_of(before),
            _ => body_of(before + seq![frame] + after) == body_of(before) + body_of(after),
        },
    decreases before.len(),
{
    let all = before + seq![frame] + after;
    if before.len() == 0 {
        assert(all.first() == frame);
        assert(all.drop_first() =~= after);
        assert(body_of(all) =~= match frame {
            SourceFrame::Body(part) => body_of(before) + part@ + body_of(after),
            SourceFrame::End => body_of(before),
            _ => body_of(before) + body_of(after),
        });
    } else {
        let rest = before.drop_first();
        assert forall|i: int| 0 <= i < rest.len() implies !((#[trigger] rest[i]) is End) by {
            assert(rest[i] == before[i + 1]);
        }
        only_parts_make_the_body(rest, frame, after);
        assert(!(before[0] is End));
        assert(all.first() == before.first());
        assert(all.drop_first() =~= rest + seq![frame] + after);
        assert(body_of(all) =~= match frame {
            SourceFrame::Body(part) => body_of(before) + part@ + body_of(after),
            SourceFrame::End => body_of(before),
            _ => body_of(before) + body_of(after),
        });
    }
}

} // verus!
