//! The headers by which an ingress hands a prepared request to a worker.

use crate::headers::is_header_name;
use vstd::prelude::*;

verus! {

/// The quality of the encoding.
pub const INTERNAL_QUALITY_HEADER: &'static str = "x-encodec-internal-quality";

/// How many tracks the program has.
pub const INTERNAL_TRACK_COUNT_HEADER: &'static str = "x-encodec-internal-track-count";

/// The gap between two tracks, in seconds.
pub const INTERNAL_GAP_SECONDS_HEADER: &'static str = "x-encodec-internal-gap-seconds";

/// All gaps of the program together, in seconds.
pub const INTERNAL_TOTAL_GAP_SECONDS_HEADER: &'static str = "x-encodec-internal-total-gap-seconds";

/// How long the program is, in seconds.
pub const INTERNAL_DURATION_SECONDS_HEADER: &'static str = "x-encodec-internal-duration-seconds";

/// The key of the audio.
pub const INTERNAL_AUDIO_KEY_HEADER: &'static str = "x-encodec-internal-audio-key";

/// In which form the response is streamed. A request without it is not streamed.
pub const INTERNAL_STREAMING_MODE_HEADER: &'static str = "x-encodec-internal-streaming-mode";

/// The response is streamed as lines of JSON.
pub const INTERNAL_STREAMING_MODE_JSONL: &'static str = "jsonl";

/// The standard header with the type of a body.
pub const CONTENT_TYPE: &'static str = "content-type";

/// The standard header with the length of a body.
pub const CONTENT_LENGTH: &'static str = "content-length";

/// The names of the headers are header names, and no two of them are the same.
pub proof fn header_names_are_distinct()
    ensures
        is_header_name(INTERNAL_QUALITY_HEADER@),
        is_header_name(INTERNAL_TRACK_COUNT_HEADER@),
        is_header_name(INTERNAL_GAP_SECONDS_HEADER@),
        is_header_name(INTERNAL_TOTAL_GAP_SECONDS_HEADER@),
        is_header_name(INTERNAL_DURATION_SECONDS_HEADER@),
        is_header_name(INTERNAL_AUDIO_KEY_HEADER@),
        is_header_name(INTERNAL_STREAMING_MODE_HEADER@),
        is_header_name(CONTENT_TYPE@),
        is_header_name(CONTENT_LENGTH@),
        ({
            let names = seq![
                CONTENT_LENGTH@,
                CONTENT_TYPE@,
                INTERNAL_QUALITY_HEADER@,
                INTERNAL_TRACK_COUNT_HEADER@,
                INTERNAL_GAP_SECONDS_HEADER@,
                INTERNAL_TOTAL_GAP_SECONDS_HEADER@,
                INTERNAL_DURATION_SECONDS_HEADER@,
                INTERNAL_AUDIO_KEY_HEADER@,
                INTERNAL_STREAMING_MODE_HEADER@,
            ];
            forall|i: int, j: int| 0 <= i < j < names.len() ==> names[i] != names[j]
        }),
{
    reveal_strlit("x-encodec-internal-quality");
    reveal_strlit("x-encodec-internal-track-count");
    reveal_strlit("x-encodec-internal-gap-seconds");
    reveal_strlit("x-encodec-internal-total-gap-seconds");
    reveal_strlit("x-encodec-internal-duration-seconds");
    reveal_strlit("x-encodec-internal-audio-key");
    reveal_strlit("x-encodec-internal-streaming-mode");
    reveal_strlit("content-type");
    reveal_strlit("content-length");
    assert(INTERNAL_TRACK_COUNT_HEADER@[19] == 't');
    assert(INTERNAL_GAP_SECONDS_HEADER@[19] == 'g');
}

} // verus!
