//! What a request asks for: reading its query, its headers and its form fields.

use crate::error::{client_error, EncodeError};
use crate::headers::{
    header_entries, header_text, is_header_name, string_view, text_under, text_view,
};
use crate::options::{EncodeQuality, StreamArtifactSelection};
use crate::protocol::{
    CONTENT_TYPE, INTERNAL_STREAMING_MODE_HEADER, INTERNAL_STREAMING_MODE_JSONL,
};
use crate::seconds::{
    default_gap, default_track_gap, gap_named, is_gap, parse_gap_seconds, seconds_view, Seconds,
    SecondsView,
};
use crate::text::{
    after_last_dot, behind_last_dot, ends_with, lemma_trimmed_unchanged, lowered, pair_views,
    same_text, starts_with, trimmed,
};
use vstd::prelude::*;

verus! {

/// The head of a request.
#[derive(Debug)]
pub struct RequestHead {
    /// The path of the URI.
    pub path: String,
    /// The query of the URI, as it was sent.
    pub query: Option<String>,
    pub headers: http::HeaderMap,
}

impl RequestHead {
    /// The header lines of the request.
    pub open spec fn entries(self) -> Map<Seq<char>, Seq<Seq<u8>>> {
        header_entries(self.headers)
    }

    /// The query of the request: empty where there is none.
    pub open spec fn query_text(self) -> Seq<char> {
        match self.query {
            Some(query) => query@,
            None => ""@,
        }
    }
}

/// The header in which a client may name the artifacts of a stream.
pub const ARTIFACT_HEADER: &'static str = "x-encodec-artifact";

/// The header in which a client may name the file that it sends.
pub const FILENAME_HEADER: &'static str = "x-filename";

proof fn lemma_header_names()
    ensures
        is_header_name(ARTIFACT_HEADER@),
        is_header_name(FILENAME_HEADER@),
        is_header_name(CONTENT_TYPE@),
        is_header_name(INTERNAL_STREAMING_MODE_HEADER@),
{
    reveal_strlit("x-encodec-artifact");
    reveal_strlit("x-filename");
    crate::protocol::header_names_are_distinct();
}

// ---------------------------------------------------------------------------------------
// The query
// ---------------------------------------------------------------------------------------

/// The names and values that a query in the form `application/x-www-form-urlencoded` holds,
/// in order, decoded.
pub uninterp spec fn form_pairs(query: Seq<char>) -> Seq<(Seq<char>, Seq<char>)>;

/// `url::form_urlencoded::parse`, all pairs of it. An empty query holds none.
#[verifier::external_body]
pub(crate) fn query_pairs(query: &str) -> (pairs: Vec<(String, String)>)
    ensures
        pair_views(pairs@) == form_pairs(query@),
        query@.len() == 0 ==> pairs@.len() == 0,
{
    url::form_urlencoded::parse(query.as_bytes()).into_owned().collect()
}

/// The value of the first pair with the given name.
pub open spec fn first_value(pairs: Seq<(Seq<char>, Seq<char>)>, name: Seq<char>) -> Option<
    Seq<char>,
>
    decreases pairs.len(),
{
    if pairs.len() == 0 {
        None
    } else if pairs.first().0 == name {
        Some(pairs.first().1)
    } else {
        first_value(pairs.drop_first(), name)
    }
}

/// Whether the pair with this index is the first with the given name.
pub open spec fn is_first(pairs: Seq<(Seq<char>, Seq<char>)>, name: Seq<char>, index: int) -> bool {
    &&& 0 <= index < pairs.len()
    &&& pairs[index].0 == name
    &&& forall|i: int| 0 <= i < index ==> (#[trigger] pairs[i]).0 != name
}

/// Whether no pair has the given name.
pub open spec fn is_absent(pairs: Seq<(Seq<char>, Seq<char>)>, name: Seq<char>) -> bool {
    forall|i: int| 0 <= i < pairs.len() ==> (#[trigger] pairs[i]).0 != name
}

/// The first pair with a name decides, whatever comes before and after it.
pub proof fn the_first_pair_counts(
    pairs: Seq<(Seq<char>, Seq<char>)>,
    name: Seq<char>,
    index: int,
)
    requires
        is_first(pairs, name, index),
    ensures
        first_value(pairs, name) == Some(pairs[index].1),
    decreases pairs.len(),
{
    if index > 0 {
        let rest = pairs.drop_first();
        assert(pairs[0].0 != name);
        assert forall|i: int| 0 <= i < index - 1 implies (#[trigger] rest[i]).0 != name by {
            assert(rest[i] == pairs[i + 1]);
        }
        the_first_pair_counts(rest, name, index - 1);
    }
}

/// A name that no pair has has no value.
pub proof fn absent_names_have_no_value(pairs: Seq<(Seq<char>, Seq<char>)>, name: Seq<char>)
    requires
        is_absent(pairs, name),
    ensures
        first_value(pairs, name) is None,
    decreases pairs.len(),
{
    if pairs.len() > 0 {
        let rest = pairs.drop_first();
        assert(pairs[0].0 != name);
        assert forall|i: int| 0 <= i < rest.len() implies (#[trigger] rest[i]).0 != name by {
            assert(rest[i] == pairs[i + 1]);
        }
        absent_names_have_no_value(rest, name);
    }
}

/// Whether the request has a query that holds these names and values.
pub open spec fn has_query(head: RequestHead, pairs: Seq<(Seq<char>, Seq<char>)>) -> bool {
    head.query matches Some(query) && form_pairs(query@) == pairs
}

/// The value of a parameter of a query.
pub open spec fn query_value(head: RequestHead, name: Seq<char>) -> Option<Seq<char>> {
    first_value(form_pairs(head.query_text()), name)
}

/// The value of the first pair with the given name.
pub fn first_pair_value(pairs: &Vec<(String, String)>, name: &str) -> (value: Option<String>)
    ensures
        string_view(value) == first_value(pair_views(pairs@), name@),
{
    let ghost views = pair_views(pairs@);
    let total: usize = pairs.len();
    let mut at: usize = 0;
    assert(views.skip(0) =~= views);
    while at < total
        invariant
            at <= total,
            total == pairs@.len(),
            views == pair_views(pairs@),
            first_value(views, name@) == first_value(views.skip(at as int), name@),
        decreases total - at,
    {
        let ghost rest = views.skip(at as int);
        assert(rest.first() == (pairs@[at as int].0@, pairs@[at as int].1@));
        assert(rest.drop_first() =~= views.skip(at + 1));
        if same_text(pairs[at].0.as_str(), name) {
            return Some(pairs[at].1.clone());
        }
        at = at + 1;
    }
    None
}

/// The value of a parameter of the query.
pub fn query_param(head: &RequestHead, name: &str) -> (value: Option<String>)
    ensures
        string_view(value) == query_value(*head, name@),
        head.query is None ==> value is None,
{
    let query: &str = match &head.query {
        Some(query) => query.as_str(),
        None => "",
    };
    proof {
        reveal_strlit("");
    }
    let pairs = query_pairs(query);
    first_pair_value(&pairs, name)
}

/// The word by which a request selects artifacts: the parameter `artifact`, else the
/// parameter `output`, else a header.
pub open spec fn artifact_word(head: RequestHead) -> Option<Seq<char>> {
    match query_value(head, "artifact"@) {
        Some(word) => Some(word),
        None => match query_value(head, "output"@) {
            Some(word) => Some(word),
            None => text_under(head.entries(), ARTIFACT_HEADER@),
        },
    }
}

/// The parameter `artifact` decides what a stream carries, whatever else the query and the
/// headers say.
pub proof fn the_artifact_parameter_selects(
    head: RequestHead,
    pairs: Seq<(Seq<char>, Seq<char>)>,
    index: int,
)
    requires
        has_query(head, pairs),
        is_first(pairs, "artifact"@, index),
    ensures
        artifact_word(head) == Some(pairs[index].1),
{
    the_first_pair_counts(pairs, "artifact"@, index);
}

/// Where the query has no parameter `artifact`, the parameter `output` decides, whatever the
/// headers say.
pub proof fn else_the_output_parameter_selects(
    head: RequestHead,
    pairs: Seq<(Seq<char>, Seq<char>)>,
    index: int,
)
    requires
        has_query(head, pairs),
        is_absent(pairs, "artifact"@),
        is_first(pairs, "output"@, index),
    ensures
        artifact_word(head) == Some(pairs[index].1),
{
    absent_names_have_no_value(pairs, "artifact"@);
    the_first_pair_counts(pairs, "output"@, index);
}

/// Where the query has neither parameter, the header decides, whatever else the query says: the
/// selection is the one that the text of the header gives, and that of no word where there is
/// no such header.
pub proof fn else_the_header_selects(head: RequestHead, pairs: Seq<(Seq<char>, Seq<char>)>)
    requires
        has_query(head, pairs),
        is_absent(pairs, "artifact"@),
        is_absent(pairs, "output"@),
    ensures
        artifact_word(head) == text_under(header_entries(head.headers), "x-encodec-artifact"@),
        !header_entries(head.headers).contains_key("x-encodec-artifact"@) ==> artifact_word(
            head,
        ) is None,
{
    absent_names_have_no_value(pairs, "artifact"@);
    absent_names_have_no_value(pairs, "output"@);
}

/// The artifacts that a request selects.
pub fn stream_artifact_selection(head: &RequestHead) -> (selection: Result<
    StreamArtifactSelection,
    EncodeError,
>)
    ensures
        StreamArtifactSelection::parsed(artifact_word(*head), selection),
        head.query is None ==> StreamArtifactSelection::parsed(
            text_under(head.entries(), ARTIFACT_HEADER@),
            selection,
        ),
        head.query is None && !head.entries().contains_key(ARTIFACT_HEADER@) ==> selection == Ok::<
            StreamArtifactSelection,
            EncodeError,
        >(StreamArtifactSelection::Png),
        head.query matches Some(query) ==> {
            let pairs = form_pairs(query@);
            is_absent(pairs, "artifact"@) && is_absent(pairs, "output"@)
                ==> StreamArtifactSelection::parsed(
                text_under(header_entries(head.headers), "x-encodec-artifact"@),
                selection,
            )
        },
{
    proof {
        if let Some(query) = &head.query {
            let pairs = form_pairs(query@);
            if is_absent(pairs, "artifact"@) && is_absent(pairs, "output"@) {
                else_the_header_selects(*head, pairs);
            }
        }
    }
    if let Some(word) = query_param(head, "artifact") {
        return StreamArtifactSelection::parse(Some(word.as_str()));
    }
    if let Some(word) = query_param(head, "output") {
        return StreamArtifactSelection::parse(Some(word.as_str()));
    }
    proof {
        lemma_header_names();
    }
    StreamArtifactSelection::parse(header_text(&head.headers, ARTIFACT_HEADER))
}

/// The quality and the gap between tracks that a request names, or what the client is told:
/// `gap_given` says whether it names a gap, `number` is what the text of the gap stands
/// for, and `word` names the quality.
pub open spec fn options_named(
    gap_given: bool,
    number: Option<SecondsView>,
    word: Option<Seq<char>>,
) -> Result<(EncodeQuality, SecondsView), Seq<char>> {
    let gap = if gap_given {
        gap_named(number)
    } else {
        Ok(default_gap())
    };
    match gap {
        Err(message) => Err(message),
        Ok(gap) => match word {
            None => Ok((EncodeQuality::Hq, gap)),
            Some(word) => match EncodeQuality::named(word) {
                Some(quality) => Ok((quality, gap)),
                None => Err(EncodeQuality::refusal(word)),
            },
        },
    }
}

/// The quality and the gap do not depend on each other. The quality is the one that the word
/// names, whatever is said of the gap, and high quality where there is no word. The gap is the
/// one that is given, whatever is said of the quality, and one and a half seconds where none is
/// given. Nothing is refused but a word that names no quality and a gap that is none, the gap
/// first.
pub proof fn quality_and_gap_are_apart(
    gap_given: bool,
    number: Option<SecondsView>,
    word: Option<Seq<char>>,
)
    ensures
        ({
            let fits = match number {
                Some(gap) => is_gap(gap.bits),
                None => false,
            };
            let known = match word {
                Some(word) => EncodeQuality::named(word) is Some,
                None => true,
            };
            match options_named(gap_given, number, word) {
                Ok(options) => {
                    &&& known
                    &&& word matches Some(word) ==> EncodeQuality::named(word) == Some(options.0)
                    &&& word is None ==> options.0 is Hq
                    &&& gap_given ==> fits && number == Some(options.1)
                    &&& !gap_given ==> options.1 == default_gap()
                },
                Err(message) => {
                    &&& !known || (gap_given && !fits)
                    &&& gap_given && !fits ==> gap_named(number) == Err::<SecondsView, Seq<char>>(
                        message,
                    )
                    &&& !gap_given || fits ==> (word matches Some(word) && message
                        == EncodeQuality::refusal(word))
                },
            }
        }),
{
}

/// The quality and the gap between tracks that a request names, or the defaults for what it
/// does not name.
pub fn encode_options(gap_given: bool, number: Option<Seconds>, word: Option<&str>) -> (options:
    Result<(EncodeQuality, Seconds), EncodeError>)
    ensures
        match options_named(gap_given, seconds_view(number), text_view(word)) {
            Ok(expected) => options matches Ok(o) && o.0 == expected.0 && o.1@ == expected.1,
            Err(message) => options matches Err(error) && error.is_client(message),
        },
        options matches Ok(o) ==> match word {
            Some(word) => EncodeQuality::named(word@) == Some(o.0),
            None => o.0 is Hq,
        },
        options matches Ok(o) ==> if gap_given {
            seconds_view(number) == Some(o.1@)
        } else {
            o.1@ == default_gap()
        },
{
    let gap: Seconds = if gap_given {
        match parse_gap_seconds(number) {
            Ok(gap) => gap,
            Err(error) => return Err(error),
        }
    } else {
        default_track_gap()
    };
    match EncodeQuality::parse(word) {
        Ok(quality) => Ok((quality, gap)),
        Err(error) => Err(error),
    }
}

/// What a request's query says of the encoding, or what the client is told. `number` is what
/// the text of the gap stands for.
pub open spec fn query_options(head: RequestHead, number: Option<SecondsView>) -> Result<
    (EncodeQuality, SecondsView),
    Seq<char>,
> {
    options_named(
        query_value(head, "gap_seconds"@) is Some,
        number,
        query_value(head, "quality"@),
    )
}

/// The quality of a request is the one that the first parameter `quality` of its query names,
/// whatever else the query says, and high quality where the query has no such parameter.
pub proof fn the_query_names_the_quality(
    head: RequestHead,
    pairs: Seq<(Seq<char>, Seq<char>)>,
    number: Option<SecondsView>,
)
    requires
        has_query(head, pairs),
    ensures
        query_options(head, number) matches Ok(options) ==> {
            &&& forall|index: int| #[trigger]
                is_first(pairs, "quality"@, index) ==> EncodeQuality::named(pairs[index].1) == Some(
                    options.0,
                )
            &&& is_absent(pairs, "quality"@) ==> options.0 is Hq
        },
        forall|index: int| #[trigger]
            is_first(pairs, "quality"@, index) && EncodeQuality::named(pairs[index].1) is None
                ==> query_options(head, number) is Err,
{
    assert forall|index: int| #[trigger] is_first(pairs, "quality"@, index) implies first_value(
        pairs,
        "quality"@,
    ) == Some(pairs[index].1) by {
        the_first_pair_counts(pairs, "quality"@, index);
    }
    if is_absent(pairs, "quality"@) {
        absent_names_have_no_value(pairs, "quality"@);
    }
}

/// The gap of a request is the number that the parameter `gap_seconds` of its query stands for,
/// whatever else the query says, and one and a half seconds where the query has no such
/// parameter. A parameter that stands for no gap is refused.
pub proof fn the_query_names_the_gap(
    head: RequestHead,
    pairs: Seq<(Seq<char>, Seq<char>)>,
    number: Option<SecondsView>,
    index: int,
)
    requires
        has_query(head, pairs),
    ensures
        query_options(head, number) matches Ok(options) ==> {
            &&& is_first(pairs, "gap_seconds"@, index) ==> number == Some(options.1) && is_gap(
                options.1.bits,
            )
            &&& is_absent(pairs, "gap_seconds"@) ==> options.1 == default_gap()
        },
        is_first(pairs, "gap_seconds"@, index) && !(number matches Some(gap) && is_gap(gap.bits))
            ==> query_options(head, number) is Err,
{
    if is_first(pairs, "gap_seconds"@, index) {
        the_first_pair_counts(pairs, "gap_seconds"@, index);
    }
    if is_absent(pairs, "gap_seconds"@) {
        absent_names_have_no_value(pairs, "gap_seconds"@);
    }
}

/// What a request's query says of the encoding. `number` is the number that the value of
/// the parameter `gap_seconds` stands for, if it is one.
pub fn request_encode_options(head: &RequestHead, number: Option<Seconds>) -> (options: Result<
    (EncodeQuality, Seconds),
    EncodeError,
>)
    ensures
        match query_options(*head, seconds_view(number)) {
            Ok(expected) => options matches Ok(o) && o.0 == expected.0 && o.1@ == expected.1,
            Err(message) => options matches Err(error) && error.is_client(message),
        },
        head.query is None ==> (options matches Ok(o) && o.0 == EncodeQuality::Hq && o.1@
            == default_gap()),
        options is Ok && head.query is Some ==> {
            let o = options->Ok_0;
            let pairs = form_pairs(head.query->Some_0@);
            &&& forall|index: int| #[trigger]
                is_first(pairs, "quality"@, index) ==> EncodeQuality::named(pairs[index].1) == Some(
                    o.0,
                )
            &&& forall|index: int| #[trigger]
                is_first(pairs, "gap_seconds"@, index) ==> seconds_view(number) == Some(o.1@)
        },
{
    proof {
        if let Some(query) = &head.query {
            let pairs = form_pairs(query@);
            the_query_names_the_quality(*head, pairs, seconds_view(number));
            assert forall|index: int| #[trigger] is_first(pairs, "gap_seconds"@, index) implies
                first_value(pairs, "gap_seconds"@) is Some by {
                the_first_pair_counts(pairs, "gap_seconds"@, index);
            }
        }
    }
    let gap_given: bool = match query_param(head, "gap_seconds") {
        Some(_) => true,
        None => false,
    };
    let word = query_param(head, "quality");
    match &word {
        Some(word) => encode_options(gap_given, number, Some(word.as_str())),
        None => encode_options(gap_given, number, None),
    }
}

// ---------------------------------------------------------------------------------------
// Headers
// ---------------------------------------------------------------------------------------

/// The ending of a file with the given content type.
pub open spec fn extension_of(content_type: Seq<char>) -> Option<Seq<char>> {
    let plain = lowered(content_type);
    if plain == "audio/mpeg"@ {
        Some(".mp3"@)
    } else if plain == "audio/wav"@ || plain == "audio/x-wav"@ || plain == "audio/wave"@ {
        Some(".wav"@)
    } else if plain == "audio/flac"@ {
        Some(".flac"@)
    } else if plain == "audio/mp4"@ || plain == "audio/x-m4a"@ {
        Some(".m4a"@)
    } else if plain == "audio/aac"@ {
        Some(".aac"@)
    } else if plain == "audio/ogg"@ {
        Some(".ogg"@)
    } else {
        None
    }
}

/// The ending of a file with the given content type.
pub fn extension_for_content_type(content_type: &str) -> (extension: Option<&'static str>)
    ensures
        text_view(extension) == extension_of(content_type@),
{
    let plain = content_type.to_ascii_lowercase();
    let plain = plain.as_str();
    if same_text(plain, "audio/mpeg") {
        Some(".mp3")
    } else if same_text(plain, "audio/wav") || same_text(plain, "audio/x-wav") || same_text(
        plain,
        "audio/wave",
    ) {
        Some(".wav")
    } else if same_text(plain, "audio/flac") {
        Some(".flac")
    } else if same_text(plain, "audio/mp4") || same_text(plain, "audio/x-m4a") {
        Some(".m4a")
    } else if same_text(plain, "audio/aac") {
        Some(".aac")
    } else if same_text(plain, "audio/ogg") {
        Some(".ogg")
    } else {
        None
    }
}

/// The name of the file that a request carries as its body: what the client says, without
/// white space around it, or else a name with an ending that fits the content type.
pub open spec fn filename_of(entries: Map<Seq<char>, Seq<Seq<u8>>>) -> Seq<char> {
    let given = match text_under(entries, FILENAME_HEADER@) {
        Some(name) => trimmed(name),
        None => Seq::empty(),
    };
    if given.len() > 0 {
        given
    } else {
        let extension = match text_under(entries, CONTENT_TYPE@) {
            Some(content_type) => extension_of(content_type),
            None => None,
        };
        match extension {
            Some(extension) => "upload"@ + extension,
            None => "upload"@ + ".bin"@,
        }
    }
}

/// How a content type is written does not matter, and one that has an ending keeps it: where the
/// type itself is called like an ending, with or without the mark of an unregistered type, that
/// is the ending.
pub proof fn endings_fit_types(content_type: Seq<char>, other: Seq<char>)
    ensures
        lowered(content_type) == lowered(other) ==> extension_of(content_type) == extension_of(
            other,
        ),
        extension_of(content_type) matches Some(extension) ==> {
            let plain = lowered(content_type);
            ||| plain == "audio/"@ + extension.drop_first()
            ||| plain == "audio/x-"@ + extension.drop_first()
            ||| plain == "audio/wave"@ && extension == ".wav"@
            ||| plain == "audio/mpeg"@ && extension == ".mp3"@
            ||| plain == "audio/mp4"@ && extension == ".m4a"@
        },
        lowered(content_type) == "audio/mpeg"@ || lowered(content_type) == "audio/wav"@ || lowered(
            content_type,
        ) == "audio/flac"@ || lowered(content_type) == "audio/mp4"@ || lowered(content_type)
            == "audio/aac"@ || lowered(content_type) == "audio/ogg"@ ==> extension_of(
            content_type,
        ) is Some,
{
    reveal_strlit("audio/");
    reveal_strlit("audio/x-");
    reveal_strlit("audio/wav");
    reveal_strlit("audio/x-wav");
    reveal_strlit("audio/flac");
    reveal_strlit("audio/x-m4a");
    reveal_strlit("audio/aac");
    reveal_strlit("audio/ogg");
    reveal_strlit(".wav");
    reveal_strlit(".flac");
    reveal_strlit(".m4a");
    reveal_strlit(".aac");
    reveal_strlit(".ogg");
    assert("audio/"@ + ".wav"@.drop_first() =~= "audio/wav"@);
    assert("audio/x-"@ + ".wav"@.drop_first() =~= "audio/x-wav"@);
    assert("audio/"@ + ".flac"@.drop_first() =~= "audio/flac"@);
    assert("audio/x-"@ + ".m4a"@.drop_first() =~= "audio/x-m4a"@);
    assert("audio/"@ + ".aac"@.drop_first() =~= "audio/aac"@);
    assert("audio/"@ + ".ogg"@.drop_first() =~= "audio/ogg"@);
}

/// A file is called what the client calls it, without the white space around that. Where the
/// client does not name it, or with white space only, its name is one that the service gives,
/// with the ending that fits the content type, if there is one.
pub proof fn files_are_called_what_the_client_says(entries: Map<Seq<char>, Seq<Seq<u8>>>)
    ensures
        ({
            let given = text_under(entries, "x-filename"@);
            let name = filename_of(entries);
            if given is Some && trimmed(given->Some_0).len() > 0 {
                name == trimmed(given->Some_0)
            } else {
                &&& name.len() > 6
                &&& name.take(6) == "upload"@
                &&& name.skip(6) == (match text_under(entries, "content-type"@) {
                    Some(content_type) => match extension_of(content_type) {
                        Some(extension) => extension,
                        None => ".bin"@,
                    },
                    None => ".bin"@,
                })
            }
        }),
{
    reveal_strlit("upload");
    reveal_strlit(".bin");
    reveal_strlit(".mp3");
    reveal_strlit(".wav");
    reveal_strlit(".flac");
    reveal_strlit(".m4a");
    reveal_strlit(".aac");
    reveal_strlit(".ogg");
    let given = text_under(entries, "x-filename"@);
    if !(given is Some && trimmed(given->Some_0).len() > 0) {
        let extension = match text_under(entries, "content-type"@) {
            Some(content_type) => match extension_of(content_type) {
                Some(extension) => extension,
                None => ".bin"@,
            },
            None => ".bin"@,
        };
        let name = filename_of(entries);
        assert(name == "upload"@ + extension);
        assert(name.take(6) =~= "upload"@);
        assert(name.skip(6) =~= extension);
    }
}

/// The name of the file that a request carries as its body.
pub fn request_filename(head: &RequestHead) -> (name: String)
    ensures
        name@ == filename_of(head.entries()),
{
    proof {
        lemma_header_names();
        reveal_strlit("");
    }
    if let Some(value) = header_text(&head.headers, FILENAME_HEADER) {
        let given = value.trim();
        if !same_text(given, "") {
            assert(given@.len() > 0) by {
                if given@.len() == 0 {
                    assert(given@ =~= ""@);
                }
            }
            return given.to_owned();
        }
    }
    let extension: &'static str = match header_text(&head.headers, CONTENT_TYPE) {
        Some(content_type) => match extension_for_content_type(content_type) {
            Some(extension) => extension,
            None => ".bin",
        },
        None => ".bin",
    };
    "upload".to_owned().concat(extension)
}

/// Whether a content type, in lower case, is one of audio that can be decoded while it
/// arrives.
pub open spec fn is_streamable_type(content_type: Seq<char>) -> bool {
    ||| content_type == "audio/mpeg"@
    ||| content_type == "audio/wav"@
    ||| content_type == "audio/x-wav"@
    ||| content_type == "audio/wave"@
    ||| content_type == "audio/flac"@
    ||| content_type == "audio/mp4"@
    ||| content_type == "audio/x-m4a"@
    ||| content_type == "audio/aac"@
    ||| content_type == "audio/ogg"@
    ||| content_type == "audio/opus"@
    ||| content_type == "audio/webm"@
    ||| content_type == "video/webm"@
}

/// Whether a content type, in lower case, is one of audio that can be decoded while it
/// arrives.
pub fn is_streamable_audio_content_type(content_type: &str) -> (yes: bool)
    ensures
        yes == is_streamable_type(content_type@),
{
    same_text(content_type, "audio/mpeg") || same_text(content_type, "audio/wav") || same_text(
        content_type,
        "audio/x-wav",
    ) || same_text(content_type, "audio/wave") || same_text(content_type, "audio/flac")
        || same_text(content_type, "audio/mp4") || same_text(content_type, "audio/x-m4a")
        || same_text(content_type, "audio/aac") || same_text(content_type, "audio/ogg")
        || same_text(content_type, "audio/opus") || same_text(content_type, "audio/webm")
        || same_text(content_type, "video/webm")
}

/// Whether the ending of a file, without the dot, is one of audio that can be decoded while
/// it arrives.
pub open spec fn is_streamable_ending(extension: Seq<char>) -> bool {
    let plain = lowered(trimmed(extension));
    ||| plain == "mp3"@
    ||| plain == "wav"@
    ||| plain == "wave"@
    ||| plain == "flac"@
    ||| plain == "m4a"@
    ||| plain == "mp4"@
    ||| plain == "aac"@
    ||| plain == "ogg"@
    ||| plain == "oga"@
    ||| plain == "opus"@
    ||| plain == "webm"@
}

/// Whether the ending of a file, without the dot, is one of audio that can be decoded while
/// it arrives.
pub fn is_streamable_audio_extension(extension: &str) -> (yes: bool)
    ensures
        yes == is_streamable_ending(extension@),
{
    let plain = extension.trim().to_ascii_lowercase();
    let plain = plain.as_str();
    same_text(plain, "mp3") || same_text(plain, "wav") || same_text(plain, "wave") || same_text(
        plain,
        "flac",
    ) || same_text(plain, "m4a") || same_text(plain, "mp4") || same_text(plain, "aac")
        || same_text(plain, "ogg") || same_text(plain, "oga") || same_text(plain, "opus")
        || same_text(plain, "webm")
}

/// A file whose content type has an ending of its own is one that can be decoded while it
/// arrives, by its content type as well as by that ending.
pub proof fn types_with_endings_stream(content_type: Seq<char>)
    ensures
        extension_of(content_type) matches Some(extension) ==> {
            &&& is_streamable_type(lowered(content_type))
            &&& extension.len() > 0
            &&& extension[0] == '.'
            &&& is_streamable_ending(extension.drop_first())
        },
{
    reveal_strlit(".mp3");
    reveal_strlit(".wav");
    reveal_strlit(".flac");
    reveal_strlit(".m4a");
    reveal_strlit(".aac");
    reveal_strlit(".ogg");
    reveal_strlit("mp3");
    reveal_strlit("wav");
    reveal_strlit("flac");
    reveal_strlit("m4a");
    reveal_strlit("aac");
    reveal_strlit("ogg");
    if let Some(extension) = extension_of(content_type) {
        let ending = extension.drop_first();
        lemma_trimmed_unchanged(ending);
        assert(lowered(ending) =~= ending);
        if extension == ".mp3"@ {
            assert(ending =~= "mp3"@);
        } else if extension == ".wav"@ {
            assert(ending =~= "wav"@);
        } else if extension == ".flac"@ {
            assert(ending =~= "flac"@);
        } else if extension == ".m4a"@ {
            assert(ending =~= "m4a"@);
        } else if extension == ".aac"@ {
            assert(ending =~= "aac"@);
        } else {
            assert(ending =~= "ogg"@);
        }
    }
}

/// Whether the body of a request can be decoded while it arrives: not where it is a form,
/// and else where its content type or the name of the file says so.
pub open spec fn streams_decoded(entries: Map<Seq<char>, Seq<Seq<u8>>>) -> bool {
    let by_name = match after_last_dot(filename_of(entries)) {
        Some(extension) => is_streamable_ending(extension),
        None => false,
    };
    match text_under(entries, CONTENT_TYPE@) {
        Some(content_type) => {
            let plain = lowered(content_type);
            !"multipart/"@.is_prefix_of(plain) && (is_streamable_type(plain) || by_name)
        },
        None => by_name,
    }
}

/// A form is never decoded while it arrives, whatever its file is called. A body whose content
/// type, in whatever case, is one of audio always is. Of any other body the ending of its name
/// decides.
pub proof fn types_decide_before_names(entries: Map<Seq<char>, Seq<Seq<u8>>>)
    ensures
        ({
            let by_name = match after_last_dot(filename_of(entries)) {
                Some(extension) => is_streamable_ending(extension),
                None => false,
            };
            match text_under(entries, "content-type"@) {
                Some(content_type) => {
                    let plain = lowered(content_type);
                    &&& "multipart/"@.is_prefix_of(plain) ==> !streams_decoded(entries)
                    &&& is_streamable_type(plain) ==> streams_decoded(entries)
                    &&& !"multipart/"@.is_prefix_of(plain) && !is_streamable_type(plain)
                        ==> streams_decoded(entries) == by_name
                },
                None => streams_decoded(entries) == by_name,
            }
        }),
{
    if let Some(content_type) = text_under(entries, "content-type"@) {
        if is_streamable_type(lowered(content_type)) {
            lemma_audio_is_no_form(lowered(content_type));
        }
    }
}

proof fn lemma_audio_is_no_form(content_type: Seq<char>)
    requires
        is_streamable_type(content_type),
    ensures
        !"multipart/"@.is_prefix_of(content_type),
        !is_json_type(content_type),
{
    reveal_strlit("audio/mpeg");
    reveal_strlit("audio/wav");
    reveal_strlit("audio/x-wav");
    reveal_strlit("audio/wave");
    reveal_strlit("audio/flac");
    reveal_strlit("audio/mp4");
    reveal_strlit("audio/x-m4a");
    reveal_strlit("audio/aac");
    reveal_strlit("audio/ogg");
    reveal_strlit("audio/opus");
    reveal_strlit("audio/webm");
    reveal_strlit("video/webm");
    reveal_strlit("multipart/");
    reveal_strlit("application/json");
    reveal_strlit("+json");
    let plain = lowered(content_type);
    assert(content_type[0] == 'a' || content_type[0] == 'v');
    assert(content_type[1] == 'u' || content_type[1] == 'i');
    assert(content_type.last() != 'n' && !('A' <= content_type.last() <= 'Z'));
    assert(plain[1] == content_type[1]);
    assert(plain.last() == content_type.last());
    if "multipart/"@.is_prefix_of(content_type) {
        assert("multipart/"@[0] == content_type.subrange(0, 10)[0]);
    }
    if "application/json"@.is_prefix_of(plain) {
        assert("application/json"@[1] == plain.subrange(0, 16)[1]);
    }
    if "+json"@.is_suffix_of(plain) {
        assert("+json"@[4] == plain.subrange(plain.len() - 5, plain.len() as int)[4]);
    }
}

/// Whether the body of a request can be decoded while it arrives.
pub fn request_supports_stream_decode(head: &RequestHead) -> (yes: bool)
    ensures
        yes == streams_decoded(head.entries()),
{
    proof {
        lemma_header_names();
    }
    if let Some(content_type) = header_text(&head.headers, CONTENT_TYPE) {
        let plain = content_type.to_ascii_lowercase();
        if starts_with(plain.as_str(), "multipart/") {
            return false;
        }
        if is_streamable_audio_content_type(plain.as_str()) {
            return true;
        }
    }
    let filename = request_filename(head);
    match behind_last_dot(filename.as_str()) {
        Some(extension) => is_streamable_audio_extension(extension),
        None => false,
    }
}

/// Whether a content type is one of JSON.
pub open spec fn is_json_type(content_type: Seq<char>) -> bool {
    let plain = lowered(content_type);
    "application/json"@.is_prefix_of(plain) || "+json"@.is_suffix_of(plain)
}

/// JSON is told by how its content type begins or ends, and by nothing else: the plain type with
/// whatever parameters, and every type with the suffix of JSON, in whatever case. Audio that can
/// be decoded while it arrives is no JSON.
pub proof fn json_is_told_by_its_type(content_type: Seq<char>, rest: Seq<char>)
    ensures
        is_json_type("application/json"@ + rest),
        is_json_type(rest + "+json"@),
        is_json_type(content_type) == is_json_type(lowered(content_type)),
        is_json_type(content_type) ==> "application/json"@.is_prefix_of(lowered(content_type))
            || "+json"@.is_suffix_of(lowered(content_type)),
        is_streamable_type(content_type) ==> !is_json_type(content_type),
{
    reveal_strlit("application/json");
    reveal_strlit("+json");
    let plain = lowered("application/json"@ + rest);
    assert(plain.subrange(0, 16) =~= "application/json"@);
    let other = lowered(rest + "+json"@);
    assert(other.subrange(other.len() - 5, other.len() as int) =~= "+json"@);
    assert(lowered(lowered(content_type)) =~= lowered(content_type));
    if is_streamable_type(content_type) {
        lemma_audio_is_no_form(content_type);
    }
}

/// Refuses a request whose body is JSON.
pub fn reject_json_requests(head: &RequestHead) -> (checked: Result<(), EncodeError>)
    ensures
        match text_under(head.entries(), CONTENT_TYPE@) {
            Some(content_type) => if is_json_type(content_type) {
                checked matches Err(error) && error.is_client(
                    "JSON request bodies are not supported; upload audio bytes instead"@,
                )
            } else {
                checked is Ok
            },
            None => checked is Ok,
        },
{
    proof {
        lemma_header_names();
    }
    if let Some(content_type) = header_text(&head.headers, CONTENT_TYPE) {
        let plain = content_type.to_ascii_lowercase();
        if starts_with(plain.as_str(), "application/json") || ends_with(plain.as_str(), "+json") {
            return Err(
                client_error(
                    "JSON request bodies are not supported; upload audio bytes instead".to_owned(),
                ),
            );
        }
    }
    Ok(())
}

/// Whether the response to a request is streamed. The case of ASCII letters does not matter.
pub open spec fn is_streamed(entries: Map<Seq<char>, Seq<Seq<u8>>>) -> bool {
    text_under(entries, INTERNAL_STREAMING_MODE_HEADER@) matches Some(mode) && lowered(mode)
        == lowered(INTERNAL_STREAMING_MODE_JSONL@)
}

/// Whether the response to a request is streamed.
pub fn is_streaming_request(head: &RequestHead) -> (yes: bool)
    ensures
        yes == is_streamed(head.entries()),
{
    proof {
        lemma_header_names();
    }
    match header_text(&head.headers, INTERNAL_STREAMING_MODE_HEADER) {
        Some(mode) => same_text(
            mode.to_ascii_lowercase().as_str(),
            INTERNAL_STREAMING_MODE_JSONL.to_ascii_lowercase().as_str(),
        ),
        None => false,
    }
}

/// Formats that can be decoded while they arrive are known by the ending of a file, in whatever
/// case and with white space around it.
pub proof fn formats_are_known_by_ending(extension: Seq<char>, other: Seq<char>)
    ensures
        lowered(trimmed(extension)) == lowered(trimmed(other)) ==> is_streamable_ending(extension)
            == is_streamable_ending(other),
        is_streamable_ending("mp3"@),
        is_streamable_ending("wav"@),
        is_streamable_ending("wave"@),
        is_streamable_ending("flac"@),
        is_streamable_ending("m4a"@),
        is_streamable_ending("mp4"@),
        is_streamable_ending("aac"@),
        is_streamable_ending("ogg"@),
        is_streamable_ending("oga"@),
        is_streamable_ending("opus"@),
        is_streamable_ending("webm"@),
        !is_streamable_ending("bin"@),
        !is_streamable_ending(""@),
{
    reveal_strlit("mp3");
    lemma_trimmed_unchanged("mp3"@);
    assert(lowered("mp3"@) =~= "mp3"@);
    reveal_strlit("wav");
    lemma_trimmed_unchanged("wav"@);
    assert(lowered("wav"@) =~= "wav"@);
    reveal_strlit("wave");
    lemma_trimmed_unchanged("wave"@);
    assert(lowered("wave"@) =~= "wave"@);
    reveal_strlit("flac");
    lemma_trimmed_unchanged("flac"@);
    assert(lowered("flac"@) =~= "flac"@);
    reveal_strlit("m4a");
    lemma_trimmed_unchanged("m4a"@);
    assert(lowered("m4a"@) =~= "m4a"@);
    reveal_strlit("mp4");
    lemma_trimmed_unchanged("mp4"@);
    assert(lowered("mp4"@) =~= "mp4"@);
    reveal_strlit("aac");
    lemma_trimmed_unchanged("aac"@);
    assert(lowered("aac"@) =~= "aac"@);
    reveal_strlit("ogg");
    lemma_trimmed_unchanged("ogg"@);
    assert(lowered("ogg"@) =~= "ogg"@);
    reveal_strlit("oga");
    lemma_trimmed_unchanged("oga"@);
    assert(lowered("oga"@) =~= "oga"@);
    reveal_strlit("opus");
    lemma_trimmed_unchanged("opus"@);
    assert(lowered("opus"@) =~= "opus"@);
    reveal_strlit("webm");
    lemma_trimmed_unchanged("webm"@);
    assert(lowered("webm"@) =~= "webm"@);
    reveal_strlit("bin");
    lemma_trimmed_unchanged("bin"@);
    assert(lowered("bin"@) =~= "bin"@);
    reveal_strlit("");
    lemma_trimmed_unchanged(""@);
    assert(lowered(""@) =~= ""@);
    assert("bin"@[0] == 'b');
    assert(""@.len() == 0);
}

/// Formats that can be decoded while they arrive are known by their content type where they are
/// known by the ending that is called like it, and webm is known whether or not there is video in
/// it.
pub proof fn formats_are_known_by_type(ending: Seq<char>)
    ensures
        is_streamable_type("audio/mpeg"@),
        is_streamable_type("audio/wav"@),
        is_streamable_type("audio/x-wav"@),
        is_streamable_type("audio/wave"@),
        is_streamable_type("audio/flac"@),
        is_streamable_type("audio/mp4"@),
        is_streamable_type("audio/x-m4a"@),
        is_streamable_type("audio/aac"@),
        is_streamable_type("audio/ogg"@),
        is_streamable_type("audio/opus"@),
        is_streamable_type("audio/webm"@),
        is_streamable_type("video/webm"@),
        is_streamable_type("audio/"@ + ending) ==> {
            ||| is_streamable_ending(ending)
            ||| ending == "mpeg"@
            ||| "x-"@.is_prefix_of(ending) && is_streamable_ending(ending.skip(2))
        },
        !is_streamable_type("application/octet-stream"@),
{
    reveal_strlit("audio/");
    reveal_strlit("x-");
    reveal_strlit("mpeg");
    reveal_strlit("audio/mpeg");
    reveal_strlit("video/webm");
    reveal_strlit("application/octet-stream");
    assert("application/octet-stream"@.len() == 24);
    let content_type = "audio/"@ + ending;
    assert(content_type.skip(6) =~= ending);
    assert(content_type[0] == 'a');
    assert("video/webm"@[0] == 'v');
    assert("audio/mpeg"@.skip(6) =~= "mpeg"@);
    assert("audio/mpeg"@.len() == 10);
    formats_are_known_by_ending(ending, ending);
    reveal_strlit("audio/wav");
    reveal_strlit("wav");
    assert("audio/wav"@.skip(6) =~= "wav"@);
    assert("audio/wav"@.len() == 9);
    reveal_strlit("audio/wave");
    reveal_strlit("wave");
    assert("audio/wave"@.skip(6) =~= "wave"@);
    assert("audio/wave"@.len() == 10);
    reveal_strlit("audio/flac");
    reveal_strlit("flac");
    assert("audio/flac"@.skip(6) =~= "flac"@);
    assert("audio/flac"@.len() == 10);
    reveal_strlit("audio/mp4");
    reveal_strlit("mp4");
    assert("audio/mp4"@.skip(6) =~= "mp4"@);
    assert("audio/mp4"@.len() == 9);
    reveal_strlit("audio/aac");
    reveal_strlit("aac");
    assert("audio/aac"@.skip(6) =~= "aac"@);
    assert("audio/aac"@.len() == 9);
    reveal_strlit("audio/ogg");
    reveal_strlit("ogg");
    assert("audio/ogg"@.skip(6) =~= "ogg"@);
    assert("audio/ogg"@.len() == 9);
    reveal_strlit("audio/opus");
    reveal_strlit("opus");
    assert("audio/opus"@.skip(6) =~= "opus"@);
    assert("audio/opus"@.len() == 10);
    reveal_strlit("audio/webm");
    reveal_strlit("webm");
    assert("audio/webm"@.skip(6) =~= "webm"@);
    assert("audio/webm"@.len() == 10);
    reveal_strlit("audio/x-wav");
    reveal_strlit("audio/x-m4a");
    reveal_strlit("m4a");
    assert("audio/x-wav"@.skip(6).skip(2) =~= "wav"@);
    assert("audio/x-m4a"@.skip(6).skip(2) =~= "m4a"@);
    assert("audio/x-wav"@.skip(6).subrange(0, 2) =~= "x-"@);
    assert("audio/x-m4a"@.skip(6).subrange(0, 2) =~= "x-"@);
    assert("audio/x-wav"@.len() == 11);
    assert("audio/x-m4a"@.len() == 11);
}

/// A response is streamed only where the header names the one mode of streaming that there is,
/// in whatever case. A head is seen with its own headers and its own query.
pub proof fn only_one_mode_streams(head: RequestHead)
    ensures
        head.entries() == header_entries(head.headers),
        head.query matches Some(query) ==> head.query_text() == query@,
        is_streamed(head.entries()) <==> (text_under(
            header_entries(head.headers),
            INTERNAL_STREAMING_MODE_HEADER@,
        ) matches Some(mode) && lowered(mode) == "jsonl"@),
{
    reveal_strlit("jsonl");
    assert(lowered("jsonl"@) =~= "jsonl"@);
}

} // verus!
