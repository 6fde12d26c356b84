//! Headers of requests: the header map of the `http` crate, and what is read from it and
//! written to it.

use crate::error::{internal_error, EncodeError};
use crate::text::{contains_text, lemma_contains_middle};
use vstd::prelude::*;
use vstd::utf8::*;

verus! {

/// `http::HeaderMap`. What it holds is `header_entries`.
#[verifier::external_type_specification]
#[verifier::external_body]
#[verifier::reject_recursive_types(T)]
pub struct ExHeaderMap<T>(http::HeaderMap<T>);

/// `http::HeaderValue`. Its bytes are `header_value_bytes`.
#[verifier::external_type_specification]
#[verifier::external_body]
pub struct ExHeaderValue(http::HeaderValue);

/// The error of `http::HeaderValue::from_str`.
#[verifier::external_type_specification]
#[verifier::external_body]
pub struct ExInvalidHeaderValue(http::header::InvalidHeaderValue);

/// The error of `http::HeaderValue::to_str`.
#[verifier::external_type_specification]
#[verifier::external_body]
pub struct ExToStrError(http::header::ToStrError);

/// The error of `http::HeaderMap::try_insert`.
#[verifier::external_type_specification]
#[verifier::external_body]
pub struct ExMaxSizeReached(http::header::MaxSizeReached);

/// What a header map holds: for each name, in lower case, its values in order.
pub uninterp spec fn header_entries(map: http::HeaderMap) -> Map<Seq<char>, Seq<Seq<u8>>>;

/// The bytes of a header value.
pub uninterp spec fn header_value_bytes(value: http::HeaderValue) -> Seq<u8>;

/// With fewer names than this a header map always takes one more.
pub const HEADER_NAMES_SAFE: usize = 6554;

/// Whether a name is a header name as this library writes them: letters in lower case,
/// digits and hyphens.
pub open spec fn is_header_name(name: Seq<char>) -> bool {
    &&& 1 <= name.len() <= 64
    &&& forall|i: int|
        0 <= i < name.len() ==> 'a' <= #[trigger] name[i] <= 'z' || '0' <= name[i] <= '9'
            || name[i] == '-'
}

/// Whether a byte may stand in a header value.
pub open spec fn is_value_byte(byte: u8) -> bool {
    (byte >= 32 && byte != 127) || byte == 9
}

/// Whether a byte of a header value is readable as text.
pub open spec fn is_visible_byte(byte: u8) -> bool {
    (32 <= byte && byte < 127) || byte == 9
}

/// Whether a text can be a header value.
pub open spec fn is_value_text(text: Seq<char>) -> bool {
    forall|i: int|
        0 <= i < encode_utf8(text).len() ==> is_value_byte(#[trigger] encode_utf8(text)[i])
}

/// Whether a header value is readable as text.
pub open spec fn is_visible(bytes: Seq<u8>) -> bool {
    forall|i: int| 0 <= i < bytes.len() ==> is_visible_byte(#[trigger] bytes[i])
}

/// The text of a header value that is readable as text.
pub open spec fn ascii_text(bytes: Seq<u8>) -> Seq<char> {
    Seq::new(bytes.len(), |i: int| bytes[i] as char)
}

/// `http::HeaderMap::get`: the first value of the name.
#[verifier::external_body]
pub(crate) fn header_get<'a>(map: &'a http::HeaderMap, name: &str) -> (found: Option<
    &'a http::HeaderValue,
>)
    requires
        is_header_name(name@),
    ensures
        found is Some <==> header_entries(*map).contains_key(name@),
        found matches Some(value) ==> header_entries(*map)[name@].len() > 0
            && header_value_bytes(*value) == header_entries(*map)[name@][0],
{
    map.get(name)
}

/// `http::HeaderMap::try_insert`: the name then has this value alone. It fails, and leaves
/// the entries as they are, only where the table cannot grow, for which it has to hold many
/// names already. A map holds finitely many names.
#[verifier::external_body]
pub(crate) fn header_insert(
    map: &mut http::HeaderMap,
    name: &'static str,
    value: http::HeaderValue,
) -> (done: Result<Option<http::HeaderValue>, http::header::MaxSizeReached>)
    requires
        is_header_name(name@),
    ensures
        header_entries(*final(map)).dom().finite(),
        done is Ok ==> header_entries(*final(map)) == header_entries(*old(map)).insert(
            name@,
            seq![header_value_bytes(value)],
        ),
        done is Err ==> header_entries(*final(map)) == header_entries(*old(map)),
        done is Err ==> header_entries(*old(map)).dom().len() >= HEADER_NAMES_SAFE,
{
    map.try_insert(name, value)
}

/// `http::HeaderMap::remove`: the name and all its values are gone. A map holds finitely
/// many names.
#[verifier::external_body]
pub(crate) fn header_remove(map: &mut http::HeaderMap, name: &str)
    requires
        is_header_name(name@),
    ensures
        header_entries(*final(map)) == header_entries(*old(map)).remove(name@),
        header_entries(*final(map)).dom().finite(),
{
    map.remove(name);
}

/// `http::HeaderValue::from_str`: succeeds where the UTF-8 form of the text holds no
/// control character but tabs, and then has that form.
#[verifier::external_body]
pub(crate) fn header_value(text: &str) -> (made: Result<
    http::HeaderValue,
    http::header::InvalidHeaderValue,
>)
    ensures
        made is Ok <==> is_value_text(text@),
        made matches Ok(value) ==> header_value_bytes(value) == encode_utf8(text@),
{
    http::HeaderValue::from_str(text)
}

/// `http::HeaderValue::to_str`: succeeds where all bytes are visible ASCII, blanks or tabs.
#[verifier::external_body]
pub(crate) fn header_value_text(value: &http::HeaderValue) -> (text: Result<
    &str,
    http::header::ToStrError,
>)
    ensures
        text is Ok <==> is_visible(header_value_bytes(*value)),
        text matches Ok(t) ==> t@ == ascii_text(header_value_bytes(*value)),
{
    value.to_str()
}

/// The text of a header: that of its first value, where it has one that is readable.
pub open spec fn text_under(entries: Map<Seq<char>, Seq<Seq<u8>>>, name: Seq<char>) -> Option<
    Seq<char>,
> {
    if entries.contains_key(name) && is_visible(entries[name][0]) {
        Some(ascii_text(entries[name][0]))
    } else {
        None
    }
}

/// The text of an optional text.
pub open spec fn text_view(text: Option<&str>) -> Option<Seq<char>> {
    match text {
        Some(text) => Some(text@),
        None => None,
    }
}

/// The text of an optional text.
pub open spec fn string_view(text: Option<String>) -> Option<Seq<char>> {
    match text {
        Some(text) => Some(text@),
        None => None,
    }
}

/// The text of a header.
pub fn header_text<'a>(map: &'a http::HeaderMap, name: &str) -> (text: Option<&'a str>)
    requires
        is_header_name(name@),
    ensures
        text_view(text) == text_under(header_entries(*map), name@),
{
    match header_get(map, name) {
        Some(value) => match header_value_text(value) {
            Ok(text) => Some(text),
            Err(_) => None,
        },
        None => None,
    }
}

/// A header that has to be there was not, or is not readable.
pub open spec fn missing_header(name: Seq<char>) -> Seq<char> {
    "missing header "@ + name
}

/// The text of a header that has to be there.
pub fn required_header<'a>(map: &'a http::HeaderMap, name: &str) -> (text: Result<
    &'a str,
    EncodeError,
>)
    requires
        is_header_name(name@),
    ensures
        match text_under(header_entries(*map), name@) {
            Some(expected) => text matches Ok(t) && t@ == expected,
            None => text matches Err(error) && error.is_internal(missing_header(name@)),
        },
{
    match header_text(map, name) {
        Some(text) => Ok(text),
        None => Err(internal_error("missing header ".to_owned().concat(name).as_str())),
    }
}

// ---------------------------------------------------------------------------------------
// Changing several headers
// ---------------------------------------------------------------------------------------

/// A change to a header: its new value, or that it goes.
#[derive(Debug)]
pub struct HeaderChange {
    pub name: &'static str,
    pub value: Option<String>,
}

/// A header gets a value.
pub(crate) fn set_to(name: &'static str, value: String) -> (change: HeaderChange)
    ensures
        change.name@ == name@,
        change.value == Some(value),
{
    HeaderChange { name, value: Some(value) }
}

/// A header gets a value, or goes where there is none.
pub(crate) fn set_or_gone(name: &'static str, value: Option<String>) -> (change: HeaderChange)
    ensures
        change.name@ == name@,
        change.value == value,
{
    HeaderChange { name, value }
}

/// What a header change says: the name and the text of the new value.
pub open spec fn change_view(change: HeaderChange) -> (Seq<char>, Option<Seq<char>>) {
    (change.name@, string_view(change.value))
}

/// What header changes say.
pub open spec fn change_views(changes: Seq<HeaderChange>) -> Seq<(Seq<char>, Option<Seq<char>>)> {
    Seq::new(changes.len(), |i: int| change_view(changes[i]))
}

/// The headers after a change.
pub open spec fn changed(
    entries: Map<Seq<char>, Seq<Seq<u8>>>,
    change: (Seq<char>, Option<Seq<char>>),
) -> Map<Seq<char>, Seq<Seq<u8>>> {
    match change.1 {
        Some(text) => entries.insert(change.0, seq![encode_utf8(text)]),
        None => entries.remove(change.0),
    }
}

/// The headers after changes, in order.
pub open spec fn all_changed(
    entries: Map<Seq<char>, Seq<Seq<u8>>>,
    changes: Seq<(Seq<char>, Option<Seq<char>>)>,
) -> Map<Seq<char>, Seq<Seq<u8>>>
    decreases changes.len(),
{
    if changes.len() == 0 {
        entries
    } else {
        changed(all_changed(entries, changes.drop_last()), changes.last())
    }
}

/// Whether a change can be made: its value, if it has one, can be a header value.
pub open spec fn is_writable(change: (Seq<char>, Option<Seq<char>>)) -> bool {
    change.1 matches Some(text) ==> is_value_text(text)
}

/// Whether all changes can be made.
pub open spec fn are_writable(changes: Seq<(Seq<char>, Option<Seq<char>>)>) -> bool {
    forall|i: int| 0 <= i < changes.len() ==> is_writable(#[trigger] changes[i])
}

/// A text cannot be the value of a header.
pub open spec fn invalid_header_value(name: Seq<char>) -> Seq<char> {
    "invalid "@ + name + " header value: failed to parse header value"@
}

/// Whether making changes stopped at the change with this index: the changes before it were
/// made, and the error tells that its value cannot be a header value, or that the map, which
/// holds very many names, cannot take another one.
pub open spec fn stopped_at(
    entries: Map<Seq<char>, Seq<Seq<u8>>>,
    changes: Seq<(Seq<char>, Option<Seq<char>>)>,
    index: int,
    after: Map<Seq<char>, Seq<Seq<u8>>>,
    error: EncodeError,
) -> bool {
    &&& 0 <= index < changes.len()
    &&& are_writable(changes.take(index))
    &&& after == all_changed(entries, changes.take(index))
    &&& changes[index].1 is Some
    &&& if is_writable(changes[index]) {
        error.is_internal("max size reached"@) && after.dom().len() >= HEADER_NAMES_SAFE
    } else {
        error.is_internal(invalid_header_value(changes[index].0))
    }
}

/// Makes changes to headers, in order, up to the first that cannot be made.
pub fn change_headers(headers: &mut http::HeaderMap, changes: &Vec<HeaderChange>) -> (done: Result<
    (),
    EncodeError,
>)
    requires
        forall|i: int| 0 <= i < changes@.len() ==> is_header_name(#[trigger] changes@[i].name@),
    ensures
        match done {
            Ok(_) => {
                &&& are_writable(change_views(changes@))
                &&& header_entries(*final(headers)) == all_changed(
                    header_entries(*old(headers)),
                    change_views(changes@),
                )
            },
            Err(error) => exists|index: int|
                #[trigger] stopped_at(
                    header_entries(*old(headers)),
                    change_views(changes@),
                    index,
                    header_entries(*final(headers)),
                    error,
                ),
        },
        are_writable(change_views(changes@)) && header_entries(*old(headers)).dom().len()
            + changes@.len() <= HEADER_NAMES_SAFE ==> done is Ok,
{
    let ghost views = change_views(changes@);
    let ghost entries = header_entries(*headers);
    let total: usize = changes.len();
    let mut at: usize = 0;
    assert(views.take(0) =~= Seq::empty());
    while at < total
        invariant
            at <= total,
            total == changes@.len(),
            views == change_views(changes@),
            entries == header_entries(*old(headers)),
            forall|i: int|
                0 <= i < changes@.len() ==> is_header_name(#[trigger] changes@[i].name@),
            are_writable(views.take(at as int)),
            header_entries(*headers) == all_changed(entries, views.take(at as int)),
            at > 0 ==> entries.dom().finite(),
            at > 0 ==> header_entries(*headers).dom().finite() && header_entries(
                *headers,
            ).dom().len() <= entries.dom().len() + at,
        decreases total - at,
    {
        let change = &changes[at];
        let ghost before = header_entries(*headers);
        let ghost next = views.take(at + 1);
        assert(next.drop_last() =~= views.take(at as int));
        assert(next.last() == change_view(*change));
        assert(views[at as int] == change_view(*change));
        match &change.value {
            Some(text) => match header_value(text.as_str()) {
                Ok(value) => match header_insert(headers, change.name, value) {
                    Ok(_) => {
                        proof {
                            let after = header_entries(*headers);
                            assert(after.dom() =~= before.dom().insert(change.name@));
                            if at == 0 {
                                assert(before.dom().subset_of(after.dom()));
                                vstd::set_lib::lemma_len_subset(before.dom(), after.dom());
                            }
                        }
                    },
                    Err(_) => {
                        let error = internal_error("max size reached");
                        assert(stopped_at(
                            entries,
                            views,
                            at as int,
                            header_entries(*headers),
                            error,
                        ));
                        return Err(error);
                    },
                },
                Err(_) => {
                    let message = "invalid ".to_owned().concat(change.name).concat(
                        " header value: failed to parse header value",
                    );
                    let error = internal_error(message.as_str());
                    assert(stopped_at(
                        entries,
                        views,
                        at as int,
                        header_entries(*headers),
                        error,
                    ));
                    assert(!is_writable(views[at as int]));
                    return Err(error);
                },
            },
            None => {
                header_remove(headers, change.name);
                proof {
                    let after = header_entries(*headers);
                    assert(after.dom() =~= before.dom().remove(change.name@));
                    if at == 0 {
                        assert(before.dom().subset_of(after.dom().insert(change.name@)));
                        vstd::set_lib::lemma_len_subset(
                            before.dom(),
                            after.dom().insert(change.name@),
                        );
                    }
                }
            },
        }
        assert forall|i: int| 0 <= i < next.len() implies is_writable(#[trigger] next[i]) by {
            if i < at {
                assert(next[i] == views.take(at as int)[i]);
            }
        }
        at = at + 1;
    }
    assert(views.take(total as int) =~= views);
    Ok(())
}

/// What a header holds after changes is what the last change to it says.
pub proof fn last_change_holds(
    entries: Map<Seq<char>, Seq<Seq<u8>>>,
    changes: Seq<(Seq<char>, Option<Seq<char>>)>,
    index: int,
)
    requires
        0 <= index < changes.len(),
        forall|j: int| index < j < changes.len() ==> (#[trigger] changes[j]).0 != changes[index].0,
    ensures
        match changes[index].1 {
            Some(text) => {
                &&& all_changed(entries, changes).contains_key(changes[index].0)
                &&& all_changed(entries, changes)[changes[index].0] == seq![encode_utf8(text)]
            },
            None => !all_changed(entries, changes).contains_key(changes[index].0),
        },
    decreases changes.len(),
{
    if index < changes.len() - 1 {
        let before = changes.drop_last();
        assert forall|j: int| index < j < before.len() implies (#[trigger] before[j]).0
            != before[index].0 by {
            assert(before[j] == changes[j]);
        }
        last_change_holds(entries, before, index);
        assert(changes.last() == changes[changes.len() - 1]);
    }
}

/// Text of visible ASCII characters, blanks and tabs.
pub open spec fn is_plain(text: Seq<char>) -> bool {
    forall|i: int|
        0 <= i < text.len() ==> ' ' <= #[trigger] text[i] <= '~' || text[i] == '\u{9}'
}

/// Plain text can be a header value and is read back as it was written.
pub proof fn plain_text_reads_back(text: Seq<char>)
    requires
        is_plain(text),
    ensures
        is_value_text(text),
        is_visible(encode_utf8(text)),
        ascii_text(encode_utf8(text)) == text,
{
    assert(is_ascii_chars(text)) by {
        assert forall|i: int| 0 <= i < text.len() implies '\0' <= #[trigger] text[i] <= '\u{7f}' by {
            assert(' ' <= text[i] <= '~' || text[i] == '\u{9}');
        }
    }
    is_ascii_chars_encode_utf8(text);
    let bytes = encode_utf8(text);
    assert forall|i: int| 0 <= i < bytes.len() implies is_visible_byte(#[trigger] bytes[i])
        && is_value_byte(bytes[i]) && bytes[i] as char == text[i] by {
        assert(' ' <= text[i] <= '~' || text[i] == '\u{9}');
        assert(bytes[i] == text[i] as u8);
    }
    assert(ascii_text(bytes) =~= text);
}

/// Headers that no change names stay as they are.
pub proof fn other_headers_stay(
    entries: Map<Seq<char>, Seq<Seq<u8>>>,
    changes: Seq<(Seq<char>, Option<Seq<char>>)>,
    name: Seq<char>,
)
    requires
        forall|i: int| 0 <= i < changes.len() ==> (#[trigger] changes[i]).0 != name,
    ensures
        all_changed(entries, changes).contains_key(name) == entries.contains_key(name),
        entries.contains_key(name) ==> all_changed(entries, changes)[name] == entries[name],
    decreases changes.len(),
{
    if changes.len() > 0 {
        let before = changes.drop_last();
        assert forall|i: int| 0 <= i < before.len() implies (#[trigger] before[i]).0 != name by {
            assert(before[i] == changes[i]);
        }
        other_headers_stay(entries, before, name);
        assert(changes.last() == changes[changes.len() - 1]);
    }
}

/// Of several values of a header the first one is read, and it is read only where all of it is
/// visible. A header that is not there has no text.
pub proof fn the_first_value_is_read(
    entries: Map<Seq<char>, Seq<Seq<u8>>>,
    name: Seq<char>,
    text: Seq<char>,
    values: Seq<Seq<u8>>,
)
    ensures
        is_plain(text) ==> text_under(
            entries.insert(name, seq![encode_utf8(text)] + values),
            name,
        ) == Some(text),
        text_under(entries.remove(name), name) is None,
        text_under(entries, name) matches Some(read) ==> is_plain(read) && entries.contains_key(
            name,
        ) && read.len() == entries[name][0].len(),
{
    let all = seq![encode_utf8(text)] + values;
    assert(all[0] == encode_utf8(text));
    if is_plain(text) {
        plain_text_reads_back(text);
    }
    if let Some(read) = text_under(entries, name) {
        assert forall|i: int| 0 <= i < read.len() implies ' ' <= #[trigger] read[i] <= '~'
            || read[i] == '\u{9}' by {
            assert(is_visible_byte(entries[name][0][i]));
        }
    }
}

/// An optional text is seen as it is, and so are changes to headers, in order.
pub proof fn changes_are_seen_as_they_are(
    text: Option<String>,
    borrowed: Option<&str>,
    changes: Seq<HeaderChange>,
    index: int,
)
    ensures
        text is Some <==> string_view(text) is Some,
        text is Some ==> string_view(text) == Some(text->Some_0@),
        borrowed is Some <==> text_view(borrowed) is Some,
        borrowed is Some ==> text_view(borrowed) == Some(borrowed->Some_0@),
        change_views(changes).len() == changes.len(),
        0 <= index < changes.len() ==> change_views(changes)[index].0 == changes[index].name@
            && change_views(changes)[index].1 == string_view(changes[index].value),
{
}

/// Of the bytes that may stand in a header value, those of ASCII are readable, and no others are.
/// Changes can be made together where each of them can be made.
pub proof fn readable_bytes_may_stand_in_values(
    byte: u8,
    changes: Seq<(Seq<char>, Option<Seq<char>>)>,
    change: (Seq<char>, Option<Seq<char>>),
)
    ensures
        is_visible_byte(byte) <==> is_value_byte(byte) && byte < 128,
        byte >= 128 ==> is_value_byte(byte),
        are_writable(changes.push(change)) <==> are_writable(changes) && is_writable(change),
        are_writable(seq![change] + changes) <==> are_writable(changes) && is_writable(change),
        change.1 is None ==> is_writable(change),
{
    let pushed = changes.push(change);
    let put = seq![change] + changes;
    assert(pushed[changes.len() as int] == change);
    assert(put[0] == change);
    if are_writable(pushed) {
        assert forall|i: int| 0 <= i < changes.len() implies is_writable(#[trigger] changes[i]) by {
            assert(pushed[i] == changes[i]);
        }
    }
    if are_writable(put) {
        assert forall|i: int| 0 <= i < changes.len() implies is_writable(#[trigger] changes[i]) by {
            assert(put[i + 1] == changes[i]);
        }
    }
}

/// What is wrong with a header is told with its name: that it is missing, at the end, and that
/// its value cannot be written, before the words for that.
pub proof fn faults_name_their_header(name: Seq<char>)
    ensures
        name.is_suffix_of(missing_header(name)),
        "missing header"@.is_prefix_of(missing_header(name)),
        contains_text(invalid_header_value(name), name),
        "invalid "@.is_prefix_of(invalid_header_value(name)),
        "failed to parse header value"@.is_suffix_of(invalid_header_value(name)),
{
    reveal_strlit("missing header");
    reveal_strlit("missing header ");
    reveal_strlit(" header value: failed to parse header value");
    reveal_strlit("failed to parse header value");
    let missing = missing_header(name);
    let start = "missing header"@;
    assert(missing.subrange(0, start.len() as int) =~= start);
    assert(missing.subrange(missing.len() - name.len(), missing.len() as int) =~= name);
    let invalid = invalid_header_value(name);
    let first = "invalid "@;
    let end = "failed to parse header value"@;
    lemma_contains_middle(first, name, " header value: failed to parse header value"@);
    assert(invalid.subrange(0, first.len() as int) =~= first);
    assert(invalid.subrange(invalid.len() - end.len(), invalid.len() as int) =~= end);
}

} // verus!
