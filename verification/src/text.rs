//! Text: trimming, letter case, searching, decimal numbers, and the passage between
//! text and bytes.

use vstd::prelude::*;
use vstd::utf8::*;

verus! {

// ---------------------------------------------------------------------------------------
// What the standard library's text functions return
// ---------------------------------------------------------------------------------------

/// Whether a character has the Unicode property `White_Space`.
pub open spec fn is_white_space(c: char) -> bool {
    ||| '\u{9}' <= c <= '\u{d}'
    ||| c == '\u{20}'
    ||| c == '\u{85}'
    ||| c == '\u{a0}'
    ||| c == '\u{1680}'
    ||| '\u{2000}' <= c <= '\u{200a}'
    ||| c == '\u{2028}'
    ||| c == '\u{2029}'
    ||| c == '\u{202f}'
    ||| c == '\u{205f}'
    ||| c == '\u{3000}'
}

/// `text` without the white space at its start.
pub open spec fn trimmed_start(text: Seq<char>) -> Seq<char>
    decreases text.len(),
{
    if text.len() > 0 && is_white_space(text.first()) {
        trimmed_start(text.drop_first())
    } else {
        text
    }
}

/// `text` without the white space at its end.
pub open spec fn trimmed_end(text: Seq<char>) -> Seq<char>
    decreases text.len(),
{
    if text.len() > 0 && is_white_space(text.last()) {
        trimmed_end(text.drop_last())
    } else {
        text
    }
}

/// `text` without the white space at its two ends.
pub open spec fn trimmed(text: Seq<char>) -> Seq<char> {
    trimmed_end(trimmed_start(text))
}

/// The ASCII lower-case form of a character; any other character is its own.
pub open spec fn ascii_lower(c: char) -> char {
    if 'A' <= c <= 'Z' {
        ((c as u32) + 32) as char
    } else {
        c
    }
}

/// `text` with its ASCII letters in lower case.
pub open spec fn lowered(text: Seq<char>) -> Seq<char> {
    Seq::new(text.len(), |i: int| ascii_lower(text[i]))
}

/// `str::trim`: the text without leading and trailing white space, where white space is
/// the Unicode property `White_Space`.
pub assume_specification[ str::trim ](text: &str) -> (r: &str)
    ensures
        r@ == trimmed(text@),
;

/// `str::to_ascii_lowercase`: the ASCII letters in lower case, all else unchanged.
pub assume_specification[ str::to_ascii_lowercase ](text: &str) -> (r: String)
    ensures
        r@ == lowered(text@),
;

/// The error of `core::str::from_utf8`.
#[verifier::external_type_specification]
#[verifier::external_body]
pub struct ExUtf8Error(core::str::Utf8Error);

/// `core::str::from_utf8`: succeeds on valid UTF-8, and then gives the text with these
/// very bytes.
pub assume_specification[ core::str::from_utf8 ](bytes: &[u8]) -> (r: Result<
    &str,
    core::str::Utf8Error,
>)
    ensures
        r is Ok <==> valid_utf8(bytes@),
        r matches Ok(text) ==> encode_utf8(text@) == bytes@,
;

/// What `String::from_utf8_lossy` makes of bytes.
pub uninterp spec fn lossy_text(bytes: Seq<u8>) -> Seq<char>;

/// `String::from_utf8_lossy`: bytes that are valid UTF-8 are decoded as they are. What
/// stands in for an invalid sequence is left to the name.
#[verifier::external_body]
pub(crate) fn text_lossy(bytes: &[u8]) -> (text: String)
    ensures
        text@ == lossy_text(bytes@),
        valid_utf8(bytes@) ==> text@ == decode_utf8(bytes@),
{
    String::from_utf8_lossy(bytes).into_owned()
}

/// How `{:?}` writes a text: between quotes, with escapes.
pub uninterp spec fn debug_text(text: Seq<char>) -> Seq<char>;

/// The `Debug` form of a text.
#[verifier::external_body]
pub(crate) fn quoted(text: &str) -> (r: String)
    ensures
        r@ == debug_text(text@),
{
    format!("{:?}", text)
}

// ---------------------------------------------------------------------------------------
// Trimming and letter case
// ---------------------------------------------------------------------------------------

/// Text that neither starts nor ends with white space is left alone by trimming.
pub proof fn lemma_trimmed_unchanged(text: Seq<char>)
    requires
        text.len() > 0 ==> !is_white_space(text.first()) && !is_white_space(text.last()),
    ensures
        trimmed(text) == text,
{
}

proof fn lemma_trimmed_start(text: Seq<char>, after: char)
    requires
        is_white_space(after),
    ensures
        trimmed_start(text).len() > 0 ==> !is_white_space(trimmed_start(text).first()),
        trimmed_start(text).len() > 0 ==> trimmed_start(text.push(after)) == trimmed_start(
            text,
        ).push(after),
        trimmed_start(text).len() == 0 ==> trimmed_start(text.push(after)).len() == 0,
    decreases text.len(),
{
    let longer = text.push(after);
    if text.len() == 0 {
        assert(longer.first() == after);
        assert(trimmed_start(longer.drop_first()) == longer.drop_first());
    } else if is_white_space(text.first()) {
        assert(longer.first() == text.first());
        assert(longer.drop_first() =~= text.drop_first().push(after));
        lemma_trimmed_start(text.drop_first(), after);
    } else {
        assert(longer.first() == text.first());
    }
}

proof fn lemma_trimmed_end(text: Seq<char>)
    ensures
        trimmed_end(text).len() > 0 ==> !is_white_space(trimmed_end(text).last()),
        trimmed_end(text).is_prefix_of(text),
    decreases text.len(),
{
    if text.len() > 0 && is_white_space(text.last()) {
        let shorter = text.drop_last();
        lemma_trimmed_end(shorter);
        let size = trimmed_end(text).len() as int;
        assert(text.subrange(0, size) =~= shorter.subrange(0, size));
    } else {
        assert(text.subrange(0, text.len() as int) =~= text);
    }
}

/// White space round a text does not matter to what is left of it when it is taken off, and what
/// is left neither starts nor ends with any. A blank, a tab and the two ends of a line are white
/// space. Digits, letters and marks of ASCII are not.
pub proof fn white_space_is_taken_off_both_ends(text: Seq<char>, space: char)
    requires
        is_white_space(space),
    ensures
        trimmed(seq![space] + text) == trimmed(text),
        trimmed(text.push(space)) == trimmed(text),
        trimmed(text).len() > 0 ==> !is_white_space(trimmed(text).first()),
        trimmed(text).len() > 0 ==> !is_white_space(trimmed(text).last()),
        trimmed(trimmed(text)) == trimmed(text),
        is_white_space(' ') && is_white_space('\t') && is_white_space('\r') && is_white_space('\n'),
        forall|c: char| '!' <= c <= '~' ==> !#[trigger] is_white_space(c),
{
    assert((seq![space] + text).drop_first() =~= text);
    lemma_trimmed_start(text, space);
    let start = trimmed_start(text);
    assert(start.push(space).drop_last() =~= start);
    lemma_trimmed_end(start);
    if trimmed(text).len() > 0 {
        assert(trimmed(text).first() == start.first());
    }
    lemma_trimmed_unchanged(trimmed(text));
}

/// Pairs of texts.
pub open spec fn pair_views(pairs: Seq<(String, String)>) -> Seq<(Seq<char>, Seq<char>)> {
    Seq::new(pairs.len(), |i: int| (pairs[i].0@, pairs[i].1@))
}

/// Whether two texts are the same.
pub fn same_text(a: &str, b: &str) -> (same: bool)
    ensures
        same == (a@ == b@),
{
    let left = a.as_bytes();
    let right = b.as_bytes();
    proof {
        encode_utf8_decode_utf8(a@);
        encode_utf8_decode_utf8(b@);
    }
    if left.len() != right.len() {
        return false;
    }
    let mut i: usize = 0;
    while i < left.len()
        invariant
            i <= left.len(),
            left.len() == right.len(),
            left@ == encode_utf8(a@),
            right@ == encode_utf8(b@),
            forall|j: int| 0 <= j < i ==> left@[j] == right@[j],
        decreases left.len() - i,
    {
        if left[i] != right[i] {
            return false;
        }
        i = i + 1;
    }
    assert(left@ =~= right@);
    true
}

/// The characters of a text.
pub fn characters(text: &str) -> (list: Vec<char>)
    ensures
        list@ == text@,
{
    let mut list: Vec<char> = Vec::new();
    for c in it: text.chars()
        invariant
            it.seq() == text@,
            list@ == text@.take(it.index()),
    {
        list.push(c);
        assert(text@.take(it.index() + 1) =~= text@.take(it.index()).push(c));
    }
    assert(text@.take(text@.len() as int) =~= text@);
    list
}

/// Whether `text` contains `part`.
pub open spec fn contains_text(text: Seq<char>, part: Seq<char>) -> bool {
    exists|at: int|
        0 <= at <= text.len() - part.len() && #[trigger] text.subrange(at, at + part.len())
            == part
}

/// A text contains what stands between its start and its end.
pub proof fn lemma_contains_middle(start: Seq<char>, part: Seq<char>, end: Seq<char>)
    ensures
        contains_text(start + part + end, part),
{
    let at = start.len() as int;
    assert((start + part + end).subrange(at, at + part.len()) =~= part);
}

/// A text contains every part of its end.
pub proof fn lemma_contains_within(start: Seq<char>, end: Seq<char>, from: int, to: int)
    requires
        0 <= from <= to <= end.len(),
    ensures
        contains_text(start + end, end.subrange(from, to)),
{
    let at = start.len() + from;
    let part = end.subrange(from, to);
    assert((start + end).subrange(at, at + part.len()) =~= part);
}

/// What stands between the same two things in the same whole is the same.
pub proof fn lemma_same_middle<A>(start: Seq<A>, a: Seq<A>, b: Seq<A>, end: Seq<A>)
    requires
        start + a + end == start + b + end,
    ensures
        a == b,
{
    let whole = start + a + end;
    assert(whole.len() == start.len() + a.len() + end.len());
    assert((start + b + end).len() == start.len() + b.len() + end.len());
    let from = start.len() as int;
    assert(a =~= whole.subrange(from, from + a.len()));
    assert(b =~= (start + b + end).subrange(from, from + b.len()));
}

/// Texts with the same UTF-8 form behind the same start are the same.
pub proof fn lemma_same_text(start: Seq<char>, a: Seq<char>, b: Seq<char>)
    requires
        encode_utf8(start + a) == encode_utf8(start + b),
    ensures
        a == b,
{
    encode_utf8_decode_utf8(start + a);
    encode_utf8_decode_utf8(start + b);
    let none = Seq::<char>::empty();
    assert(start + a =~= start + a + none);
    assert(start + b =~= start + b + none);
    lemma_same_middle(start, a, b, none);
}

/// Whether `part` stands in `text` at `at`.
fn matches_at(text: &Vec<char>, part: &Vec<char>, at: usize) -> (matches: bool)
    requires
        at + part@.len() <= text@.len(),
    ensures
        matches == (text@.subrange(at as int, at + part@.len()) == part@),
{
    let total: usize = text.len();
    let mut i: usize = 0;
    while i < part.len()
        invariant
            i <= part@.len(),
            total == text@.len(),
            at + part@.len() <= total,
            forall|j: int| 0 <= j < i ==> text@[at + j] == part@[j],
        decreases part@.len() - i,
    {
        if text[at + i] != part[i] {
            assert(text@.subrange(at as int, at + part@.len())[i as int] != part@[i as int]);
            return false;
        }
        i = i + 1;
    }
    assert(text@.subrange(at as int, at + part@.len()) =~= part@);
    true
}

/// Whether `text` starts with `start`.
pub fn starts_with(text: &str, start: &str) -> (yes: bool)
    ensures
        yes == start@.is_prefix_of(text@),
{
    let whole = characters(text);
    let part = characters(start);
    if part.len() > whole.len() {
        return false;
    }
    matches_at(&whole, &part, 0)
}

/// Whether `text` ends with `end`.
pub fn ends_with(text: &str, end: &str) -> (yes: bool)
    ensures
        yes == end@.is_suffix_of(text@),
{
    let whole = characters(text);
    let part = characters(end);
    if part.len() > whole.len() {
        return false;
    }
    matches_at(&whole, &part, whole.len() - part.len())
}

/// Whether `text` contains `part`.
pub fn contains(text: &str, part: &str) -> (yes: bool)
    ensures
        yes == contains_text(text@, part@),
{
    let whole = characters(text);
    let piece = characters(part);
    if piece.len() > whole.len() {
        return false;
    }
    let last: usize = whole.len() - piece.len();
    let mut at: usize = 0;
    loop
        invariant
            whole@ == text@,
            piece@ == part@,
            last == whole@.len() - piece@.len(),
            at <= last,
            forall|k: int|
                0 <= k < at ==> #[trigger] text@.subrange(k, k + part@.len()) != part@,
        decreases last - at,
    {
        if matches_at(&whole, &piece, at) {
            return true;
        }
        if at == last {
            return false;
        }
        at = at + 1;
    }
}

/// Where the last dot of a text stands.
pub open spec fn last_dot(text: Seq<char>) -> Option<int>
    decreases text.len(),
{
    if text.len() == 0 {
        None
    } else if text.last() == '.' {
        Some(text.len() - 1)
    } else {
        last_dot(text.drop_last())
    }
}

/// What stands behind the last dot of a text, if it has one.
pub open spec fn after_last_dot(text: Seq<char>) -> Option<Seq<char>> {
    match last_dot(text) {
        Some(at) => Some(text.skip(at + 1)),
        None => None,
    }
}

/// What stands behind the last dot holds no dot, and with all that stands before it, and the
/// dot, it makes up the text. A text in which nothing stands behind a dot has none.
pub proof fn endings_stand_behind_the_last_dot(text: Seq<char>)
    ensures
        match after_last_dot(text) {
            Some(ending) => {
                &&& !ending.contains('.')
                &&& ending.len() < text.len()
                &&& text == text.take(text.len() - ending.len() - 1) + seq!['.'] + ending
            },
            None => !text.contains('.'),
        },
{
    lemma_last_dot(text);
    if let Some(at) = last_dot(text) {
        let ending = text.skip(at + 1);
        assert forall|i: int| 0 <= i < ending.len() implies ending[i] != '.' by {
            assert(ending[i] == text[at + 1 + i]);
        }
        assert(text =~= text.take(at) + seq!['.'] + ending);
    }
}

proof fn lemma_last_dot(text: Seq<char>)
    ensures
        match last_dot(text) {
            Some(at) => {
                &&& 0 <= at < text.len()
                &&& text[at] == '.'
                &&& forall|i: int| at < i < text.len() ==> #[trigger] text[i] != '.'
            },
            None => forall|i: int| 0 <= i < text.len() ==> #[trigger] text[i] != '.',
        },
    decreases text.len(),
{
    if text.len() > 0 && text.last() != '.' {
        let before = text.drop_last();
        lemma_last_dot(before);
        assert forall|i: int|
            0 <= i < text.len() && (last_dot(before) matches Some(at) ==> at < i) implies
            #[trigger] text[i] != '.' by {
            if i < before.len() {
                assert(text[i] == before[i]);
            }
        }
    }
}

/// What stands behind the last dot of a text, if it has one.
pub fn behind_last_dot<'a>(text: &'a str) -> (rest: Option<&'a str>)
    ensures
        match rest {
            Some(r) => after_last_dot(text@) == Some(r@),
            None => after_last_dot(text@) is None,
        },
{
    let list = characters(text);
    let mut end: usize = list.len();
    assert(text@.take(end as int) =~= text@);
    while end > 0
        invariant
            list@ == text@,
            end <= list@.len(),
            last_dot(text@) == last_dot(text@.take(end as int)),
        decreases end,
    {
        assert(text@.take(end as int).drop_last() =~= text@.take(end - 1));
        if list[end - 1] == '.' {
            assert(last_dot(text@) == Some(end - 1));
            let rest = text.substring_char(end, list.len());
            assert(rest@ =~= text@.skip(end as int));
            return Some(rest);
        }
        end = end - 1;
    }
    None
}

// ---------------------------------------------------------------------------------------
// Decimal numbers
// ---------------------------------------------------------------------------------------

/// The character of a decimal digit.
pub open spec fn digit_char(digit: nat) -> char {
    ((48 + digit) as u32) as char
}

/// A number in decimal notation, without leading zeros.
pub open spec fn decimal(number: nat) -> Seq<char>
    decreases number,
{
    if number < 10 {
        seq![digit_char(number)]
    } else {
        decimal(number / 10).push(digit_char(number % 10))
    }
}

fn digit_text(digit: u64) -> (text: &'static str)
    requires
        digit < 10,
    ensures
        text@ == seq![digit_char(digit as nat)],
{
    proof {
        reveal_strlit("0");
        reveal_strlit("1");
        reveal_strlit("2");
        reveal_strlit("3");
        reveal_strlit("4");
        reveal_strlit("5");
        reveal_strlit("6");
        reveal_strlit("7");
        reveal_strlit("8");
        reveal_strlit("9");
    }
    let text: &'static str = match digit {
        0 => "0",
        1 => "1",
        2 => "2",
        3 => "3",
        4 => "4",
        5 => "5",
        6 => "6",
        7 => "7",
        8 => "8",
        _ => "9",
    };
    assert(text@ =~= seq![digit_char(digit as nat)]);
    text
}

/// A number in decimal notation.
pub fn decimal_text(number: u64) -> (text: String)
    ensures
        text@ == decimal(number as nat),
    decreases number,
{
    if number < 10 {
        digit_text(number).to_owned()
    } else {
        let mut text = decimal_text(number / 10);
        text.append(digit_text(number % 10));
        assert(text@ =~= decimal(number as nat));
        text
    }
}

/// Whether a character is a decimal digit.
pub open spec fn is_digit(c: char) -> bool {
    '0' <= c <= '9'
}

/// Why a text is no decimal number.
#[derive(Clone, Copy, Debug, PartialEq, Eq, Structural)]
pub enum NumberFault {
    /// There is nothing to read.
    Empty,
    /// A character other than a digit comes first.
    InvalidDigit,
    /// The digits so far already exceed the largest number.
    TooLarge,
}

impl NumberFault {
    /// The fault in words.
    pub open spec fn words(self) -> Seq<char> {
        match self {
            NumberFault::Empty => "cannot parse integer from empty string"@,
            NumberFault::InvalidDigit => "invalid digit found in string"@,
            NumberFault::TooLarge => "number too large to fit in target type"@,
        }
    }

    /// The fault in words.
    pub fn describe(self) -> (words: &'static str)
        ensures
            words@ == self.words(),
    {
        match self {
            NumberFault::Empty => "cannot parse integer from empty string",
            NumberFault::InvalidDigit => "invalid digit found in string",
            NumberFault::TooLarge => "number too large to fit in target type",
        }
    }
}

/// Whatever keeps a text from being a number is told by words of its own.
pub proof fn number_faults_are_told_apart(fault: NumberFault, other: NumberFault)
    ensures
        fault.words() == other.words() ==> fault == other,
        "cannot parse integer"@.is_prefix_of(fault.words()) <==> fault == NumberFault::Empty,
        "invalid digit"@.is_prefix_of(fault.words()) <==> fault == NumberFault::InvalidDigit,
        "number too large"@.is_prefix_of(fault.words()) <==> fault == NumberFault::TooLarge,
{
    reveal_strlit("cannot parse integer");
    reveal_strlit("invalid digit");
    reveal_strlit("number too large");
    reveal_strlit("cannot parse integer from empty string");
    reveal_strlit("invalid digit found in string");
    reveal_strlit("number too large to fit in target type");
    let words = fault.words();
    let start = match fault {
        NumberFault::Empty => "cannot parse integer"@,
        NumberFault::InvalidDigit => "invalid digit"@,
        NumberFault::TooLarge => "number too large"@,
    };
    assert(words.subrange(0, start.len() as int) =~= start);
    assert(words[0] == start[0]);
    assert(other.words()[0] == 'c' || other.words()[0] == 'i' || other.words()[0] == 'n');
    assert("cannot parse integer"@[0] == 'c');
    assert("invalid digit"@[0] == 'i');
    assert("number too large"@[0] == 'n');
}

/// What reading a row of digits, from the left, gives for numbers up to `limit`: the first
/// character that is no digit, or that takes the number over the limit, decides.
pub open spec fn digits_reading(digits: Seq<char>, limit: nat) -> Result<nat, NumberFault>
    decreases digits.len(),
{
    if digits.len() == 0 {
        Ok(0)
    } else {
        match digits_reading(digits.drop_last(), limit) {
            Err(fault) => Err(fault),
            Ok(number) => if !is_digit(digits.last()) {
                Err(NumberFault::InvalidDigit)
            } else if number * 10 + (digits.last() as nat - 48) > limit {
                Err(NumberFault::TooLarge)
            } else {
                Ok((number * 10 + (digits.last() as nat - 48)) as nat)
            },
        }
    }
}

/// What reading a text as a number up to `limit` gives. One plus sign may stand before the
/// digits.
pub open spec fn number_reading(text: Seq<char>, limit: nat) -> Result<nat, NumberFault> {
    if text.len() == 0 {
        Err(NumberFault::Empty)
    } else if text == seq!['+'] {
        Err(NumberFault::InvalidDigit)
    } else if text.first() == '+' {
        digits_reading(text.drop_first(), limit)
    } else {
        digits_reading(text, limit)
    }
}

/// Reads a text as a number.
pub fn read_number(text: &str, limit: u64) -> (number: Result<u64, NumberFault>)
    ensures
        match number {
            Ok(n) => number_reading(text@, limit as nat) == Ok::<nat, NumberFault>(n as nat),
            Err(fault) => number_reading(text@, limit as nat) == Err::<nat, NumberFault>(fault),
        },
{
    let list = characters(text);
    if list.len() == 0 {
        return Err(NumberFault::Empty);
    }
    let mut start: usize = 0;
    if list[0] == '+' {
        if list.len() == 1 {
            assert(text@ =~= seq!['+']);
            return Err(NumberFault::InvalidDigit);
        }
        start = 1;
    }
    let ghost digits = text@.skip(start as int);
    proof {
        if start == 1 {
            assert(digits =~= text@.drop_first());
            assert(text@ != seq!['+']);
        } else {
            assert(digits =~= text@);
            assert(seq!['+'].first() == '+');
        }
        assert(number_reading(text@, limit as nat) == digits_reading(digits, limit as nat));
    }
    let mut at: usize = start;
    let mut number: u64 = 0;
    while at < list.len()
        invariant
            list@ == text@,
            start <= at <= list@.len(),
            digits == text@.skip(start as int),
            number_reading(text@, limit as nat) == digits_reading(digits, limit as nat),
            digits_reading(digits.take(at - start), limit as nat) == Ok::<nat, NumberFault>(
                number as nat,
            ),
            number <= limit,
        decreases list@.len() - at,
    {
        let c = list[at];
        let ghost so_far = digits.take(at - start);
        let ghost next = digits.take(at + 1 - start);
        assert(next.drop_last() =~= so_far);
        assert(next.last() == c);
        if !(c >= '0' && c <= '9') {
            proof {
                lemma_reading_stops(digits, at + 1 - start, limit as nat);
            }
            return Err(NumberFault::InvalidDigit);
        }
        let digit: u64 = c as u64 - 48;
        match number.checked_mul(10) {
            None => {
                proof {
                    lemma_reading_stops(digits, at + 1 - start, limit as nat);
                }
                return Err(NumberFault::TooLarge);
            },
            Some(tens) => {
                if tens > limit || digit > limit - tens {
                    proof {
                        lemma_reading_stops(digits, at + 1 - start, limit as nat);
                    }
                    return Err(NumberFault::TooLarge);
                }
                number = tens + digit;
            },
        }
        at = at + 1;
    }
    assert(digits.take(at - start) =~= digits);
    Ok(number)
}

/// A number that was read is within the limit.
pub proof fn lemma_reading_bounded(text: Seq<char>, limit: nat)
    ensures
        number_reading(text, limit) matches Ok(number) ==> number <= limit,
{
}

/// Once reading has failed, what follows does not matter.
proof fn lemma_reading_stops(digits: Seq<char>, count: int, limit: nat)
    requires
        0 <= count <= digits.len(),
        digits_reading(digits.take(count), limit) is Err,
    ensures
        digits_reading(digits, limit) == digits_reading(digits.take(count), limit),
    decreases digits.len(),
{
    if count == digits.len() {
        assert(digits.take(count) =~= digits);
    } else {
        assert(digits.drop_last().take(count) =~= digits.take(count));
        lemma_reading_stops(digits.drop_last(), count, limit);
    }
}

/// Reading a number back from its decimal notation gives the number.
pub proof fn decimal_reads_back(number: nat, limit: nat)
    requires
        number <= limit,
    ensures
        number_reading(decimal(number), limit) == Ok::<nat, NumberFault>(number),
{
    lemma_decimal_digits(number, limit);
    let text = decimal(number);
    assert(is_digit(text.first()));
    assert(seq!['+'].first() == '+');
}

/// Numbers with the same decimal notation are the same.
pub proof fn decimals_are_unambiguous(a: nat, b: nat)
    requires
        decimal(a) == decimal(b),
    ensures
        a == b,
{
    decimal_reads_back(a, a + b);
    decimal_reads_back(b, a + b);
}

/// A number is read digit by digit: a further digit makes it ten times as large and adds
/// itself, where that is within the limit. Anything else behind it makes it no number.
pub proof fn numbers_are_read_digit_by_digit(text: Seq<char>, next: char, limit: nat)
    requires
        number_reading(text, limit) is Ok,
    ensures
        ({
            let number = number_reading(text, limit)->Ok_0;
            let value = (next as int) - ('0' as int);
            match number_reading(text.push(next), limit) {
                Ok(longer) => 0 <= value <= 9 && longer == number * 10 + value && longer <= limit,
                Err(NumberFault::InvalidDigit) => !(0 <= value <= 9),
                Err(NumberFault::TooLarge) => 0 <= value <= 9 && number * 10 + value > limit,
                Err(NumberFault::Empty) => false,
            }
        }),
{
    let longer = text.push(next);
    assert(longer.len() > 1);
    assert(longer != seq!['+']) by {
        assert(seq!['+'].len() == 1);
    }
    assert(longer.first() == text.first());
    if text.first() == '+' {
        assert(longer.drop_first().drop_last() =~= text.drop_first());
    } else {
        assert(longer.drop_last() =~= text);
    }
}

/// A plus sign before a number that has none changes nothing.
pub proof fn a_plus_sign_changes_nothing(text: Seq<char>, limit: nat)
    requires
        text.len() > 0,
        text.first() != '+',
    ensures
        number_reading(seq!['+'] + text, limit) == number_reading(text, limit),
{
    let signed = seq!['+'] + text;
    assert(signed.drop_first() =~= text);
    assert(signed != seq!['+']) by {
        assert(seq!['+'].len() == 1);
    }
}

proof fn lemma_decimal_digits(number: nat, limit: nat)
    requires
        number <= limit,
    ensures
        decimal(number).len() > 0,
        forall|i: int| 0 <= i < decimal(number).len() ==> is_digit(#[trigger] decimal(number)[i]),
        digits_reading(decimal(number), limit) == Ok::<nat, NumberFault>(number),
    decreases number,
{
    reveal_with_fuel(digits_reading, 2);
    if number < 10 {
        assert(decimal(number).drop_last() =~= Seq::<char>::empty());
        assert(is_digit(digit_char(number)));
    } else {
        lemma_decimal_digits(number / 10, limit);
        assert(decimal(number).drop_last() =~= decimal(number / 10));
        assert(is_digit(digit_char(number % 10)));
    }
}

/// A text contains what stands somewhere in it, with something before it and something behind
/// it, either of which may be empty, and nothing else.
pub proof fn texts_contain_what_stands_in_them(text: Seq<char>, part: Seq<char>)
    ensures
        contains_text(text, part) <==> exists|start: Seq<char>, end: Seq<char>|
            text == #[trigger] (start + part + end),
{
    if contains_text(text, part) {
        let at = choose|at: int|
            0 <= at <= text.len() - part.len() && #[trigger] text.subrange(at, at + part.len())
                == part;
        let start = text.take(at);
        let end = text.skip(at + part.len());
        assert(text =~= start + text.subrange(at, at + part.len()) + end);
    }
    if exists|start: Seq<char>, end: Seq<char>| text == #[trigger] (start + part + end) {
        let (start, end) = choose|start: Seq<char>, end: Seq<char>|
            text == #[trigger] (start + part + end);
        lemma_contains_middle(start, part, end);
    }
}

/// Pairs of texts are seen in order, each as it is.
pub proof fn pairs_are_seen_as_they_are(pairs: Seq<(String, String)>, index: int)
    ensures
        pair_views(pairs).len() == pairs.len(),
        0 <= index < pairs.len() ==> pair_views(pairs)[index].0 == pairs[index].0@
            && pair_views(pairs)[index].1 == pairs[index].1@,
{
}

} // verus!
