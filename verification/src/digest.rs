//! Digests: SHA-256 through `sha2`, written in hexadecimal.

use vstd::prelude::*;

verus! {

/// A SHA-256 digest in the making, which `sha2::Sha256` keeps. What it has taken in is
/// `absorbed`.
#[verifier::external_body]
pub struct Digest256 {
    state: sha2::Sha256,
}

/// The bytes that a digest in the making has taken in.
pub uninterp spec fn absorbed(digest: Digest256) -> Seq<u8>;

/// The SHA-256 digest of bytes.
pub uninterp spec fn sha256(bytes: Seq<u8>) -> Seq<u8>;

/// `sha2::Sha256::new`: nothing taken in yet.
#[verifier::external_body]
pub(crate) fn digest_new() -> (digest: Digest256)
    ensures
        absorbed(digest) == Seq::<u8>::empty(),
{
    Digest256 { state: sha2::Digest::new() }
}

/// `sha2::Sha256::update`: takes the bytes in, after those taken in before.
#[verifier::external_body]
pub(crate) fn digest_update(digest: &mut Digest256, bytes: &[u8])
    ensures
        absorbed(*final(digest)) == absorbed(*old(digest)) + bytes@,
{
    sha2::Digest::update(&mut digest.state, bytes)
}

/// `sha2::Sha256::finalize`: the digest of all that was taken in, which has 32 bytes.
#[verifier::external_body]
pub(crate) fn digest_finalize(digest: Digest256) -> (bytes: Vec<u8>)
    ensures
        bytes@ == sha256(absorbed(digest)),
        bytes@.len() == 32,
{
    sha2::Digest::finalize(digest.state).to_vec()
}

/// The lower-case hexadecimal digit of a number below sixteen.
pub open spec fn hex_char(digit: nat) -> char {
    if digit < 10 {
        ((48 + digit) as u32) as char
    } else {
        ((87 + digit) as u32) as char
    }
}

/// Bytes in lower-case hexadecimal, two digits each.
pub open spec fn hex(bytes: Seq<u8>) -> Seq<char>
    decreases bytes.len(),
{
    if bytes.len() == 0 {
        Seq::empty()
    } else {
        hex(bytes.drop_last()).push(hex_char((bytes.last() / 16) as nat)).push(
            hex_char((bytes.last() % 16) as nat),
        )
    }
}

fn hex_digit(digit: u8) -> (text: &'static str)
    requires
        digit < 16,
    ensures
        text@ == seq![hex_char(digit as nat)],
{
    proof {
        reveal_strlit("0");
        reveal_strlit("1");
        reveal_strlit("2");
        reveal_strlit("3");
        reveal_strlit("4");
        reveal_strlit("5");
        reveal_strlit("6");
        reveal_strlit("7");
        reveal_strlit("8");
        reveal_strlit("9");
        reveal_strlit("a");
        reveal_strlit("b");
        reveal_strlit("c");
        reveal_strlit("d");
        reveal_strlit("e");
        reveal_strlit("f");
    }
    let text: &'static str = match digit {
        0 => "0",
        1 => "1",
        2 => "2",
        3 => "3",
        4 => "4",
        5 => "5",
        6 => "6",
        7 => "7",
        8 => "8",
        9 => "9",
        10 => "a",
        11 => "b",
        12 => "c",
        13 => "d",
        14 => "e",
        _ => "f",
    };
    assert(text@ =~= seq![hex_char(digit as nat)]);
    text
}

/// Bytes in lower-case hexadecimal.
pub fn hex_text(bytes: &[u8]) -> (text: String)
    ensures
        text@ == hex(bytes@),
{
    let mut text = String::new();
    let mut i: usize = 0;
    while i < bytes.len()
        invariant
            i <= bytes@.len(),
            text@ == hex(bytes@.take(i as int)),
        decreases bytes@.len() - i,
    {
        let byte = bytes[i];
        text.append(hex_digit(byte / 16));
        text.append(hex_digit(byte % 16));
        assert(bytes@.take(i + 1).drop_last() =~= bytes@.take(i as int));
        assert(text@ =~= hex(bytes@.take(i + 1)));
        i = i + 1;
    }
    assert(bytes@.take(i as int) =~= bytes@);
    text
}

/// Whether a text is a SHA-256 digest in hexadecimal: 64 digits, the letters in lower case.
pub open spec fn is_hex_digest(text: Seq<char>) -> bool {
    &&& text.len() == 64
    &&& forall|i: int|
        0 <= i < text.len() ==> '0' <= #[trigger] text[i] <= '9' || 'a' <= text[i] <= 'f'
}

/// A digest in hexadecimal is made of 64 of the sixteen digits, and nothing else is one.
pub proof fn digests_are_made_of_digits(text: Seq<char>)
    ensures
        is_hex_digest(text) <==> text.len() == 64 && (forall|i: int|
            0 <= i < text.len() ==> "0123456789abcdef"@.contains(#[trigger] text[i])),
{
    reveal_strlit("0123456789abcdef");
    let digits = "0123456789abcdef"@;
    assert(forall|j: int| 0 <= j < 10 ==> #[trigger] digits[j] as int == '0' as int + j);
    assert(forall|j: int| 10 <= j < 16 ==> #[trigger] digits[j] as int == 'a' as int + j - 10);
    assert forall|i: int| 0 <= i < text.len() implies digits.contains(#[trigger] text[i]) == (
        '0' <= text[i] <= '9' || 'a' <= text[i] <= 'f') by {
        let letter = text[i];
        if '0' <= letter <= '9' {
            assert(digits[letter as int - '0' as int] == letter);
        }
        if 'a' <= letter <= 'f' {
            assert(digits[letter as int - 'a' as int + 10] == letter);
        }
    }
    if is_hex_digest(text) {
        assert forall|i: int| 0 <= i < text.len() implies digits.contains(#[trigger] text[i]) by {
            assert('0' <= text[i] <= '9' || 'a' <= text[i] <= 'f');
        }
    }
}

/// The digest of all that was taken in, in hexadecimal.
pub fn finish_hex(digest: Digest256) -> (text: String)
    ensures
        text@ == hex(sha256(absorbed(digest))),
        is_hex_digest(text@),
{
    let bytes = digest_finalize(digest);
    proof {
        lemma_hex_digits(bytes@);
    }
    hex_text(bytes.as_slice())
}

/// Hexadecimal tells bytes apart: two different rows of bytes are written differently.
pub proof fn hex_is_unambiguous(a: Seq<u8>, b: Seq<u8>)
    requires
        hex(a) == hex(b),
    ensures
        a == b,
    decreases a.len(),
{
    lemma_hex_digits(a);
    lemma_hex_digits(b);
    if a.len() > 0 {
        let high_a = (a.last() / 16) as nat;
        let low_a = (a.last() % 16) as nat;
        let high_b = (b.last() / 16) as nat;
        let low_b = (b.last() % 16) as nat;
        let rest_a = hex(a.drop_last());
        let rest_b = hex(b.drop_last());
        assert(hex(a).last() == hex_char(low_a));
        assert(hex(b).last() == hex_char(low_b));
        assert(hex(a)[hex(a).len() - 2] == hex_char(high_a));
        assert(hex(b)[hex(b).len() - 2] == hex_char(high_b));
        assert(hex(a).drop_last().drop_last() =~= rest_a);
        assert(hex(b).drop_last().drop_last() =~= rest_b);
        hex_is_unambiguous(a.drop_last(), b.drop_last());
        assert(a.last() == b.last());
        assert(a =~= a.drop_last().push(a.last()));
        assert(b =~= b.drop_last().push(b.last()));
    } else {
        assert(a =~= b);
    }
}

proof fn lemma_hex_digits(bytes: Seq<u8>)
    ensures
        hex(bytes).len() == 2 * bytes.len(),
        forall|i: int|
            0 <= i < hex(bytes).len() ==> '0' <= #[trigger] hex(bytes)[i] <= '9' || 'a' <= hex(
                bytes,
            )[i] <= 'f',
    decreases bytes.len(),
{
    if bytes.len() > 0 {
        lemma_hex_digits(bytes.drop_last());
    }
}

} // verus!
