//! Lengths of time. The library tells them apart and writes them, but does not calculate
//! with them.

use crate::error::{client_error, EncodeError};
use vstd::prelude::*;

verus! {

/// The gap between two tracks, in seconds, where the request does not name one.
pub const DEFAULT_TRACK_GAP_SECONDS: &'static str = "1.5";

/// The IEEE 754 bits of the gap that a request gets where it does not name one.
pub const DEFAULT_TRACK_GAP_BITS: u64 = 0x3FF8_0000_0000_0000;

/// The IEEE 754 bits of the longest gap, thirty seconds. Numbers that are not negative are
/// ordered as their bits are.
pub const LONGEST_GAP_BITS: u64 = 0x403E_0000_0000_0000;

/// The IEEE 754 bits of zero with a minus sign, which is equal to zero.
pub const NEGATIVE_ZERO_BITS: u64 = 0x8000_0000_0000_0000;

/// A length of time in seconds: a number of double precision, and how it is written.
#[derive(Clone, Debug, PartialEq, Eq)]
pub struct Seconds {
    /// The IEEE 754 bits of the number.
    pub bits: u64,
    /// The shortest text that reads back as the number.
    pub text: String,
    /// The number rounded to two digits behind the point.
    pub hundredths: String,
    /// The number with exactly six digits behind the point.
    pub millionths: String,
}

/// What a length of time holds.
pub struct SecondsView {
    pub bits: u64,
    pub text: Seq<char>,
    pub hundredths: Seq<char>,
    pub millionths: Seq<char>,
}

impl View for Seconds {
    type V = SecondsView;

    open spec fn view(&self) -> SecondsView {
        SecondsView {
            bits: self.bits,
            text: self.text@,
            hundredths: self.hundredths@,
            millionths: self.millionths@,
        }
    }
}

impl Seconds {
    /// The same length of time once more.
    pub fn copied(&self) -> (copy: Seconds)
        ensures
            copy@ == self@,
    {
        Seconds {
            bits: self.bits,
            text: self.text.clone(),
            hundredths: self.hundredths.clone(),
            millionths: self.millionths.clone(),
        }
    }
}

/// What an optional length of time holds.
pub open spec fn seconds_view(seconds: Option<Seconds>) -> Option<SecondsView> {
    match seconds {
        Some(seconds) => Some(seconds@),
        None => None,
    }
}

/// The gap that a request gets where it does not name one.
pub open spec fn default_gap() -> SecondsView {
    SecondsView {
        bits: DEFAULT_TRACK_GAP_BITS,
        text: DEFAULT_TRACK_GAP_SECONDS@,
        hundredths: "1.5"@,
        millionths: "1.500000"@,
    }
}

/// The gap that a request gets where it does not name one.
pub fn default_track_gap() -> (gap: Seconds)
    ensures
        gap@ == default_gap(),
{
    Seconds {
        bits: DEFAULT_TRACK_GAP_BITS,
        text: DEFAULT_TRACK_GAP_SECONDS.to_owned(),
        hundredths: "1.5".to_owned(),
        millionths: "1.500000".to_owned(),
    }
}

/// Whether a number can be a gap: from zero to thirty seconds. What is no number is none.
pub open spec fn is_gap(bits: u64) -> bool {
    bits <= LONGEST_GAP_BITS || bits == NEGATIVE_ZERO_BITS
}

/// The gap that a request names, by the number that its text stands for, or what the client
/// is told.
pub open spec fn gap_named(number: Option<SecondsView>) -> Result<SecondsView, Seq<char>> {
    match number {
        None => Err("gap_seconds must be a number"@),
        Some(gap) => if is_gap(gap.bits) {
            Ok(gap)
        } else {
            Err("gap_seconds must be between 0 and 30"@)
        },
    }
}

/// The gap that a request names. `number` is what its text stands for, if it is a number.
pub fn parse_gap_seconds(number: Option<Seconds>) -> (gap: Result<Seconds, EncodeError>)
    ensures
        match gap_named(seconds_view(number)) {
            Ok(named) => gap matches Ok(g) && g@ == named,
            Err(message) => gap matches Err(error) && error.is_client(message),
        },
{
    match number {
        None => Err(client_error("gap_seconds must be a number".to_owned())),
        Some(gap) => if gap.bits <= LONGEST_GAP_BITS || gap.bits == NEGATIVE_ZERO_BITS {
            Ok(gap)
        } else {
            Err(client_error("gap_seconds must be between 0 and 30".to_owned()))
        },
    }
}

/// The bits of the longest gap are those of thirty, and the bits of the gap that a request gets
/// where it names none are those of one and a half: the number is the fraction, with a one
/// before it, times two to the exponent.
pub proof fn bits_are_those_of_the_numbers()
    ensures
        LONGEST_GAP_BITS as nat / 0x10_0000_0000_0000 == 1023 + 4,
        (0x10_0000_0000_0000 + LONGEST_GAP_BITS as nat % 0x10_0000_0000_0000) * 16 == 30
            * 0x10_0000_0000_0000,
        default_gap().bits as nat / 0x10_0000_0000_0000 == 1023,
        2 * (0x10_0000_0000_0000 + default_gap().bits as nat % 0x10_0000_0000_0000) == 3
            * 0x10_0000_0000_0000,
        is_gap(default_gap().bits),
{
}

/// Zero and the longest gap are gaps, and so is every number between them. None that is longer
/// is one, and no negative number but the zero with a minus sign, nor what is no number: the
/// bits of all of these are larger.
pub proof fn gaps_reach_from_zero_to_thirty(bits: u64, other: u64)
    ensures
        is_gap(0),
        is_gap(LONGEST_GAP_BITS),
        is_gap(other) && bits <= other && other < NEGATIVE_ZERO_BITS ==> is_gap(bits),
        LONGEST_GAP_BITS < bits && bits != 0x8000_0000_0000_0000 ==> !is_gap(bits),
        is_gap(0x8000_0000_0000_0000),
{
}

/// A gap that is named is taken as it is, never another one. What is no number is refused with
/// other words than a number that is no gap.
pub proof fn gaps_are_taken_as_named(number: Option<SecondsView>)
    ensures
        gap_named(number) matches Ok(gap) ==> number == Some(gap) && is_gap(gap.bits),
        number matches Some(gap) && is_gap(gap.bits) ==> gap_named(number) is Ok,
        forall|gap: SecondsView|
            !is_gap(gap.bits) ==> gap_named(None) != #[trigger] gap_named(Some(gap)),
{
    reveal_strlit("gap_seconds must be a number");
    reveal_strlit("gap_seconds must be between 0 and 30");
    assert("gap_seconds must be a number"@.len() != "gap_seconds must be between 0 and 30"@.len());
}

/// A length of time is seen as it is, and the one that a request gets where it names none is
/// written alike in all its forms.
pub proof fn lengths_of_time_are_seen_as_they_are(seconds: Seconds, optional: Option<Seconds>)
    ensures
        seconds@.bits == seconds.bits,
        seconds@.text == seconds.text@,
        seconds@.hundredths == seconds.hundredths@,
        seconds@.millionths == seconds.millionths@,
        optional is Some <==> seconds_view(optional) is Some,
        optional is Some ==> seconds_view(optional) == Some(optional->Some_0@),
        default_gap().hundredths == default_gap().text,
        default_gap().text == "1.5"@,
        default_gap().millionths == default_gap().text + "00000"@,
{
    reveal_strlit("1.5");
    reveal_strlit("00000");
    reveal_strlit("1.500000");
    assert("1.5"@ + "00000"@ =~= "1.500000"@);
}

} // verus!
