//! What a client may choose: the quality of the encoding and the artifacts of a stream.

use crate::error::{client_error, EncodeError};
use crate::text::{
    contains_text, debug_text, lemma_contains_middle, lemma_contains_within,
    lemma_trimmed_unchanged, lowered, quoted, same_text, trimmed,
};
use vstd::prelude::*;

verus! {

/// The artifacts that a stream carries when the request names none.
pub const DEFAULT_STREAM_ARTIFACT: &'static str = "png";

/// The quality of an encoding.
#[derive(Clone, Copy, Debug, PartialEq, Eq, Structural)]
pub enum EncodeQuality {
    Standard,
    Hq,
}

impl EncodeQuality {
    /// The quality that a word names. White space around the word and the case of its
    /// ASCII letters do not matter; the empty word names the default.
    pub open spec fn named(word: Seq<char>) -> Option<EncodeQuality> {
        let plain = lowered(trimmed(word));
        if plain == "standard"@ {
            Some(EncodeQuality::Standard)
        } else if plain == "hq"@ || plain == ""@ {
            Some(EncodeQuality::Hq)
        } else {
            None
        }
    }

    /// The word for a quality.
    pub open spec fn word(self) -> Seq<char> {
        match self {
            EncodeQuality::Standard => "standard"@,
            EncodeQuality::Hq => "hq"@,
        }
    }

    /// What a client is told who asks for a quality that does not exist.
    pub open spec fn refusal(word: Seq<char>) -> Seq<char> {
        "unsupported quality "@ + debug_text(lowered(trimmed(word)))
            + ". Use one of: standard, hq"@
    }

    /// What parsing an optional word gives.
    pub open spec fn parsed(raw: Option<Seq<char>>, result: Result<Self, EncodeError>) -> bool {
        match raw {
            None => result == Ok::<EncodeQuality, EncodeError>(EncodeQuality::Hq),
            Some(word) => match EncodeQuality::named(word) {
                Some(quality) => result == Ok::<EncodeQuality, EncodeError>(quality),
                None => result matches Err(error) && error.is_client(
                    EncodeQuality::refusal(word),
                ),
            },
        }
    }

    /// The quality that the client asked for: high quality where no word is given.
    pub fn parse(raw: Option<&str>) -> (result: Result<Self, EncodeError>)
        ensures
            EncodeQuality::parsed(
                match raw {
                    Some(word) => Some(word@),
                    None => None,
                },
                result,
            ),
    {
        let word: &str = match raw {
            Some(word) => word,
            None => "hq",
        };
        proof {
            EncodeQuality::words_name_themselves(EncodeQuality::Hq);
        }
        let plain = word.trim().to_ascii_lowercase();
        if same_text(plain.as_str(), "standard") {
            Ok(EncodeQuality::Standard)
        } else if same_text(plain.as_str(), "hq") || same_text(plain.as_str(), "") {
            Ok(EncodeQuality::Hq)
        } else {
            let message = "unsupported quality ".to_owned().concat(
                quoted(plain.as_str()).as_str(),
            ).concat(". Use one of: standard, hq");
            Err(client_error(message))
        }
    }

    /// The word for a quality.
    pub fn as_str(self) -> (word: &'static str)
        ensures
            word@ == self.word(),
    {
        match self {
            EncodeQuality::Standard => "standard",
            EncodeQuality::Hq => "hq",
        }
    }

    /// The bandwidth of a quality, in kilobits per second.
    pub open spec fn kbps(self) -> u32 {
        match self {
            EncodeQuality::Standard => 6,
            EncodeQuality::Hq => 12,
        }
    }

    /// The bandwidth of a quality, in kilobits per second.
    pub fn bandwidth_kbps(self) -> (kbps: u32)
        ensures
            kbps == self.kbps(),
    {
        match self {
            EncodeQuality::Standard => 6,
            EncodeQuality::Hq => 12,
        }
    }

    /// The word for a quality names that quality.
    pub proof fn words_name_themselves(quality: EncodeQuality)
        ensures
            EncodeQuality::named(quality.word()) == Some(quality),
    {
        reveal_strlit("standard");
        reveal_strlit("hq");
        reveal_strlit("");
        lemma_trimmed_unchanged("standard"@);
        lemma_trimmed_unchanged("hq"@);
        assert(lowered("standard"@) =~= "standard"@);
        assert(lowered("hq"@) =~= "hq"@);
        assert("hq"@.len() != "standard"@.len());
    }

    /// How a word is written does not matter: two words that differ in the white space around
    /// them or in the case of their ASCII letters name the same quality.
    pub proof fn spelling_does_not_matter(a: Seq<char>, b: Seq<char>)
        requires
            lowered(trimmed(a)) == lowered(trimmed(b)),
        ensures
            EncodeQuality::named(a) == EncodeQuality::named(b),
    {
    }

    /// Nothing but its own word names a quality, and nothing at all names high quality. No word
    /// given is as good as an empty one.
    pub proof fn only_its_word_names_a_quality(word: Seq<char>, quality: EncodeQuality)
        ensures
            EncodeQuality::named(word) == Some(quality) <==> lowered(trimmed(word))
                == quality.word() || (trimmed(word).len() == 0 && quality is Hq),
            trimmed(word).len() == 0 ==> forall|result: Result<EncodeQuality, EncodeError>| #[trigger]
                EncodeQuality::parsed(None, result) == EncodeQuality::parsed(Some(word), result),
    {
        reveal_strlit("standard");
        reveal_strlit("hq");
        reveal_strlit("");
        let plain = lowered(trimmed(word));
        assert(plain.len() == trimmed(word).len());
        assert("standard"@.len() == 8);
        assert("hq"@.len() == 2);
        assert(plain.len() == 0 <==> plain =~= ""@);
        assert(""@.len() == 0);
    }

    /// A word is parsed as the quality that it names. One that names none is refused as the
    /// client's fault, and the client is told what was understood, and which qualities there are.
    pub proof fn words_are_parsed_or_refused(word: Seq<char>, result: Result<EncodeQuality, EncodeError>)
        requires
            EncodeQuality::parsed(Some(word), result),
        ensures
            result is Err <==> EncodeQuality::named(word) is None,
            result matches Ok(quality) ==> EncodeQuality::named(word) == Some(quality),
            result matches Err(error) ==> {
                &&& error is Client
                &&& contains_text(error.text(), debug_text(lowered(trimmed(word))))
                &&& contains_text(error.text(), EncodeQuality::Standard.word())
                &&& contains_text(error.text(), EncodeQuality::Hq.word())
            },
    {
        if let Err(error) = result {
            let start = "unsupported quality "@;
            let shown = debug_text(lowered(trimmed(word)));
            let end = ". Use one of: standard, hq"@;
            reveal_strlit(". Use one of: standard, hq");
            reveal_strlit("standard");
            reveal_strlit("hq");
            assert(error.text() == start + shown + end);
            lemma_contains_middle(start, shown, end);
            assert(end.subrange(14, 22) =~= "standard"@);
            assert(end.subrange(24, 26) =~= "hq"@);
            lemma_contains_within(start + shown, end, 14, 22);
            lemma_contains_within(start + shown, end, 24, 26);
        }
    }

    /// The better quality has twice the bandwidth, and no two qualities have the same word.
    pub proof fn qualities_are_apart(a: EncodeQuality, b: EncodeQuality)
        ensures
            a.word() == b.word() ==> a == b,
            a.kbps() == b.kbps() ==> a == b,
            a is Hq && b is Standard ==> a.kbps() == 2 * b.kbps(),
    {
        EncodeQuality::words_name_themselves(a);
        EncodeQuality::words_name_themselves(b);
    }
}

/// The artifacts that a stream carries.
#[derive(Clone, Copy, Debug, PartialEq, Eq, Structural)]
pub enum StreamArtifactSelection {
    Png,
    Ecdc,
    Both,
}

impl StreamArtifactSelection {
    /// The selection that a word names. White space around the word and the case of its
    /// ASCII letters do not matter; the empty word names the default.
    pub open spec fn named(word: Seq<char>) -> Option<StreamArtifactSelection> {
        let plain = lowered(trimmed(word));
        if plain == "png"@ || plain == ""@ {
            Some(StreamArtifactSelection::Png)
        } else if plain == "ecdc"@ {
            Some(StreamArtifactSelection::Ecdc)
        } else if plain == "both"@ || plain == "all"@ {
            Some(StreamArtifactSelection::Both)
        } else {
            None
        }
    }

    /// The word for a selection.
    pub open spec fn word(self) -> Seq<char> {
        match self {
            StreamArtifactSelection::Png => "png"@,
            StreamArtifactSelection::Ecdc => "ecdc"@,
            StreamArtifactSelection::Both => "both"@,
        }
    }

    /// What a client is told who asks for an artifact that does not exist.
    pub open spec fn refusal(word: Seq<char>) -> Seq<char> {
        "unsupported artifact "@ + debug_text(lowered(trimmed(word)))
            + ". Use one of: png, ecdc, both"@
    }

    /// What parsing an optional word gives.
    pub open spec fn parsed(raw: Option<Seq<char>>, result: Result<Self, EncodeError>) -> bool {
        match raw {
            None => result == Ok::<StreamArtifactSelection, EncodeError>(
                StreamArtifactSelection::Png,
            ),
            Some(word) => match StreamArtifactSelection::named(word) {
                Some(selection) => result == Ok::<StreamArtifactSelection, EncodeError>(selection),
                None => result matches Err(error) && error.is_client(
                    StreamArtifactSelection::refusal(word),
                ),
            },
        }
    }

    /// The selection that the client asked for: the picture where no word is given.
    pub fn parse(raw: Option<&str>) -> (result: Result<Self, EncodeError>)
        ensures
            StreamArtifactSelection::parsed(
                match raw {
                    Some(word) => Some(word@),
                    None => None,
                },
                result,
            ),
    {
        let word: &str = match raw {
            Some(word) => word,
            None => DEFAULT_STREAM_ARTIFACT,
        };
        proof {
            StreamArtifactSelection::words_name_themselves(StreamArtifactSelection::Png);
        }
        let plain = word.trim().to_ascii_lowercase();
        if same_text(plain.as_str(), "png") || same_text(plain.as_str(), "") {
            Ok(StreamArtifactSelection::Png)
        } else if same_text(plain.as_str(), "ecdc") {
            Ok(StreamArtifactSelection::Ecdc)
        } else if same_text(plain.as_str(), "both") || same_text(plain.as_str(), "all") {
            Ok(StreamArtifactSelection::Both)
        } else {
            let message = "unsupported artifact ".to_owned().concat(
                quoted(plain.as_str()).as_str(),
            ).concat(". Use one of: png, ecdc, both");
            Err(client_error(message))
        }
    }

    /// The word for a selection.
    pub fn as_str(self) -> (word: &'static str)
        ensures
            word@ == self.word(),
    {
        match self {
            StreamArtifactSelection::Png => "png",
            StreamArtifactSelection::Ecdc => "ecdc",
            StreamArtifactSelection::Both => "both",
        }
    }

    /// Whether the selection holds the picture.
    pub open spec fn has_png(self) -> bool {
        self is Png || self is Both
    }

    /// Whether the selection holds the encoded audio.
    pub open spec fn has_ecdc(self) -> bool {
        self is Ecdc || self is Both
    }

    /// Whether the selection holds the picture.
    pub fn includes_png(self) -> (yes: bool)
        ensures
            yes == self.has_png(),
    {
        matches!(self, StreamArtifactSelection::Png | StreamArtifactSelection::Both)
    }

    /// Whether the selection holds the encoded audio.
    pub fn includes_ecdc(self) -> (yes: bool)
        ensures
            yes == self.has_ecdc(),
    {
        matches!(self, StreamArtifactSelection::Ecdc | StreamArtifactSelection::Both)
    }

    /// The word for a selection names that selection.
    pub proof fn words_name_themselves(selection: StreamArtifactSelection)
        ensures
            StreamArtifactSelection::named(selection.word()) == Some(selection),
    {
        reveal_strlit("png");
        reveal_strlit("ecdc");
        reveal_strlit("both");
        reveal_strlit("");
        reveal_strlit("all");
        lemma_trimmed_unchanged("png"@);
        lemma_trimmed_unchanged("ecdc"@);
        lemma_trimmed_unchanged("both"@);
        assert(lowered("png"@) =~= "png"@);
        assert(lowered("ecdc"@) =~= "ecdc"@);
        assert(lowered("both"@) =~= "both"@);
        assert("ecdc"@[0] != "both"@[0]);
    }

    /// How a word is written does not matter: two words that differ in the white space around
    /// them or in the case of their ASCII letters name the same selection.
    pub proof fn spelling_does_not_matter(a: Seq<char>, b: Seq<char>)
        requires
            lowered(trimmed(a)) == lowered(trimmed(b)),
        ensures
            StreamArtifactSelection::named(a) == StreamArtifactSelection::named(b),
    {
    }

    /// Besides its own word, `all` names both artifacts, and nothing at all names the picture.
    /// No other word names a selection. No word given is as good as an empty one.
    pub proof fn only_its_words_name_a_selection(word: Seq<char>, selection: StreamArtifactSelection)
        ensures
            StreamArtifactSelection::named(word) == Some(selection) <==> {
                ||| lowered(trimmed(word)) == selection.word()
                ||| lowered(trimmed(word)) == "all"@ && selection is Both
                ||| trimmed(word).len() == 0 && selection is Png
            },
            trimmed(word).len() == 0 ==> forall|
                result: Result<StreamArtifactSelection, EncodeError>,
            | #[trigger]
                StreamArtifactSelection::parsed(None, result) == StreamArtifactSelection::parsed(
                    Some(word),
                    result,
                ),
    {
        reveal_strlit("png");
        reveal_strlit("ecdc");
        reveal_strlit("both");
        reveal_strlit("");
        reveal_strlit("all");
        let plain = lowered(trimmed(word));
        assert(plain.len() == trimmed(word).len());
        assert("png"@.len() == 3 && "png"@[0] == 'p');
        assert("all"@.len() == 3 && "all"@[0] == 'a');
        assert("ecdc"@.len() == 4 && "ecdc"@[0] == 'e');
        assert("both"@.len() == 4 && "both"@[0] == 'b');
        assert(plain.len() == 0 <==> plain =~= ""@);
        assert(""@.len() == 0);
    }

    /// A word is parsed as the selection that it names. One that names none is refused as the
    /// client's fault, and the client is told what was understood, and which selections there are.
    pub proof fn words_are_parsed_or_refused(
        word: Seq<char>,
        result: Result<StreamArtifactSelection, EncodeError>,
    )
        requires
            StreamArtifactSelection::parsed(Some(word), result),
        ensures
            result is Err <==> StreamArtifactSelection::named(word) is None,
            result matches Ok(selection) ==> StreamArtifactSelection::named(word) == Some(
                selection,
            ),
            result matches Err(error) ==> {
                &&& error is Client
                &&& contains_text(error.text(), debug_text(lowered(trimmed(word))))
                &&& contains_text(error.text(), StreamArtifactSelection::Png.word())
                &&& contains_text(error.text(), StreamArtifactSelection::Ecdc.word())
                &&& contains_text(error.text(), StreamArtifactSelection::Both.word())
            },
    {
        if let Err(error) = result {
            let start = "unsupported artifact "@;
            let shown = debug_text(lowered(trimmed(word)));
            let end = ". Use one of: png, ecdc, both"@;
            reveal_strlit(". Use one of: png, ecdc, both");
            reveal_strlit("png");
            reveal_strlit("ecdc");
            reveal_strlit("both");
            assert(error.text() == start + shown + end);
            lemma_contains_middle(start, shown, end);
            assert(end.subrange(14, 17) =~= "png"@);
            assert(end.subrange(19, 23) =~= "ecdc"@);
            assert(end.subrange(25, 29) =~= "both"@);
            lemma_contains_within(start + shown, end, 14, 17);
            lemma_contains_within(start + shown, end, 19, 23);
            lemma_contains_within(start + shown, end, 25, 29);
        }
    }

    /// Every selection holds an artifact. Both are held by the one selection that is named so,
    /// and the picture or the encoded audio alone by the selection with its name.
    pub proof fn selections_hold_what_they_name(selection: StreamArtifactSelection)
        ensures
            selection.has_png() || selection.has_ecdc(),
            selection.has_png() && selection.has_ecdc() <==> selection.word() == "both"@,
            selection.has_png() && !selection.has_ecdc() <==> selection.word() == "png"@,
            !selection.has_png() && selection.has_ecdc() <==> selection.word() == "ecdc"@,
    {
        reveal_strlit("png");
        reveal_strlit("ecdc");
        reveal_strlit("both");
        assert("png"@.len() == 3);
        assert("ecdc"@.len() == 4 && "ecdc"@[0] == 'e');
        assert("both"@.len() == 4 && "both"@[0] == 'b');
    }
}

} // verus!
