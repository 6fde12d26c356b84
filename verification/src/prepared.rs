//! Prepared programs: audio that is ready to be encoded, and how an ingress hands it to a
//! worker.

use crate::digest::{absorbed, digest_update, finish_hex, hex, is_hex_digest, sha256, Digest256};
use crate::error::{internal_error, EncodeError, Fault};
use crate::form::ParsedEncodeRequest;
use crate::headers::{
    all_changed, are_writable, change_headers, change_views, header_entries, header_text,
    is_header_name, is_plain, is_writable, last_change_holds, missing_header, other_headers_stay,
    plain_text_reads_back, required_header, set_or_gone, set_to, stopped_at, string_view,
    text_under, HeaderChange, HEADER_NAMES_SAFE,
};
use crate::options::EncodeQuality;
use crate::protocol::{
    header_names_are_distinct, CONTENT_LENGTH, CONTENT_TYPE, INTERNAL_AUDIO_KEY_HEADER,
    INTERNAL_DURATION_SECONDS_HEADER, INTERNAL_GAP_SECONDS_HEADER, INTERNAL_QUALITY_HEADER,
    INTERNAL_STREAMING_MODE_HEADER, INTERNAL_STREAMING_MODE_JSONL,
    INTERNAL_TOTAL_GAP_SECONDS_HEADER, INTERNAL_TRACK_COUNT_HEADER,
};
use crate::request::{is_streamed, RequestHead};
use crate::seconds::{seconds_view, Seconds, SecondsView};
use crate::text::{
    contains_text, decimal, decimal_reads_back, decimal_text, decimals_are_unambiguous,
    lemma_contains_middle, lemma_reading_bounded, lemma_same_middle, lemma_same_text,
    number_reading, read_number, NumberFault,
};
use vstd::prelude::*;
use vstd::utf8::*;

verus! {

/// The form of samples, which are interleaved.
#[derive(Clone, Copy, Debug, PartialEq, Eq, Structural)]
pub struct PcmDescriptor {
    pub sample_rate: u32,
    pub channels: u8,
    pub bits_per_sample: u8,
}

/// The form of the samples that are encoded: stereo, 48 kHz, 16 bits.
pub fn program_pcm_descriptor() -> (descriptor: PcmDescriptor)
    ensures
        descriptor == (PcmDescriptor { sample_rate: 48_000, channels: 2, bits_per_sample: 16 }),
{
    PcmDescriptor { sample_rate: 48_000, channels: 2, bits_per_sample: 16 }
}

/// A program that is ready to be encoded.
#[derive(Clone, Debug, PartialEq, Eq)]
pub struct PreparedEncodeProgram {
    pub pcm_bytes: Vec<u8>,
    pub sample_rate: u32,
    pub channels: u8,
    pub bits_per_sample: u8,
    pub duration_seconds: Seconds,
    pub quality: EncodeQuality,
    pub audio_key: String,
    pub track_count: usize,
    pub gap_seconds: Seconds,
    pub total_gap_seconds: Seconds,
}

/// What a prepared program holds.
pub struct ProgramView {
    pub pcm: Seq<u8>,
    pub descriptor: PcmDescriptor,
    pub duration: SecondsView,
    pub quality: EncodeQuality,
    pub audio_key: Seq<char>,
    pub track_count: usize,
    pub gap: SecondsView,
    pub total_gap: SecondsView,
}

impl View for PreparedEncodeProgram {
    type V = ProgramView;

    open spec fn view(&self) -> ProgramView {
        ProgramView {
            pcm: self.pcm_bytes@,
            descriptor: PcmDescriptor {
                sample_rate: self.sample_rate,
                channels: self.channels,
                bits_per_sample: self.bits_per_sample,
            },
            duration: self.duration_seconds@,
            quality: self.quality,
            audio_key: self.audio_key@,
            track_count: self.track_count,
            gap: self.gap_seconds@,
            total_gap: self.total_gap_seconds@,
        }
    }
}

/// What is known of a program when its request is handed on. Where the samples are still to
/// come, its duration and its key are not known yet.
#[derive(Clone, Debug, PartialEq, Eq)]
pub struct PreparedRequestMetadata {
    pub sample_rate: u32,
    pub channels: u8,
    pub bits_per_sample: u8,
    pub quality: EncodeQuality,
    pub track_count: usize,
    pub gap_seconds: Seconds,
    pub total_gap_seconds: Seconds,
    pub duration_seconds: Option<Seconds>,
    pub audio_key: Option<String>,
    pub streaming: bool,
}

/// What a worker is told of a program before its samples come.
#[derive(Clone, Debug, PartialEq, Eq)]
pub struct PreparedRequestEnvelope {
    pub descriptor: PcmDescriptor,
    pub quality: EncodeQuality,
    pub track_count: usize,
    pub gap_seconds: Seconds,
    pub total_gap_seconds: Seconds,
    pub duration_seconds: Option<Seconds>,
    pub audio_key: Option<String>,
}

/// What an envelope holds.
pub struct EnvelopeView {
    pub descriptor: PcmDescriptor,
    pub quality: EncodeQuality,
    pub track_count: usize,
    pub gap: SecondsView,
    pub total_gap: SecondsView,
    pub duration: Option<SecondsView>,
    pub audio_key: Option<Seq<char>>,
}

impl View for PreparedRequestEnvelope {
    type V = EnvelopeView;

    open spec fn view(&self) -> EnvelopeView {
        EnvelopeView {
            descriptor: self.descriptor,
            quality: self.quality,
            track_count: self.track_count,
            gap: self.gap_seconds@,
            total_gap: self.total_gap_seconds@,
            duration: seconds_view(self.duration_seconds),
            audio_key: string_view(self.audio_key),
        }
    }
}

impl PreparedRequestMetadata {
    /// What a worker is to be told.
    pub open spec fn envelope(self) -> EnvelopeView {
        EnvelopeView {
            descriptor: PcmDescriptor {
                sample_rate: self.sample_rate,
                channels: self.channels,
                bits_per_sample: self.bits_per_sample,
            },
            quality: self.quality,
            track_count: self.track_count,
            gap: self.gap_seconds@,
            total_gap: self.total_gap_seconds@,
            duration: seconds_view(self.duration_seconds),
            audio_key: string_view(self.audio_key),
        }
    }
}

impl ProgramView {
    /// What a worker is to be told of the program besides its samples.
    pub open spec fn envelope(self) -> EnvelopeView {
        EnvelopeView {
            descriptor: self.descriptor,
            quality: self.quality,
            track_count: self.track_count,
            gap: self.gap,
            total_gap: self.total_gap,
            duration: Some(self.duration),
            audio_key: Some(self.audio_key),
        }
    }
}

// ---------------------------------------------------------------------------------------
// Handing a program on
// ---------------------------------------------------------------------------------------

/// The text of an optional length of time.
pub open spec fn optional_text(seconds: Option<SecondsView>) -> Option<Seq<char>> {
    match seconds {
        Some(seconds) => Some(seconds.text),
        None => None,
    }
}

/// The changes to the headers of a request that tell a worker of a program, by the texts
/// that they write. The body becomes that of the samples. Headers for what is not known go.
pub open spec fn telling_changes(
    quality: EncodeQuality,
    track_count: usize,
    gap: Seq<char>,
    total_gap: Seq<char>,
    duration: Option<Seq<char>>,
    audio_key: Option<Seq<char>>,
    streaming: bool,
) -> Seq<(Seq<char>, Option<Seq<char>>)> {
    seq![
        (CONTENT_LENGTH@, None),
        (CONTENT_TYPE@, Some("application/octet-stream"@)),
        (INTERNAL_QUALITY_HEADER@, Some(quality.word())),
        (INTERNAL_TRACK_COUNT_HEADER@, Some(decimal(track_count as nat))),
        (INTERNAL_GAP_SECONDS_HEADER@, Some(gap)),
        (INTERNAL_TOTAL_GAP_SECONDS_HEADER@, Some(total_gap)),
        (INTERNAL_DURATION_SECONDS_HEADER@, duration),
        (INTERNAL_AUDIO_KEY_HEADER@, audio_key),
        (
            INTERNAL_STREAMING_MODE_HEADER@,
            if streaming {
                Some(INTERNAL_STREAMING_MODE_JSONL@)
            } else {
                None
            },
        ),
    ]
}

/// The changes to the headers of a request that tell a worker of a program.
pub open spec fn prepared_changes(envelope: EnvelopeView, streaming: bool) -> Seq<
    (Seq<char>, Option<Seq<char>>),
> {
    telling_changes(
        envelope.quality,
        envelope.track_count,
        envelope.gap.text,
        envelope.total_gap.text,
        optional_text(envelope.duration),
        envelope.audio_key,
        streaming,
    )
}

/// Whether headers were changed as prepared requests ask, or why they were not.
pub open spec fn handed_on(
    before: Map<Seq<char>, Seq<Seq<u8>>>,
    envelope: EnvelopeView,
    streaming: bool,
    after: Map<Seq<char>, Seq<Seq<u8>>>,
    done: Result<(), EncodeError>,
) -> bool {
    let changes = prepared_changes(envelope, streaming);
    &&& match done {
        Ok(_) => are_writable(changes) && after == all_changed(before, changes),
        Err(error) => exists|index: int|
            #[trigger] stopped_at(before, changes, index, after, error),
    }
    &&& are_writable(changes) && before.dom().len() + changes.len() <= HEADER_NAMES_SAFE
        ==> done is Ok
}

/// The changes to the headers of a request that tell a worker of a program.
fn changes_for(
    quality: EncodeQuality,
    track_count: usize,
    gap_seconds: &Seconds,
    total_gap_seconds: &Seconds,
    duration_text: Option<String>,
    audio_key: Option<String>,
    streaming: bool,
) -> (changes: Vec<HeaderChange>)
    ensures
        forall|i: int| 0 <= i < changes@.len() ==> is_header_name(#[trigger] changes@[i].name@),
        change_views(changes@) == telling_changes(
            quality,
            track_count,
            gap_seconds@.text,
            total_gap_seconds@.text,
            string_view(duration_text),
            string_view(audio_key),
            streaming,
        ),
{
    proof {
        header_names_are_distinct();
    }
    let mode: Option<String> = if streaming {
        Some(INTERNAL_STREAMING_MODE_JSONL.to_owned())
    } else {
        None
    };
    let mut changes: Vec<HeaderChange> = Vec::new();
    changes.push(set_or_gone(CONTENT_LENGTH, None));
    changes.push(set_to(CONTENT_TYPE, "application/octet-stream".to_owned()));
    changes.push(set_to(INTERNAL_QUALITY_HEADER, quality.as_str().to_owned()));
    changes.push(set_to(INTERNAL_TRACK_COUNT_HEADER, decimal_text(track_count as u64)));
    changes.push(set_to(INTERNAL_GAP_SECONDS_HEADER, gap_seconds.text.clone()));
    changes.push(set_to(INTERNAL_TOTAL_GAP_SECONDS_HEADER, total_gap_seconds.text.clone()));
    changes.push(set_or_gone(INTERNAL_DURATION_SECONDS_HEADER, duration_text));
    changes.push(set_or_gone(INTERNAL_AUDIO_KEY_HEADER, audio_key));
    changes.push(set_or_gone(INTERNAL_STREAMING_MODE_HEADER, mode));
    assert(change_views(changes@) =~= telling_changes(
        quality,
        track_count,
        gap_seconds@.text,
        total_gap_seconds@.text,
        string_view(duration_text),
        string_view(audio_key),
        streaming,
    ));
    changes
}

/// Tells a worker of a program, in the headers of the request that carries its samples.
/// The headers that describe the samples are not among these.
pub fn apply_prepared_request_headers(
    headers: &mut http::HeaderMap,
    prepared: &PreparedEncodeProgram,
    streaming: bool,
) -> (done: Result<(), EncodeError>)
    ensures
        handed_on(
            header_entries(*old(headers)),
            prepared@.envelope(),
            streaming,
            header_entries(*final(headers)),
            done,
        ),
{
    let changes = changes_for(
        prepared.quality,
        prepared.track_count,
        &prepared.gap_seconds,
        &prepared.total_gap_seconds,
        Some(prepared.duration_seconds.text.clone()),
        Some(prepared.audio_key.clone()),
        streaming,
    );
    change_headers(headers, &changes)
}

/// Tells a worker of a program whose samples are still to come. The headers that describe
/// the samples are not among these.
pub fn apply_prepared_request_metadata_headers(
    headers: &mut http::HeaderMap,
    metadata: &PreparedRequestMetadata,
) -> (done: Result<(), EncodeError>)
    ensures
        handed_on(
            header_entries(*old(headers)),
            metadata.envelope(),
            metadata.streaming,
            header_entries(*final(headers)),
            done,
        ),
{
    let duration_text: Option<String> = match &metadata.duration_seconds {
        Some(duration) => Some(duration.text.clone()),
        None => None,
    };
    let audio_key: Option<String> = match &metadata.audio_key {
        Some(key) => Some(key.clone()),
        None => None,
    };
    let changes = changes_for(
        metadata.quality,
        metadata.track_count,
        &metadata.gap_seconds,
        &metadata.total_gap_seconds,
        duration_text,
        audio_key,
        metadata.streaming,
    );
    assert(change_views(changes@) == prepared_changes(metadata.envelope(), metadata.streaming));
    change_headers(headers, &changes)
}

// ---------------------------------------------------------------------------------------
// Taking a program over
// ---------------------------------------------------------------------------------------

/// What the headers that describe samples say.
#[derive(Debug)]
pub enum DescriptorReading {
    /// There are no such headers.
    Absent,
    /// They cannot be read.
    Unreadable(String),
    /// They describe the samples.
    Read(PcmDescriptor),
}

/// What reading the texts of lengths of time gave: a length, or why the text is none.
#[derive(Debug)]
pub struct SecondsReadings {
    pub gap: Result<Seconds, String>,
    pub total_gap: Result<Seconds, String>,
    pub duration: Result<Seconds, String>,
}

/// What reading the text of a length of time gave.
pub open spec fn reading_view(reading: Result<Seconds, String>) -> Result<SecondsView, Seq<char>> {
    match reading {
        Ok(seconds) => Ok(seconds@),
        Err(message) => Err(message@),
    }
}

/// A header cannot be read.
pub open spec fn invalid_header(name: Seq<char>, cause: Seq<char>) -> Seq<char> {
    "invalid "@ + name + " header: "@ + cause
}

/// What cannot be read in a header is told with the name of the header and then the cause, which
/// a colon parts from it.
pub proof fn unread_headers_are_named(name: Seq<char>, cause: Seq<char>)
    ensures
        contains_text(invalid_header(name, cause), name),
        "invalid "@.is_prefix_of(invalid_header(name, cause)),
        (" header: "@ + cause).is_suffix_of(invalid_header(name, cause)),
{
    let told = invalid_header(name, cause);
    let start = "invalid "@;
    let end = " header: "@ + cause;
    lemma_contains_middle(start, name, end);
    assert(told =~= start + name + end);
    assert(told.subrange(0, start.len() as int) =~= start);
    assert(told.subrange(told.len() - end.len(), told.len() as int) =~= end);
}

fn invalid_header_error(name: &str, cause: &str) -> (error: EncodeError)
    ensures
        error.fault() == Fault::Internal(invalid_header(name@, cause@)),
{
    let message = "invalid ".to_owned().concat(name).concat(" header: ").concat(cause);
    internal_error(message.as_str())
}

/// The length of time in a header that has to be there. `reading` is what reading its text
/// gave.
pub open spec fn seconds_under(
    entries: Map<Seq<char>, Seq<Seq<u8>>>,
    name: Seq<char>,
    reading: Result<SecondsView, Seq<char>>,
) -> Result<SecondsView, Fault> {
    match text_under(entries, name) {
        None => Err(Fault::Internal(missing_header(name))),
        Some(_) => match reading {
            Ok(seconds) => Ok(seconds),
            Err(cause) => Err(Fault::Internal(invalid_header(name, cause))),
        },
    }
}

fn required_seconds(
    headers: &http::HeaderMap,
    name: &str,
    reading: Result<Seconds, String>,
) -> (seconds: Result<Seconds, EncodeError>)
    requires
        is_header_name(name@),
    ensures
        match seconds_under(header_entries(*headers), name@, reading_view(reading)) {
            Ok(expected) => seconds matches Ok(s) && s@ == expected,
            Err(fault) => seconds matches Err(error) && error.fault() == fault,
        },
{
    match required_header(headers, name) {
        Err(error) => Err(error),
        Ok(_) => match reading {
            Ok(seconds) => Ok(seconds),
            Err(cause) => Err(invalid_header_error(name, cause.as_str())),
        },
    }
}

/// The number in a header that has to be there.
pub open spec fn number_under(entries: Map<Seq<char>, Seq<Seq<u8>>>, name: Seq<char>) -> Result<
    usize,
    Fault,
> {
    match text_under(entries, name) {
        None => Err(Fault::Internal(missing_header(name))),
        Some(text) => match number_reading(text, usize::MAX as nat) {
            Ok(number) => Ok(number as usize),
            Err(fault) => Err(Fault::Internal(invalid_header(name, fault.words()))),
        },
    }
}

fn required_number(headers: &http::HeaderMap, name: &str) -> (number: Result<usize, EncodeError>)
    requires
        is_header_name(name@),
    ensures
        match number_under(header_entries(*headers), name@) {
            Ok(expected) => number == Ok::<usize, EncodeError>(expected),
            Err(fault) => number matches Err(error) && error.fault() == fault,
        },
{
    match required_header(headers, name) {
        Err(error) => Err(error),
        Ok(text) => match read_number(text, usize::MAX as u64) {
            Ok(number) => {
                proof {
                    lemma_reading_bounded(text@, usize::MAX as nat);
                }
                Ok(number as usize)
            },
            Err(fault) => Err(invalid_header_error(name, fault.describe())),
        },
    }
}

/// The quality in a header that has to be there.
pub open spec fn quality_under(entries: Map<Seq<char>, Seq<Seq<u8>>>) -> Result<
    EncodeQuality,
    Fault,
> {
    match text_under(entries, INTERNAL_QUALITY_HEADER@) {
        None => Err(Fault::Internal(missing_header(INTERNAL_QUALITY_HEADER@))),
        Some(word) => match EncodeQuality::named(word) {
            Some(quality) => Ok(quality),
            None => Err(Fault::Client(EncodeQuality::refusal(word))),
        },
    }
}

/// What every prepared request tells: nothing where no header describes samples. The first
/// header, in this order, that is missing or cannot be read decides the error.
pub open spec fn core_told(
    entries: Map<Seq<char>, Seq<Seq<u8>>>,
    descriptor: DescriptorReading,
    gap: Result<SecondsView, Seq<char>>,
    total_gap: Result<SecondsView, Seq<char>>,
) -> Result<Option<EnvelopeView>, Fault> {
    match descriptor {
        DescriptorReading::Absent => Ok(None),
        DescriptorReading::Unreadable(cause) => Err(Fault::Internal(cause@)),
        DescriptorReading::Read(descriptor) => match quality_under(entries) {
            Err(fault) => Err(fault),
            Ok(quality) => match number_under(entries, INTERNAL_TRACK_COUNT_HEADER@) {
                Err(fault) => Err(fault),
                Ok(track_count) => match seconds_under(
                    entries,
                    INTERNAL_GAP_SECONDS_HEADER@,
                    gap,
                ) {
                    Err(fault) => Err(fault),
                    Ok(gap) => match seconds_under(
                        entries,
                        INTERNAL_TOTAL_GAP_SECONDS_HEADER@,
                        total_gap,
                    ) {
                        Err(fault) => Err(fault),
                        Ok(total_gap) => Ok(
                            Some(
                                EnvelopeView {
                                    descriptor,
                                    quality,
                                    track_count,
                                    gap,
                                    total_gap,
                                    duration: None,
                                    audio_key: None,
                                },
                            ),
                        ),
                    },
                },
            },
        },
    }
}

fn read_core(
    headers: &http::HeaderMap,
    descriptor: DescriptorReading,
    gap: Result<Seconds, String>,
    total_gap: Result<Seconds, String>,
) -> (core: Result<Option<PreparedRequestEnvelope>, EncodeError>)
    ensures
        match core_told(
            header_entries(*headers),
            descriptor,
            reading_view(gap),
            reading_view(total_gap),
        ) {
            Ok(None) => core matches Ok(None),
            Ok(Some(expected)) => core matches Ok(Some(c)) && c@ == expected,
            Err(fault) => core matches Err(error) && error.fault() == fault,
        },
{
    proof {
        header_names_are_distinct();
    }
    let descriptor: PcmDescriptor = match descriptor {
        DescriptorReading::Absent => return Ok(None),
        DescriptorReading::Unreadable(cause) => return Err(internal_error(cause.as_str())),
        DescriptorReading::Read(descriptor) => descriptor,
    };
    let word: &str = match required_header(headers, INTERNAL_QUALITY_HEADER) {
        Ok(word) => word,
        Err(error) => return Err(error),
    };
    let quality = match EncodeQuality::parse(Some(word)) {
        Ok(quality) => quality,
        Err(error) => return Err(error),
    };
    let track_count: usize = match required_number(headers, INTERNAL_TRACK_COUNT_HEADER) {
        Ok(number) => number,
        Err(error) => return Err(error),
    };
    let gap_seconds = match required_seconds(headers, INTERNAL_GAP_SECONDS_HEADER, gap) {
        Ok(seconds) => seconds,
        Err(error) => return Err(error),
    };
    let total_gap_seconds = match required_seconds(
        headers,
        INTERNAL_TOTAL_GAP_SECONDS_HEADER,
        total_gap,
    ) {
        Ok(seconds) => seconds,
        Err(error) => return Err(error),
    };
    Ok(
        Some(
            PreparedRequestEnvelope {
                descriptor,
                quality,
                track_count,
                gap_seconds,
                total_gap_seconds,
                duration_seconds: None,
                audio_key: None,
            },
        ),
    )
}

/// The program that a request hands over, if it hands one over. Its duration and its key
/// have to be told, and there have to be samples.
pub open spec fn program_told(
    entries: Map<Seq<char>, Seq<Seq<u8>>>,
    descriptor: DescriptorReading,
    gap: Result<SecondsView, Seq<char>>,
    total_gap: Result<SecondsView, Seq<char>>,
    duration: Result<SecondsView, Seq<char>>,
    body: Seq<u8>,
) -> Result<Option<ProgramView>, Fault> {
    match core_told(entries, descriptor, gap, total_gap) {
        Err(fault) => Err(fault),
        Ok(None) => Ok(None),
        Ok(Some(core)) => match seconds_under(
            entries,
            INTERNAL_DURATION_SECONDS_HEADER@,
            duration,
        ) {
            Err(fault) => Err(fault),
            Ok(duration) => match text_under(entries, INTERNAL_AUDIO_KEY_HEADER@) {
                None => Err(Fault::Internal(missing_header(INTERNAL_AUDIO_KEY_HEADER@))),
                Some(audio_key) => if body.len() == 0 {
                    Err(
                        Fault::Internal(
                            "prepared internal request body did not include PCM bytes"@,
                        ),
                    )
                } else {
                    Ok(
                        Some(
                            ProgramView {
                                pcm: body,
                                descriptor: core.descriptor,
                                duration,
                                quality: core.quality,
                                audio_key,
                                track_count: core.track_count,
                                gap: core.gap,
                                total_gap: core.total_gap,
                            },
                        ),
                    )
                },
            },
        },
    }
}

/// The program that a request hands over, if it hands one over.
pub fn prepared_program_from_internal_request(
    head: &RequestHead,
    descriptor: DescriptorReading,
    readings: SecondsReadings,
    body: &[u8],
) -> (program: Result<Option<PreparedEncodeProgram>, EncodeError>)
    ensures
        match program_told(
            head.entries(),
            descriptor,
            reading_view(readings.gap),
            reading_view(readings.total_gap),
            reading_view(readings.duration),
            body@,
        ) {
            Ok(None) => program matches Ok(None),
            Ok(Some(expected)) => program matches Ok(Some(p)) && p@ == expected,
            Err(fault) => program matches Err(error) && error.fault() == fault,
        },
{
    proof {
        header_names_are_distinct();
    }
    let core = match read_core(&head.headers, descriptor, readings.gap, readings.total_gap) {
        Err(error) => return Err(error),
        Ok(None) => return Ok(None),
        Ok(Some(core)) => core,
    };
    let duration_seconds = match required_seconds(
        &head.headers,
        INTERNAL_DURATION_SECONDS_HEADER,
        readings.duration,
    ) {
        Ok(seconds) => seconds,
        Err(error) => return Err(error),
    };
    let audio_key: String = match required_header(&head.headers, INTERNAL_AUDIO_KEY_HEADER) {
        Ok(key) => key.to_owned(),
        Err(error) => return Err(error),
    };
    if body.len() == 0 {
        return Err(internal_error("prepared internal request body did not include PCM bytes"));
    }
    let mut pcm_bytes: Vec<u8> = Vec::new();
    pcm_bytes.extend_from_slice(body);
    assert(pcm_bytes@ =~= body@);
    Ok(
        Some(
            PreparedEncodeProgram {
                pcm_bytes,
                sample_rate: core.descriptor.sample_rate,
                channels: core.descriptor.channels,
                bits_per_sample: core.descriptor.bits_per_sample,
                duration_seconds,
                quality: core.quality,
                audio_key,
                track_count: core.track_count,
                gap_seconds: core.gap_seconds,
                total_gap_seconds: core.total_gap_seconds,
            },
        ),
    )
}

/// What a request tells of a program whose samples come after it, if it hands one over. Its
/// duration and its key may be told.
pub open spec fn envelope_told(
    entries: Map<Seq<char>, Seq<Seq<u8>>>,
    descriptor: DescriptorReading,
    gap: Result<SecondsView, Seq<char>>,
    total_gap: Result<SecondsView, Seq<char>>,
    duration: Result<SecondsView, Seq<char>>,
) -> Result<Option<EnvelopeView>, Fault> {
    match core_told(entries, descriptor, gap, total_gap) {
        Err(fault) => Err(fault),
        Ok(None) => Ok(None),
        Ok(Some(core)) => {
            let audio_key = text_under(entries, INTERNAL_AUDIO_KEY_HEADER@);
            if text_under(entries, INTERNAL_DURATION_SECONDS_HEADER@) is None {
                Ok(Some(EnvelopeView { audio_key, ..core }))
            } else {
                match seconds_under(entries, INTERNAL_DURATION_SECONDS_HEADER@, duration) {
                    Err(fault) => Err(fault),
                    Ok(duration) => Ok(
                        Some(EnvelopeView { duration: Some(duration), audio_key, ..core }),
                    ),
                }
            }
        },
    }
}

/// What a request tells of a program whose samples come after it, if it hands one over.
pub fn prepared_request_envelope_from_internal_request(
    head: &RequestHead,
    descriptor: DescriptorReading,
    readings: SecondsReadings,
) -> (envelope: Result<Option<PreparedRequestEnvelope>, EncodeError>)
    ensures
        match envelope_told(
            head.entries(),
            descriptor,
            reading_view(readings.gap),
            reading_view(readings.total_gap),
            reading_view(readings.duration),
        ) {
            Ok(None) => envelope matches Ok(None),
            Ok(Some(expected)) => envelope matches Ok(Some(e)) && e@ == expected,
            Err(fault) => envelope matches Err(error) && error.fault() == fault,
        },
{
    proof {
        header_names_are_distinct();
    }
    let core = match read_core(&head.headers, descriptor, readings.gap, readings.total_gap) {
        Err(error) => return Err(error),
        Ok(None) => return Ok(None),
        Ok(Some(core)) => core,
    };
    let duration_seconds: Option<Seconds> = match header_text(
        &head.headers,
        INTERNAL_DURATION_SECONDS_HEADER,
    ) {
        None => None,
        Some(_) => match required_seconds(
            &head.headers,
            INTERNAL_DURATION_SECONDS_HEADER,
            readings.duration,
        ) {
            Ok(seconds) => Some(seconds),
            Err(error) => return Err(error),
        },
    };
    let audio_key: Option<String> = match header_text(&head.headers, INTERNAL_AUDIO_KEY_HEADER) {
        Some(key) => Some(key.to_owned()),
        None => None,
    };
    Ok(
        Some(
            PreparedRequestEnvelope {
                descriptor: core.descriptor,
                quality: core.quality,
                track_count: core.track_count,
                gap_seconds: core.gap_seconds,
                total_gap_seconds: core.total_gap_seconds,
                duration_seconds,
                audio_key,
            },
        ),
    )
}

// ---------------------------------------------------------------------------------------
// Making a program
// ---------------------------------------------------------------------------------------

/// Audio that was decoded and put together.
#[derive(Clone, Debug, PartialEq, Eq)]
pub struct PreparedAudio {
    pub pcm_bytes: Vec<u8>,
    pub descriptor: PcmDescriptor,
    pub duration_seconds: Seconds,
    pub total_gap_seconds: Seconds,
}

/// The program that a request asks for, with the audio that was made of its files.
pub open spec fn program_for(parsed: ParsedEncodeRequest, audio: PreparedAudio) -> ProgramView {
    ProgramView {
        pcm: audio.pcm_bytes@,
        descriptor: audio.descriptor,
        duration: audio.duration_seconds@,
        quality: parsed.quality,
        audio_key: parsed.audio_key@,
        track_count: parsed.files@.len() as usize,
        gap: parsed.gap_seconds@,
        total_gap: audio.total_gap_seconds@,
    }
}

/// A program keeps what its request asks for, whatever audio was made of it: the quality, the
/// key, the gap, and as many tracks as there are files. The samples, their form, their length
/// and the gaps in them are those of the audio, whatever the request asks for.
pub proof fn programs_keep_the_request(
    parsed: ParsedEncodeRequest,
    audio: PreparedAudio,
    other_parsed: ParsedEncodeRequest,
    other_audio: PreparedAudio,
)
    ensures
        ({
            let program = program_for(parsed, audio);
            let same_request = program_for(parsed, other_audio);
            let same_audio = program_for(other_parsed, audio);
            &&& same_request.quality == program.quality
            &&& same_request.audio_key == program.audio_key
            &&& same_request.gap == program.gap
            &&& same_request.track_count == program.track_count
            &&& program.quality == parsed.quality
            &&& program.audio_key == parsed.audio_key@
            &&& program.gap == parsed.gap_seconds@
            &&& parsed.files@.len() <= usize::MAX ==> program.track_count == parsed.files@.len()
            &&& same_audio.pcm == program.pcm
            &&& same_audio.descriptor == program.descriptor
            &&& same_audio.duration == program.duration
            &&& same_audio.total_gap == program.total_gap
            &&& program.pcm == audio.pcm_bytes@
            &&& program.descriptor == audio.descriptor
            &&& program.duration == audio.duration_seconds@
            &&& program.total_gap == audio.total_gap_seconds@
        }),
{
}

/// The program that a request asks for. `audio` is what decoding its files and putting them
/// together with its gaps gave: the audio, or why there is none.
pub fn prepare_request_program(
    parsed: ParsedEncodeRequest,
    audio: Result<PreparedAudio, String>,
) -> (program: Result<PreparedEncodeProgram, EncodeError>)
    ensures
        match audio {
            Ok(audio) => program matches Ok(p) && p@ == (ProgramView {
                pcm: audio.pcm_bytes@,
                descriptor: audio.descriptor,
                duration: audio.duration_seconds@,
                quality: parsed.quality,
                audio_key: parsed.audio_key@,
                track_count: parsed.files@.len() as usize,
                gap: parsed.gap_seconds@,
                total_gap: audio.total_gap_seconds@,
            }),
            Err(message) => program matches Err(error) && error.is_internal(message@),
        },
        audio matches Ok(audio) ==> (program matches Ok(p) && p@ == program_for(parsed, audio)),
{
    let track_count: usize = parsed.files.len();
    match audio {
        Ok(audio) => Ok(
            PreparedEncodeProgram {
                pcm_bytes: audio.pcm_bytes,
                sample_rate: audio.descriptor.sample_rate,
                channels: audio.descriptor.channels,
                bits_per_sample: audio.descriptor.bits_per_sample,
                duration_seconds: audio.duration_seconds,
                quality: parsed.quality,
                audio_key: parsed.audio_key,
                track_count,
                gap_seconds: parsed.gap_seconds,
                total_gap_seconds: audio.total_gap_seconds,
            },
        ),
        Err(message) => Err(internal_error(message.as_str())),
    }
}

/// The bytes that go into the key of samples after the samples themselves: their form, and
/// how they are encoded.
pub open spec fn samples_key_tail(
    descriptor: PcmDescriptor,
    quality: EncodeQuality,
    track_count: usize,
    gap: SecondsView,
    total_gap: SecondsView,
) -> Seq<u8> {
    encode_utf8(
        "pcm="@ + decimal(descriptor.sample_rate as nat) + ":"@ + decimal(
            descriptor.channels as nat,
        ) + ":"@ + decimal(descriptor.bits_per_sample as nat),
    ) + encode_utf8("quality="@ + quality.word()) + encode_utf8(
        "tracks="@ + decimal(track_count as nat),
    ) + encode_utf8("gap="@ + gap.millionths) + encode_utf8("total_gap="@ + total_gap.millionths)
}

/// The key of samples that a digest has taken in, and of how they are encoded.
pub fn finalize_prepared_audio_key_digest(
    digest: Digest256,
    descriptor: &PcmDescriptor,
    quality: EncodeQuality,
    track_count: usize,
    gap_seconds: &Seconds,
    total_gap_seconds: &Seconds,
) -> (key: String)
    ensures
        key@ == hex(
            sha256(
                absorbed(digest) + samples_key_tail(
                    *descriptor,
                    quality,
                    track_count,
                    gap_seconds@,
                    total_gap_seconds@,
                ),
            ),
        ),
        is_hex_digest(key@),
{
    let ghost before = absorbed(digest);
    let mut digest = digest;
    let form_text = "pcm=".to_owned().concat(
        decimal_text(descriptor.sample_rate as u64).as_str(),
    ).concat(":").concat(decimal_text(descriptor.channels as u64).as_str()).concat(":").concat(
        decimal_text(descriptor.bits_per_sample as u64).as_str(),
    );
    digest_update(&mut digest, form_text.as_str().as_bytes());
    let quality_text = "quality=".to_owned().concat(quality.as_str());
    digest_update(&mut digest, quality_text.as_str().as_bytes());
    let track_text = "tracks=".to_owned().concat(decimal_text(track_count as u64).as_str());
    digest_update(&mut digest, track_text.as_str().as_bytes());
    let gap_text = "gap=".to_owned().concat(gap_seconds.millionths.as_str());
    digest_update(&mut digest, gap_text.as_str().as_bytes());
    let total_text = "total_gap=".to_owned().concat(total_gap_seconds.millionths.as_str());
    digest_update(&mut digest, total_text.as_str().as_bytes());
    assert(absorbed(digest) =~= before + samples_key_tail(
        *descriptor,
        quality,
        track_count,
        gap_seconds@,
        total_gap_seconds@,
    ));
    finish_hex(digest)
}

/// The program whose samples have come in a stream and were encoded as they came. What the
/// request did not tell follows from the samples: `digest` has taken them in, and `counted`
/// is how long they are.
pub fn streamed_program(
    envelope: PreparedRequestEnvelope,
    digest: Digest256,
    counted: Seconds,
) -> (program: PreparedEncodeProgram)
    ensures
        program@ == (ProgramView {
            pcm: Seq::empty(),
            descriptor: envelope.descriptor,
            duration: match envelope@.duration {
                Some(duration) => duration,
                None => counted@,
            },
            quality: envelope.quality,
            audio_key: match envelope@.audio_key {
                Some(key) => key,
                None => hex(
                    sha256(
                        absorbed(digest) + samples_key_tail(
                            envelope.descriptor,
                            envelope.quality,
                            envelope.track_count,
                            envelope.gap_seconds@,
                            envelope.total_gap_seconds@,
                        ),
                    ),
                ),
            },
            track_count: envelope.track_count,
            gap: envelope.gap_seconds@,
            total_gap: envelope.total_gap_seconds@,
        }),
        envelope.audio_key is None ==> is_hex_digest(program.audio_key@),
{
    let duration_seconds: Seconds = match envelope.duration_seconds {
        Some(duration) => duration,
        None => counted,
    };
    let audio_key: String = match envelope.audio_key {
        Some(key) => key,
        None => finalize_prepared_audio_key_digest(
            digest,
            &envelope.descriptor,
            envelope.quality,
            envelope.track_count,
            &envelope.gap_seconds,
            &envelope.total_gap_seconds,
        ),
    };
    let pcm_bytes: Vec<u8> = Vec::new();
    assert(pcm_bytes@ =~= Seq::empty());
    PreparedEncodeProgram {
        pcm_bytes,
        sample_rate: envelope.descriptor.sample_rate,
        channels: envelope.descriptor.channels,
        bits_per_sample: envelope.descriptor.bits_per_sample,
        duration_seconds,
        quality: envelope.quality,
        audio_key,
        track_count: envelope.track_count,
        gap_seconds: envelope.gap_seconds,
        total_gap_seconds: envelope.total_gap_seconds,
    }
}

// ---------------------------------------------------------------------------------------
// What is handed on arrives
// ---------------------------------------------------------------------------------------

/// Whether all that headers tell of a program is plain text.
pub open spec fn tells_plainly(envelope: EnvelopeView) -> bool {
    &&& is_plain(envelope.gap.text)
    &&& is_plain(envelope.total_gap.text)
    &&& envelope.duration matches Some(duration) ==> is_plain(duration.text)
    &&& envelope.audio_key matches Some(key) ==> is_plain(key)
}

/// What the headers of a prepared request hold.
proof fn lemma_told_texts(
    entries: Map<Seq<char>, Seq<Seq<u8>>>,
    envelope: EnvelopeView,
    streaming: bool,
)
    requires
        tells_plainly(envelope),
    ensures
        are_writable(prepared_changes(envelope, streaming)),
        ({
            let after = all_changed(entries, prepared_changes(envelope, streaming));
            &&& text_under(after, INTERNAL_QUALITY_HEADER@) == Some(envelope.quality.word())
            &&& text_under(after, INTERNAL_TRACK_COUNT_HEADER@) == Some(
                decimal(envelope.track_count as nat),
            )
            &&& text_under(after, INTERNAL_GAP_SECONDS_HEADER@) == Some(envelope.gap.text)
            &&& text_under(after, INTERNAL_TOTAL_GAP_SECONDS_HEADER@) == Some(
                envelope.total_gap.text,
            )
            &&& text_under(after, INTERNAL_DURATION_SECONDS_HEADER@) == optional_text(
                envelope.duration,
            )
            &&& text_under(after, INTERNAL_AUDIO_KEY_HEADER@) == envelope.audio_key
            &&& text_under(after, INTERNAL_STREAMING_MODE_HEADER@) == (if streaming {
                Some(INTERNAL_STREAMING_MODE_JSONL@)
            } else {
                None
            })
        }),
{
    let changes = prepared_changes(envelope, streaming);
    let after = all_changed(entries, changes);
    header_names_are_distinct();
    lemma_decimal_is_plain(envelope.track_count as nat);
    assert(is_plain(envelope.quality.word())) by {
        reveal_strlit("standard");
        reveal_strlit("hq");
    }
    assert(is_plain("application/octet-stream"@)) by {
        reveal_strlit("application/octet-stream");
    }
    assert(is_plain(INTERNAL_STREAMING_MODE_JSONL@)) by {
        reveal_strlit("jsonl");
    }
    assert forall|i: int| 0 <= i < changes.len() implies is_writable(#[trigger] changes[i]) && text_under(after, changes[i].0) == changes[i].1 by {
        assert forall|j: int| i < j < changes.len() implies (#[trigger] changes[j]).0
            != changes[i].0 by {
            let names = seq![
                CONTENT_LENGTH@,
                CONTENT_TYPE@,
                INTERNAL_QUALITY_HEADER@,
                INTERNAL_TRACK_COUNT_HEADER@,
                INTERNAL_GAP_SECONDS_HEADER@,
                INTERNAL_TOTAL_GAP_SECONDS_HEADER@,
                INTERNAL_DURATION_SECONDS_HEADER@,
                INTERNAL_AUDIO_KEY_HEADER@,
                INTERNAL_STREAMING_MODE_HEADER@,
            ];
            assert(names[i] != names[j]);
            assert(changes[i].0 == names[i]);
            assert(changes[j].0 == names[j]);
        }
        last_change_holds(entries, changes, i);
        if let Some(text) = changes[i].1 {
            assert(is_plain(text));
            plain_text_reads_back(text);
            assert(after[changes[i].0][0] == encode_utf8(text));
        }
    }
    assert(changes[2].0 == INTERNAL_QUALITY_HEADER@);
    assert(changes[3].0 == INTERNAL_TRACK_COUNT_HEADER@);
    assert(changes[4].0 == INTERNAL_GAP_SECONDS_HEADER@);
    assert(changes[5].0 == INTERNAL_TOTAL_GAP_SECONDS_HEADER@);
    assert(changes[6].0 == INTERNAL_DURATION_SECONDS_HEADER@);
    assert(changes[7].0 == INTERNAL_AUDIO_KEY_HEADER@);
    assert(changes[8].0 == INTERNAL_STREAMING_MODE_HEADER@);
}

/// The headers of a prepared request tell all that is known of the program, each thing in a
/// header of its own and in full: the quality and the number of tracks in words, the lengths of
/// time by their shortest text, which loses nothing, and the key as it is. What is not known is
/// told in no header.
pub proof fn headers_tell_every_word(
    entries: Map<Seq<char>, Seq<Seq<u8>>>,
    envelope: EnvelopeView,
    streaming: bool,
)
    requires
        tells_plainly(envelope),
    ensures
        are_writable(prepared_changes(envelope, streaming)),
        ({
            let after = all_changed(entries, prepared_changes(envelope, streaming));
            &&& text_under(after, INTERNAL_QUALITY_HEADER@) == Some(envelope.quality.word())
            &&& text_under(after, INTERNAL_TRACK_COUNT_HEADER@) == Some(
                decimal(envelope.track_count as nat),
            )
            &&& text_under(after, INTERNAL_GAP_SECONDS_HEADER@) == Some(envelope.gap.text)
            &&& text_under(after, INTERNAL_TOTAL_GAP_SECONDS_HEADER@) == Some(
                envelope.total_gap.text,
            )
            &&& text_under(after, INTERNAL_DURATION_SECONDS_HEADER@) == optional_text(
                envelope.duration,
            )
            &&& text_under(after, INTERNAL_AUDIO_KEY_HEADER@) == envelope.audio_key
            &&& text_under(after, INTERNAL_STREAMING_MODE_HEADER@) == (if streaming {
                Some(INTERNAL_STREAMING_MODE_JSONL@)
            } else {
                None
            })
        }),
{
    lemma_told_texts(entries, envelope, streaming);
}

proof fn lemma_decimal_is_plain(number: nat)
    ensures
        is_plain(decimal(number)),
    decreases number,
{
    if number >= 10 {
        lemma_decimal_is_plain(number / 10);
    }
}

/// A program that is handed on arrives as it was: whatever headers the request had, reading
/// the program back from those that tell of it, with its samples, gives the program, and
/// its response is streamed just where that was asked for. The lengths of time are read as
/// they were written. The texts of the program have to be plain, and there have to be
/// samples.
pub proof fn programs_arrive(
    entries: Map<Seq<char>, Seq<Seq<u8>>>,
    program: ProgramView,
    streaming: bool,
)
    requires
        tells_plainly(program.envelope()),
        program.pcm.len() > 0,
    ensures
        ({
            let after = all_changed(entries, prepared_changes(program.envelope(), streaming));
            &&& are_writable(prepared_changes(program.envelope(), streaming))
            &&& program_told(
                after,
                DescriptorReading::Read(program.descriptor),
                Ok(program.gap),
                Ok(program.total_gap),
                Ok(program.duration),
                program.pcm,
            ) == Ok::<Option<ProgramView>, Fault>(Some(program))
            &&& is_streamed(after) == streaming
        }),
{
    lemma_told_texts(entries, program.envelope(), streaming);
    EncodeQuality::words_name_themselves(program.quality);
    decimal_reads_back(program.track_count as nat, usize::MAX as nat);
}

/// What is told of a program whose samples are still to come arrives as it was, what is not
/// known yet with it.
pub proof fn envelopes_arrive(
    entries: Map<Seq<char>, Seq<Seq<u8>>>,
    envelope: EnvelopeView,
    streaming: bool,
    duration: Result<SecondsView, Seq<char>>,
)
    requires
        tells_plainly(envelope),
        envelope.duration matches Some(known) ==> duration == Ok::<SecondsView, Seq<char>>(known),
    ensures
        ({
            let after = all_changed(entries, prepared_changes(envelope, streaming));
            &&& are_writable(prepared_changes(envelope, streaming))
            &&& envelope_told(
                after,
                DescriptorReading::Read(envelope.descriptor),
                Ok(envelope.gap),
                Ok(envelope.total_gap),
                duration,
            ) == Ok::<Option<EnvelopeView>, Fault>(Some(envelope))
            &&& is_streamed(after) == streaming
        }),
{
    lemma_told_texts(entries, envelope, streaming);
    EncodeQuality::words_name_themselves(envelope.quality);
    decimal_reads_back(envelope.track_count as nat, usize::MAX as nat);
}

/// Besides what it tells of a program, handing a request on changes two headers: the length of
/// the body goes, and its type is that of bytes. All headers with other names stay.
pub proof fn handing_on_leaves_the_rest(
    entries: Map<Seq<char>, Seq<Seq<u8>>>,
    envelope: EnvelopeView,
    streaming: bool,
    name: Seq<char>,
)
    requires
        tells_plainly(envelope),
        name != INTERNAL_QUALITY_HEADER@,
        name != INTERNAL_TRACK_COUNT_HEADER@,
        name != INTERNAL_GAP_SECONDS_HEADER@,
        name != INTERNAL_TOTAL_GAP_SECONDS_HEADER@,
        name != INTERNAL_DURATION_SECONDS_HEADER@,
        name != INTERNAL_AUDIO_KEY_HEADER@,
        name != INTERNAL_STREAMING_MODE_HEADER@,
    ensures
        ({
            let after = all_changed(entries, prepared_changes(envelope, streaming));
            if name == "content-length"@ {
                !after.contains_key(name)
            } else if name == "content-type"@ {
                text_under(after, name) == Some("application/octet-stream"@)
            } else {
                &&& after.contains_key(name) == entries.contains_key(name)
                &&& entries.contains_key(name) ==> after[name] == entries[name]
            }
        }),
{
    let changes = prepared_changes(envelope, streaming);
    lemma_told_texts(entries, envelope, streaming);
    header_names_are_distinct();
    let names = seq![
        CONTENT_LENGTH@,
        CONTENT_TYPE@,
        INTERNAL_QUALITY_HEADER@,
        INTERNAL_TRACK_COUNT_HEADER@,
        INTERNAL_GAP_SECONDS_HEADER@,
        INTERNAL_TOTAL_GAP_SECONDS_HEADER@,
        INTERNAL_DURATION_SECONDS_HEADER@,
        INTERNAL_AUDIO_KEY_HEADER@,
        INTERNAL_STREAMING_MODE_HEADER@,
    ];
    assert forall|i: int| 0 <= i < changes.len() implies (#[trigger] changes[i]).0 == names[i] by {}
    if name == "content-length"@ {
        assert forall|j: int| 0 < j < changes.len() implies (#[trigger] changes[j]).0
            != changes[0].0 by {
            assert(names[0] != names[j]);
        }
        last_change_holds(entries, changes, 0);
    } else if name == "content-type"@ {
        assert forall|j: int| 1 < j < changes.len() implies (#[trigger] changes[j]).0
            != changes[1].0 by {
            assert(names[1] != names[j]);
        }
        last_change_holds(entries, changes, 1);
        reveal_strlit("application/octet-stream");
        plain_text_reads_back("application/octet-stream"@);
    } else {
        other_headers_stay(entries, changes, name);
    }
}

/// All that makes the encoding of samples another one goes into their key: where two encodings
/// of the same samples differ in one thing alone, whichever it is, the bytes that are taken in
/// after the samples differ.
pub proof fn keys_tell_encodings_apart(
    descriptor: PcmDescriptor,
    quality: EncodeQuality,
    track_count: usize,
    gap: SecondsView,
    total_gap: SecondsView,
    other_quality: EncodeQuality,
    other_count: usize,
    other_gap: SecondsView,
    other_total: SecondsView,
)
    ensures
        samples_key_tail(descriptor, quality, track_count, gap, total_gap) == samples_key_tail(
            descriptor,
            other_quality,
            track_count,
            gap,
            total_gap,
        ) ==> quality == other_quality,
        samples_key_tail(descriptor, quality, track_count, gap, total_gap) == samples_key_tail(
            descriptor,
            quality,
            other_count,
            gap,
            total_gap,
        ) ==> track_count == other_count,
        samples_key_tail(descriptor, quality, track_count, gap, total_gap) == samples_key_tail(
            descriptor,
            quality,
            track_count,
            other_gap,
            total_gap,
        ) ==> gap.millionths == other_gap.millionths,
        samples_key_tail(descriptor, quality, track_count, gap, total_gap) == samples_key_tail(
            descriptor,
            quality,
            track_count,
            gap,
            other_total,
        ) ==> total_gap.millionths == other_total.millionths,
{
    let form = encode_utf8(form_words(descriptor));
    let words = encode_utf8("quality="@ + quality.word());
    let tracks = encode_utf8("tracks="@ + decimal(track_count as nat));
    let gaps = encode_utf8("gap="@ + gap.millionths);
    let totals = encode_utf8("total_gap="@ + total_gap.millionths);
    let mine = samples_key_tail(descriptor, quality, track_count, gap, total_gap);
    if mine == samples_key_tail(descriptor, other_quality, track_count, gap, total_gap) {
        let others = encode_utf8("quality="@ + other_quality.word());
        assert(form + words + (tracks + gaps + totals) =~= mine);
        assert(form + others + (tracks + gaps + totals) =~= mine);
        lemma_same_middle(form, words, others, tracks + gaps + totals);
        lemma_same_text("quality="@, quality.word(), other_quality.word());
        EncodeQuality::qualities_are_apart(quality, other_quality);
    }
    if mine == samples_key_tail(descriptor, quality, other_count, gap, total_gap) {
        let others = encode_utf8("tracks="@ + decimal(other_count as nat));
        assert((form + words) + tracks + (gaps + totals) =~= mine);
        assert((form + words) + others + (gaps + totals) =~= mine);
        lemma_same_middle(form + words, tracks, others, gaps + totals);
        lemma_same_text("tracks="@, decimal(track_count as nat), decimal(other_count as nat));
        decimals_are_unambiguous(track_count as nat, other_count as nat);
    }
    if mine == samples_key_tail(descriptor, quality, track_count, other_gap, total_gap) {
        let others = encode_utf8("gap="@ + other_gap.millionths);
        assert((form + words + tracks) + gaps + totals =~= mine);
        assert((form + words + tracks) + others + totals =~= mine);
        lemma_same_middle(form + words + tracks, gaps, others, totals);
        lemma_same_text("gap="@, gap.millionths, other_gap.millionths);
    }
    if mine == samples_key_tail(descriptor, quality, track_count, gap, other_total) {
        let none = Seq::<u8>::empty();
        let others = encode_utf8("total_gap="@ + other_total.millionths);
        assert((form + words + tracks + gaps) + totals + none =~= mine);
        assert((form + words + tracks + gaps) + others + none =~= mine);
        lemma_same_middle(form + words + tracks + gaps, totals, others, none);
        lemma_same_text("total_gap="@, total_gap.millionths, other_total.millionths);
    }
}

/// The form of samples in words, as it goes into their key.
spec fn form_words(descriptor: PcmDescriptor) -> Seq<char> {
    "pcm="@ + decimal(descriptor.sample_rate as nat) + ":"@ + decimal(descriptor.channels as nat)
        + ":"@ + decimal(descriptor.bits_per_sample as nat)
}

/// The form of samples goes into their key: where two rows of samples differ in the rate, the
/// channels or the bits alone, the bytes that are taken in after them differ.
pub proof fn keys_tell_forms_apart(
    descriptor: PcmDescriptor,
    other: PcmDescriptor,
    quality: EncodeQuality,
    track_count: usize,
    gap: SecondsView,
    total_gap: SecondsView,
)
    requires
        samples_key_tail(descriptor, quality, track_count, gap, total_gap) == samples_key_tail(
            other,
            quality,
            track_count,
            gap,
            total_gap,
        ),
    ensures
        descriptor.channels == other.channels && descriptor.bits_per_sample
            == other.bits_per_sample ==> descriptor.sample_rate == other.sample_rate,
        descriptor.sample_rate == other.sample_rate && descriptor.bits_per_sample
            == other.bits_per_sample ==> descriptor.channels == other.channels,
        descriptor.sample_rate == other.sample_rate && descriptor.channels == other.channels
            ==> descriptor.bits_per_sample == other.bits_per_sample,
{
    let none = Seq::<char>::empty();
    let words = encode_utf8("quality="@ + quality.word()) + encode_utf8(
        "tracks="@ + decimal(track_count as nat),
    ) + encode_utf8("gap="@ + gap.millionths) + encode_utf8("total_gap="@ + total_gap.millionths);
    let mine = samples_key_tail(descriptor, quality, track_count, gap, total_gap);
    let form = form_words(descriptor);
    let others = form_words(other);
    assert(Seq::<u8>::empty() + encode_utf8(form) + words =~= mine);
    assert(Seq::<u8>::empty() + encode_utf8(others) + words =~= mine);
    lemma_same_middle(Seq::<u8>::empty(), encode_utf8(form), encode_utf8(others), words);
    assert(none + form =~= form);
    assert(none + others =~= others);
    lemma_same_text(none, form, others);
    let rate = decimal(descriptor.sample_rate as nat);
    let channels = decimal(descriptor.channels as nat);
    let bits = decimal(descriptor.bits_per_sample as nat);
    let other_rate = decimal(other.sample_rate as nat);
    let other_channels = decimal(other.channels as nat);
    let other_bits = decimal(other.bits_per_sample as nat);
    if channels == other_channels && bits == other_bits {
        let end = ":"@ + channels + ":"@ + bits;
        assert(form =~= "pcm="@ + rate + end);
        assert(others =~= "pcm="@ + other_rate + end);
        lemma_same_middle("pcm="@, rate, other_rate, end);
        decimals_are_unambiguous(descriptor.sample_rate as nat, other.sample_rate as nat);
    }
    if rate == other_rate && bits == other_bits {
        let start = "pcm="@ + rate + ":"@;
        let end = ":"@ + bits;
        assert(form =~= start + channels + end);
        assert(others =~= start + other_channels + end);
        lemma_same_middle(start, channels, other_channels, end);
        decimals_are_unambiguous(descriptor.channels as nat, other.channels as nat);
    }
    if rate == other_rate && channels == other_channels {
        let start = "pcm="@ + rate + ":"@ + channels + ":"@;
        assert(form =~= start + bits + none);
        assert(others =~= start + other_bits + none);
        lemma_same_middle(start, bits, other_bits, none);
        decimals_are_unambiguous(descriptor.bits_per_sample as nat, other.bits_per_sample as nat);
    }
}

/// The key of samples holds the quality of their encoding in words.
pub proof fn keys_of_samples_hold_the_quality(
    descriptor: PcmDescriptor,
    quality: EncodeQuality,
    track_count: usize,
    gap: SecondsView,
    total_gap: SecondsView,
)
    ensures
        exists|at: int| #[trigger]
            stands_at(
                samples_key_tail(descriptor, quality, track_count, gap, total_gap),
                encode_utf8("quality="@ + quality.word()),
                at,
            ),
{
    let all = samples_key_tail(descriptor, quality, track_count, gap, total_gap);
    let words = encode_utf8("quality="@ + quality.word());
    let at = encode_utf8(form_words(descriptor)).len() as int;
    assert(all.subrange(at, at + words.len()) =~= words);
    assert(stands_at(all, words, at));
}

/// Whether bytes stand in others at a place.
pub open spec fn stands_at(all: Seq<u8>, part: Seq<u8>, at: int) -> bool {
    0 <= at <= all.len() - part.len() && all.subrange(at, at + part.len()) == part
}

/// A worker takes over what the headers say and nothing else: the quality that the header
/// names, the number of tracks in it, the lengths of time that were read, the key as it is, and
/// the samples in the body. Without any one of these there is no program, and a request without
/// headers that describe samples hands none over. The client is at fault where the quality is
/// none, and the service in all other cases.
pub proof fn programs_are_what_the_headers_say(
    entries: Map<Seq<char>, Seq<Seq<u8>>>,
    descriptor: DescriptorReading,
    gap: Result<SecondsView, Seq<char>>,
    total_gap: Result<SecondsView, Seq<char>>,
    duration: Result<SecondsView, Seq<char>>,
    body: Seq<u8>,
)
    ensures
        match program_told(entries, descriptor, gap, total_gap, duration, body) {
            Ok(Some(program)) => {
                &&& descriptor == DescriptorReading::Read(program.descriptor)
                &&& text_under(entries, INTERNAL_QUALITY_HEADER@) matches Some(word)
                &&& EncodeQuality::named(word) == Some(program.quality)
                &&& text_under(entries, INTERNAL_TRACK_COUNT_HEADER@) matches Some(count)
                &&& number_reading(count, usize::MAX as nat) == Ok::<nat, NumberFault>(
                    program.track_count as nat,
                )
                &&& text_under(entries, INTERNAL_GAP_SECONDS_HEADER@) is Some
                &&& gap == Ok::<SecondsView, Seq<char>>(program.gap)
                &&& text_under(entries, INTERNAL_TOTAL_GAP_SECONDS_HEADER@) is Some
                &&& total_gap == Ok::<SecondsView, Seq<char>>(program.total_gap)
                &&& text_under(entries, INTERNAL_DURATION_SECONDS_HEADER@) is Some
                &&& duration == Ok::<SecondsView, Seq<char>>(program.duration)
                &&& text_under(entries, INTERNAL_AUDIO_KEY_HEADER@) == Some(program.audio_key)
                &&& program.pcm == body
                &&& body.len() > 0
            },
            Ok(None) => descriptor is Absent,
            Err(fault) => {
                &&& !(descriptor is Absent)
                &&& fault is Client <==> descriptor is Read && (text_under(
                    entries,
                    INTERNAL_QUALITY_HEADER@,
                ) matches Some(word) && EncodeQuality::named(word) is None)
            },
        },
{
    if let Some(count) = text_under(entries, INTERNAL_TRACK_COUNT_HEADER@) {
        lemma_reading_bounded(count, usize::MAX as nat);
    }
}

/// What a worker is told before the samples come is what the headers say. The duration and the
/// key may be left out; all else has to be there.
pub proof fn envelopes_are_what_the_headers_say(
    entries: Map<Seq<char>, Seq<Seq<u8>>>,
    descriptor: DescriptorReading,
    gap: Result<SecondsView, Seq<char>>,
    total_gap: Result<SecondsView, Seq<char>>,
    duration: Result<SecondsView, Seq<char>>,
)
    ensures
        match envelope_told(entries, descriptor, gap, total_gap, duration) {
            Ok(Some(envelope)) => {
                &&& descriptor == DescriptorReading::Read(envelope.descriptor)
                &&& text_under(entries, INTERNAL_QUALITY_HEADER@) matches Some(word)
                &&& EncodeQuality::named(word) == Some(envelope.quality)
                &&& text_under(entries, INTERNAL_TRACK_COUNT_HEADER@) matches Some(count)
                &&& number_reading(count, usize::MAX as nat) == Ok::<nat, NumberFault>(
                    envelope.track_count as nat,
                )
                &&& text_under(entries, INTERNAL_GAP_SECONDS_HEADER@) is Some
                &&& gap == Ok::<SecondsView, Seq<char>>(envelope.gap)
                &&& text_under(entries, INTERNAL_TOTAL_GAP_SECONDS_HEADER@) is Some
                &&& total_gap == Ok::<SecondsView, Seq<char>>(envelope.total_gap)
                &&& text_under(entries, INTERNAL_DURATION_SECONDS_HEADER@) is None
                    <==> envelope.duration is None
                &&& envelope.duration matches Some(told) ==> duration == Ok::<
                    SecondsView,
                    Seq<char>,
                >(told)
                &&& text_under(entries, INTERNAL_AUDIO_KEY_HEADER@) == envelope.audio_key
            },
            Ok(None) => descriptor is Absent,
            Err(fault) => {
                &&& !(descriptor is Absent)
                &&& fault is Client <==> descriptor is Read && (text_under(
                    entries,
                    INTERNAL_QUALITY_HEADER@,
                ) matches Some(word) && EncodeQuality::named(word) is None)
            },
        },
{
    if let Some(count) = text_under(entries, INTERNAL_TRACK_COUNT_HEADER@) {
        lemma_reading_bounded(count, usize::MAX as nat);
    }
}

/// A program is seen with what it holds, each thing as it is.
pub proof fn programs_are_seen_as_they_are(program: PreparedEncodeProgram)
    ensures
        program@.pcm == program.pcm_bytes@,
        program@.descriptor.sample_rate == program.sample_rate,
        program@.descriptor.channels == program.channels,
        program@.descriptor.bits_per_sample == program.bits_per_sample,
        program@.duration == program.duration_seconds@,
        program@.quality == program.quality,
        program@.audio_key == program.audio_key@,
        program@.track_count == program.track_count,
        program@.gap == program.gap_seconds@,
        program@.total_gap == program.total_gap_seconds@,
{
}

/// What is known of a program when its request is handed on is what a worker is to be told, and
/// what the worker is told is seen as it is. A whole program tells all of itself.
pub proof fn what_is_known_is_told(
    metadata: PreparedRequestMetadata,
    envelope: PreparedRequestEnvelope,
    program: ProgramView,
)
    ensures
        metadata.envelope().descriptor.sample_rate == metadata.sample_rate,
        metadata.envelope().descriptor.channels == metadata.channels,
        metadata.envelope().descriptor.bits_per_sample == metadata.bits_per_sample,
        metadata.envelope().quality == metadata.quality,
        metadata.envelope().track_count == metadata.track_count,
        metadata.envelope().gap == metadata.gap_seconds@,
        metadata.envelope().total_gap == metadata.total_gap_seconds@,
        metadata.envelope().duration == seconds_view(metadata.duration_seconds),
        metadata.envelope().audio_key == string_view(metadata.audio_key),
        envelope@.descriptor == envelope.descriptor,
        envelope@.quality == envelope.quality,
        envelope@.track_count == envelope.track_count,
        envelope@.gap == envelope.gap_seconds@,
        envelope@.total_gap == envelope.total_gap_seconds@,
        envelope@.duration == seconds_view(envelope.duration_seconds),
        envelope@.audio_key == string_view(envelope.audio_key),
        program.envelope().descriptor == program.descriptor,
        program.envelope().quality == program.quality,
        program.envelope().track_count == program.track_count,
        program.envelope().gap == program.gap,
        program.envelope().total_gap == program.total_gap,
        program.envelope().duration == Some(program.duration),
        program.envelope().audio_key == Some(program.audio_key),
{
}

} // verus!
