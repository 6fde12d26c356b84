//! Results of encodings: packing the encoded audio into a picture, and what the client is
//! told of it.

use crate::config::{target_label, AppConfig};
use crate::error::{internal_error, EncodeError};
use crate::events::{header_members, member_is_kept};
use crate::json::Json;
use crate::options::EncodeQuality;
use crate::prepared::{PreparedEncodeProgram, ProgramView};
use crate::request::{first_value, is_first, the_first_pair_counts};
use crate::seconds::{Seconds, SecondsView};
use crate::text::{
    decimal, decimal_reads_back, decimal_text, number_reading, pair_views, NumberFault,
};
use image::ImageEncoder;
use vstd::prelude::*;

verus! {

/// How bytes are packed into a picture.
pub const PNG_FORMAT: &'static str = "rgb-v2";

/// The model that makes the encodings.
pub const MODEL_NAME: &'static str = "encodec_48khz";

// ---------------------------------------------------------------------------------------
// The picture
// ---------------------------------------------------------------------------------------

/// How many pixels of three bytes hold the given number of bytes.
pub open spec fn pixels_for(size: nat) -> nat {
    (size + 2) / 3
}

/// Whether the smallest square picture that holds the given number of bytes has this side.
pub open spec fn is_side_for(size: nat, side: nat) -> bool {
    &&& side * side >= pixels_for(size)
    &&& side > 0 ==> (side - 1) * (side - 1) < pixels_for(size)
}

/// The side of the smallest square picture that holds the given number of bytes.
pub fn png_side_for_bytes(size_bytes: usize) -> (side: usize)
    ensures
        is_side_for(size_bytes as nat, side as nat),
{
    let pixels: u64 = if size_bytes % 3 == 0 {
        size_bytes as u64 / 3
    } else {
        size_bytes as u64 / 3 + 1
    };
    assert(pixels == pixels_for(size_bytes as nat));
    let mut low: u64 = 0;
    let mut high: u64 = 0xffff_ffff;
    assert(high * high >= pixels) by (nonlinear_arith)
        requires
            high == 0xffff_ffff,
            pixels <= 0x5555_5555_5555_5556,
    ;
    while low < high
        invariant
            low <= high <= 0xffff_ffff,
            high * high >= pixels,
            low > 0 ==> (low - 1) * (low - 1) < pixels,
        decreases high - low,
    {
        let middle: u64 = low + (high - low) / 2;
        assert(middle * middle <= 0xffff_ffff * 0xffff_ffff) by (nonlinear_arith)
            requires
                0 <= middle <= 0xffff_ffff,
        ;
        if middle * middle >= pixels {
            high = middle;
        } else {
            low = middle + 1;
        }
    }
    low as usize
}

/// No two sides fit: the smallest picture has one side.
pub proof fn sides_are_unique(size: nat, a: nat, b: nat)
    requires
        is_side_for(size, a),
        is_side_for(size, b),
    ensures
        a == b,
{
    if a < b {
        assert(a * a <= (b - 1) * (b - 1)) by (nonlinear_arith)
            requires
                0 <= a <= b - 1,
        ;
    } else if b < a {
        assert(b * b <= (a - 1) * (a - 1)) by (nonlinear_arith)
            requires
                0 <= b <= a - 1,
        ;
    }
}

/// The bytes of the picture that holds the given bytes: these, and zeros up to the end.
pub open spec fn packed(data: Seq<u8>, side: nat) -> Seq<u8> {
    Seq::new(
        side * side * 3,
        |i: int|
            if i < data.len() {
                data[i]
            } else {
                0u8
            },
    )
}

/// Nothing is lost when bytes are packed: the picture starts with all of them, and only
/// zeros follow.
pub proof fn packing_keeps_the_bytes(data: Seq<u8>, side: nat)
    requires
        is_side_for(data.len(), side),
    ensures
        data.is_prefix_of(packed(data, side)),
        forall|i: int|
            data.len() <= i < packed(data, side).len() ==> #[trigger] packed(data, side)[i] == 0,
        packed(data, side).len() == 3 * (side * side),
{
    assert(packed(data, side).take(data.len() as int) =~= data);
}

/// The PNG file of a square picture, by the bytes of its pixels.
pub uninterp spec fn png_of(rgb: Seq<u8>, side: nat) -> Seq<u8>;

/// The error of `image`.
#[verifier::external_type_specification]
#[verifier::external_body]
pub struct ExImageError(image::ImageError);

/// `image::codecs::png::PngEncoder::write_image`, with the best compression and adaptive
/// filters, of a square picture with three bytes to the pixel. It panics where the bytes
/// are not as many as the picture has, and fails where the picture has no pixels. Writing
/// goes to memory, so nothing else fails.
#[verifier::external_body]
pub(crate) fn encode_png(rgb: &[u8], side: u32) -> (encoded: Result<Vec<u8>, image::ImageError>)
    requires
        rgb@.len() == side * side * 3,
    ensures
        encoded is Ok <==> side > 0,
        encoded matches Ok(png) ==> png@ == png_of(rgb@, side as nat),
{
    let mut png = Vec::new();
    let encoder = image::codecs::png::PngEncoder::new_with_quality(
        &mut png,
        image::codecs::png::CompressionType::Best,
        image::codecs::png::FilterType::Adaptive,
    );
    match encoder.write_image(rgb, side, side, image::ExtendedColorType::Rgb8) {
        Ok(()) => Ok(png),
        Err(error) => Err(error),
    }
}

/// The picture of bytes fits in memory where the bytes do.
proof fn lemma_picture_fits(size: nat, side: nat)
    requires
        size <= isize::MAX,
        is_side_for(size, side),
    ensures
        side <= 0xffff_ffff,
        side * side * 3 <= usize::MAX,
        size <= side * side * 3,
{
    let pixels = pixels_for(size);
    if side > 0 {
        let less = (side - 1) as nat;
        assert(side * side == less * less + 2 * less + 1) by (nonlinear_arith)
            requires
                side == less + 1,
        ;
        if usize::MAX == 0xffff_ffff {
            assert(less < 0x8000) by (nonlinear_arith)
                requires
                    less * less < 0x4000_0000,
            ;
        } else {
            assert(less < 0x8000_0000) by (nonlinear_arith)
                requires
                    less * less < 0x4000_0000_0000_0000,
            ;
        }
    } else {
        assert(side * side == 0) by (nonlinear_arith)
            requires
                side == 0,
        ;
    }
}

/// The picture that holds the given bytes, and its side. There is none for no bytes.
pub fn bytes_to_png(data: &[u8]) -> (picture: Result<(Vec<u8>, usize), EncodeError>)
    requires
        data@.len() <= isize::MAX,
    ensures
        match picture {
            Ok((png, side)) => {
                &&& data@.len() > 0
                &&& is_side_for(data@.len(), side as nat)
                &&& png@ == png_of(packed(data@, side as nat), side as nat)
            },
            Err(error) => data@.len() == 0 && error.is_internal("failed to encode PNG"@),
        },
{
    let side: usize = png_side_for_bytes(data.len());
    proof {
        lemma_picture_fits(data@.len(), side as nat);
        assert(0 <= side * side) by (nonlinear_arith);
        if side == 0 {
            assert(side * side == 0) by (nonlinear_arith)
                requires
                    side == 0,
            ;
        } else {
            assert(0 <= (side - 1) * (side - 1)) by (nonlinear_arith);
        }
    }
    let byte_len: usize = side * side * 3;
    let mut rgb: Vec<u8> = Vec::new();
    rgb.extend_from_slice(data);
    while rgb.len() < byte_len
        invariant
            data@.len() <= rgb@.len() <= byte_len,
            forall|i: int|
                0 <= i < rgb@.len() ==> #[trigger] rgb@[i] == (if i < data@.len() {
                    data@[i]
                } else {
                    0u8
                }),
        decreases byte_len - rgb@.len(),
    {
        rgb.push(0u8);
    }
    assert(rgb@ =~= packed(data@, side as nat));
    match encode_png(rgb.as_slice(), side as u32) {
        Ok(png) => Ok((png, side)),
        Err(_) => Err(internal_error("failed to encode PNG")),
    }
}

// ---------------------------------------------------------------------------------------
// Artifacts
// ---------------------------------------------------------------------------------------

/// What an encoding gave.
#[derive(Clone, Debug, PartialEq, Eq)]
pub struct EncodeArtifacts {
    pub ecdc: Vec<u8>,
    pub png: Vec<u8>,
    pub png_side: usize,
    pub device_label: String,
    pub duration_seconds: Seconds,
    pub quality: EncodeQuality,
    pub audio_key: String,
    pub track_count: usize,
    pub gap_seconds: Seconds,
    pub total_gap_seconds: Seconds,
}

/// What an encoding gave.
pub struct ArtifactsView {
    pub ecdc: Seq<u8>,
    pub png: Seq<u8>,
    pub png_side: nat,
    pub device_label: Seq<char>,
    pub duration: SecondsView,
    pub quality: EncodeQuality,
    pub audio_key: Seq<char>,
    pub track_count: nat,
    pub gap: SecondsView,
    pub total_gap: SecondsView,
}

impl View for EncodeArtifacts {
    type V = ArtifactsView;

    open spec fn view(&self) -> ArtifactsView {
        ArtifactsView {
            ecdc: self.ecdc@,
            png: self.png@,
            png_side: self.png_side as nat,
            device_label: self.device_label@,
            duration: self.duration_seconds@,
            quality: self.quality,
            audio_key: self.audio_key@,
            track_count: self.track_count as nat,
            gap: self.gap_seconds@,
            total_gap: self.total_gap_seconds@,
        }
    }
}

/// What the encoding of a program gave, by the encoded audio and the side of its picture.
pub open spec fn artifacts_of(
    config: AppConfig,
    program: ProgramView,
    ecdc: Seq<u8>,
    side: nat,
) -> ArtifactsView {
    ArtifactsView {
        ecdc,
        png: png_of(packed(ecdc, side), side),
        png_side: side,
        device_label: target_label(config) + "-"@ + config.encodec_backend@,
        duration: program.duration,
        quality: program.quality,
        audio_key: program.audio_key,
        track_count: program.track_count as nat,
        gap: program.gap,
        total_gap: program.total_gap,
    }
}

/// What the encoding of a program gave. There is no picture where it gave no bytes.
pub fn build_artifacts_from_ecdc(
    config: &AppConfig,
    prepared: &PreparedEncodeProgram,
    ecdc: Vec<u8>,
) -> (artifacts: Result<EncodeArtifacts, EncodeError>)
    requires
        ecdc@.len() <= isize::MAX,
    ensures
        match artifacts {
            Ok(artifacts) => {
                &&& ecdc@.len() > 0
                &&& is_side_for(ecdc@.len(), artifacts@.png_side)
                &&& artifacts@ == artifacts_of(*config, prepared@, ecdc@, artifacts@.png_side)
            },
            Err(error) => ecdc@.len() == 0 && error.is_internal("failed to encode PNG"@),
        },
{
    match bytes_to_png(ecdc.as_slice()) {
        Ok((png, png_side)) => Ok(
            EncodeArtifacts {
                ecdc,
                png,
                png_side,
                device_label: config.device_label(),
                duration_seconds: prepared.duration_seconds.copied(),
                quality: prepared.quality,
                audio_key: prepared.audio_key.clone(),
                track_count: prepared.track_count,
                gap_seconds: prepared.gap_seconds.copied(),
                total_gap_seconds: prepared.total_gap_seconds.copied(),
            },
        ),
        Err(error) => Err(error),
    }
}

/// The header lines of the response to a request for an encoding.
pub open spec fn response_lines(artifacts: ArtifactsView) -> Seq<(Seq<char>, Seq<char>)> {
    seq![
        ("cache-control"@, "no-store"@),
        ("x-cache"@, "MISS"@),
        ("x-ecdc-bytes"@, decimal(artifacts.ecdc.len())),
        ("x-png-size"@, decimal(artifacts.png_side)),
        ("x-duration"@, artifacts.duration.hundredths),
        ("x-device"@, artifacts.device_label),
        ("x-png-format"@, PNG_FORMAT@),
        ("x-encodec-model"@, MODEL_NAME@),
        ("x-encodec-lm"@, "true"@),
        ("x-encodec-quality"@, artifacts.quality.word()),
        ("x-encodec-bandwidth"@, decimal(artifacts.quality.kbps() as nat)),
        ("x-track-count"@, decimal(artifacts.track_count)),
        ("x-gap-seconds"@, artifacts.gap.hundredths),
        ("x-gap-seconds-total"@, artifacts.total_gap.hundredths),
        ("x-program-duration"@, artifacts.duration.hundredths),
        ("x-audio-key"@, artifacts.audio_key),
        ("x-audio-ready"@, "false"@),
    ]
}

fn line(name: &str, value: String) -> (line: (String, String))
    ensures
        line.0@ == name@,
        line.1 == value,
{
    (name.to_owned(), value)
}

/// The header lines of the response to a request for an encoding.
pub fn response_headers(artifacts: &EncodeArtifacts) -> (lines: Vec<(String, String)>)
    ensures
        pair_views(lines@) == response_lines(artifacts@),
        first_value(pair_views(lines@), "x-encodec-quality"@) matches Some(word)
            && EncodeQuality::named(word) == Some(artifacts.quality),
{
    proof {
        lemma_line_value(artifacts@, 9);
        EncodeQuality::words_name_themselves(artifacts.quality);
    }
    let mut lines: Vec<(String, String)> = Vec::new();
    lines.push(line("cache-control", "no-store".to_owned()));
    lines.push(line("x-cache", "MISS".to_owned()));
    lines.push(line("x-ecdc-bytes", decimal_text(artifacts.ecdc.len() as u64)));
    lines.push(line("x-png-size", decimal_text(artifacts.png_side as u64)));
    lines.push(line("x-duration", artifacts.duration_seconds.hundredths.clone()));
    lines.push(line("x-device", artifacts.device_label.clone()));
    lines.push(line("x-png-format", PNG_FORMAT.to_owned()));
    lines.push(line("x-encodec-model", MODEL_NAME.to_owned()));
    lines.push(line("x-encodec-lm", "true".to_owned()));
    lines.push(line("x-encodec-quality", artifacts.quality.as_str().to_owned()));
    lines.push(
        line("x-encodec-bandwidth", decimal_text(artifacts.quality.bandwidth_kbps() as u64)),
    );
    lines.push(line("x-track-count", decimal_text(artifacts.track_count as u64)));
    lines.push(line("x-gap-seconds", artifacts.gap_seconds.hundredths.clone()));
    lines.push(line("x-gap-seconds-total", artifacts.total_gap_seconds.hundredths.clone()));
    lines.push(line("x-program-duration", artifacts.duration_seconds.hundredths.clone()));
    lines.push(line("x-audio-key", artifacts.audio_key.clone()));
    lines.push(line("x-audio-ready", "false".to_owned()));
    assert(pair_views(lines@) =~= response_lines(artifacts@));
    lines
}

/// No two header lines of a response have the same name.
proof fn lemma_response_names(artifacts: ArtifactsView)
    ensures
        forall|i: int, j: int|
            0 <= i < j < 17 ==> (#[trigger] response_lines(artifacts)[i]).0 != (
            #[trigger] response_lines(artifacts)[j]).0,
{
    reveal_strlit("cache-control");
    reveal_strlit("x-cache");
    reveal_strlit("x-ecdc-bytes");
    reveal_strlit("x-png-size");
    reveal_strlit("x-duration");
    reveal_strlit("x-device");
    reveal_strlit("x-png-format");
    reveal_strlit("x-encodec-model");
    reveal_strlit("x-encodec-lm");
    reveal_strlit("x-encodec-quality");
    reveal_strlit("x-encodec-bandwidth");
    reveal_strlit("x-track-count");
    reveal_strlit("x-gap-seconds");
    reveal_strlit("x-gap-seconds-total");
    reveal_strlit("x-program-duration");
    reveal_strlit("x-audio-key");
    reveal_strlit("x-audio-ready");
    let lines = response_lines(artifacts);
    assert forall|i: int, j: int| 0 <= i < j < 17 implies (#[trigger] lines[i]).0 != (
    #[trigger] lines[j]).0 by {
        let a = lines[i].0;
        let b = lines[j].0;
        // Names of the same length differ in the third or the fourth character.
        assert(a.len() != b.len() || a[2] != b[2] || a[3] != b[3]);
    }
}

/// The last event of a stream tells every header line of the response: none hides another.
pub proof fn meta_tells_every_header(artifacts: ArtifactsView, index: int)
    requires
        0 <= index < response_lines(artifacts).len(),
    ensures
        ({
            let line = response_lines(artifacts)[index];
            let members = header_members(response_lines(artifacts));
            members.contains_key(line.0) && members[line.0] == Json::Text(line.1)
        }),
{
    lemma_response_names(artifacts);
    member_is_kept(response_lines(artifacts), index);
}

/// No smaller picture would do: one with this side holds all bytes, and none with a smaller
/// side does.
pub proof fn smaller_pictures_do_not_hold_the_bytes(size: nat, side: nat, smaller: nat)
    requires
        is_side_for(size, side),
        smaller < side,
    ensures
        size <= side * side * 3,
        smaller * smaller * 3 < size,
{
    assert(smaller * smaller <= (side - 1) * (side - 1)) by (nonlinear_arith)
        requires
            0 <= smaller <= side - 1,
    ;
}

/// What an encoding gave holds the encoded audio as it is, and keeps all that is known of the
/// program. Its picture is one from which the encoded audio can be read back, and its label
/// begins with the place and ends with what made it.
pub proof fn artifacts_keep_the_program(
    config: AppConfig,
    program: ProgramView,
    ecdc: Seq<u8>,
    side: nat,
)
    requires
        is_side_for(ecdc.len(), side),
    ensures
        ({
            let artifacts = artifacts_of(config, program, ecdc, side);
            &&& artifacts.ecdc == ecdc
            &&& exists|pixels: Seq<u8>|
                ecdc.is_prefix_of(pixels) && artifacts.png == #[trigger] png_of(
                    pixels,
                    artifacts.png_side,
                )
            &&& artifacts.png_side == side
            &&& artifacts.duration == program.duration
            &&& artifacts.quality == program.quality
            &&& artifacts.audio_key == program.audio_key
            &&& artifacts.track_count == program.track_count
            &&& artifacts.gap == program.gap
            &&& artifacts.total_gap == program.total_gap
            &&& target_label(config).is_prefix_of(artifacts.device_label)
            &&& config.encodec_backend@.is_suffix_of(artifacts.device_label)
            &&& artifacts.device_label.len() == target_label(config).len() + 1
                + config.encodec_backend@.len()
            &&& artifacts.device_label[target_label(config).len() as int] == '-'
        }),
{
    let artifacts = artifacts_of(config, program, ecdc, side);
    packing_keeps_the_bytes(ecdc, side);
    assert(artifacts.png == png_of(packed(ecdc, side), artifacts.png_side));
    reveal_strlit("-");
    let label = artifacts.device_label;
    let place = target_label(config);
    let maker = config.encodec_backend@;
    assert(label.subrange(0, place.len() as int) =~= place);
    assert(label.subrange(label.len() - maker.len(), label.len() as int) =~= maker);
}

/// What the line with a name says, of lines that have different names.
proof fn lemma_line_value(artifacts: ArtifactsView, index: int)
    requires
        0 <= index < 17,
    ensures
        first_value(response_lines(artifacts), response_lines(artifacts)[index].0) == Some(
            response_lines(artifacts)[index].1,
        ),
{
    let lines = response_lines(artifacts);
    lemma_response_names(artifacts);
    assert(is_first(lines, lines[index].0, index));
    the_first_pair_counts(lines, lines[index].0, index);
}

/// The header lines of a response describe the encoding. The one for the quality names the
/// quality of the artifacts, so that it tells the qualities apart. The numbers are those of the
/// artifacts when they are read back: the bandwidth of the quality, the tracks, the size of the
/// encoded audio and the side of the picture. The lengths of time are each that of its own, the
/// duration in two lines, and the key and the device are told as they are.
pub proof fn responses_describe_the_encoding(artifacts: ArtifactsView, limit: nat)
    requires
        artifacts.quality.kbps() <= limit,
        artifacts.track_count <= limit,
        artifacts.ecdc.len() <= limit,
        artifacts.png_side <= limit,
    ensures
        ({
            let lines = response_lines(artifacts);
            &&& first_value(lines, "x-encodec-quality"@) matches Some(word)
            &&& EncodeQuality::named(word) == Some(artifacts.quality)
            &&& first_value(lines, "x-encodec-bandwidth"@) matches Some(kbps)
            &&& number_reading(kbps, limit) == Ok::<nat, NumberFault>(
                artifacts.quality.kbps() as nat,
            )
            &&& first_value(lines, "x-track-count"@) matches Some(tracks)
            &&& number_reading(tracks, limit) == Ok::<nat, NumberFault>(artifacts.track_count)
            &&& first_value(lines, "x-ecdc-bytes"@) matches Some(size)
            &&& number_reading(size, limit) == Ok::<nat, NumberFault>(artifacts.ecdc.len())
            &&& first_value(lines, "x-png-size"@) matches Some(side)
            &&& number_reading(side, limit) == Ok::<nat, NumberFault>(artifacts.png_side)
            &&& first_value(lines, "x-duration"@) == Some(artifacts.duration.hundredths)
            &&& first_value(lines, "x-program-duration"@) == Some(artifacts.duration.hundredths)
            &&& first_value(lines, "x-gap-seconds"@) == Some(artifacts.gap.hundredths)
            &&& first_value(lines, "x-gap-seconds-total"@) == Some(artifacts.total_gap.hundredths)
            &&& first_value(lines, "x-audio-key"@) == Some(artifacts.audio_key)
            &&& first_value(lines, "x-device"@) == Some(artifacts.device_label)
        }),
{
    lemma_line_value(artifacts, 2);
    lemma_line_value(artifacts, 3);
    lemma_line_value(artifacts, 4);
    lemma_line_value(artifacts, 5);
    lemma_line_value(artifacts, 9);
    lemma_line_value(artifacts, 10);
    lemma_line_value(artifacts, 11);
    lemma_line_value(artifacts, 12);
    lemma_line_value(artifacts, 13);
    lemma_line_value(artifacts, 14);
    lemma_line_value(artifacts, 15);
    EncodeQuality::words_name_themselves(artifacts.quality);
    decimal_reads_back(artifacts.quality.kbps() as nat, limit);
    decimal_reads_back(artifacts.track_count, limit);
    decimal_reads_back(artifacts.ecdc.len(), limit);
    decimal_reads_back(artifacts.png_side, limit);
}

/// No response is to be stored, none comes from a cache, and the format, the model and the use
/// of a language model are the same in all of them.
pub proof fn responses_are_made_anew(artifacts: ArtifactsView, other: ArtifactsView)
    ensures
        ({
            let lines = response_lines(artifacts);
            let others = response_lines(other);
            &&& first_value(lines, "cache-control"@) == Some("no-store"@)
            &&& first_value(lines, "x-cache"@) == Some("MISS"@)
            &&& first_value(lines, "x-png-format"@) == Some("rgb-v2"@)
            &&& first_value(lines, "x-encodec-model"@) == Some("encodec_48khz"@)
            &&& first_value(lines, "x-encodec-lm"@) == Some("true"@)
            &&& first_value(lines, "x-encodec-lm"@) == first_value(others, "x-encodec-lm"@)
            &&& first_value(lines, "x-audio-ready"@) == Some("false"@)
            &&& first_value(lines, "x-audio-ready"@) == first_value(others, "x-audio-ready"@)
            &&& forall|i: int|
                0 <= i < lines.len() ==> i < others.len() && (#[trigger] lines[i]).0 == others[i].0
        }),
{
    lemma_line_value(artifacts, 0);
    lemma_line_value(artifacts, 1);
    lemma_line_value(artifacts, 6);
    lemma_line_value(artifacts, 7);
    lemma_line_value(artifacts, 8);
    lemma_line_value(artifacts, 16);
    lemma_line_value(other, 8);
    lemma_line_value(other, 16);
}

/// What an encoding gave is seen as it is.
pub proof fn artifacts_are_seen_as_they_are(artifacts: EncodeArtifacts)
    ensures
        artifacts@.ecdc == artifacts.ecdc@,
        artifacts@.png == artifacts.png@,
        artifacts@.png_side == artifacts.png_side,
        artifacts@.device_label == artifacts.device_label@,
        artifacts@.duration == artifacts.duration_seconds@,
        artifacts@.quality == artifacts.quality,
        artifacts@.audio_key == artifacts.audio_key@,
        artifacts@.track_count == artifacts.track_count,
        artifacts@.gap == artifacts.gap_seconds@,
        artifacts@.total_gap == artifacts.total_gap_seconds@,
{
}

} // verus!
