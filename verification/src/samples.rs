//! Samples: from interleaved bytes to the channels of a program.

use crate::error::{internal_error, EncodeError};
use crate::prepared::{PcmDescriptor, PreparedEncodeProgram, ProgramView};
use crate::text::{contains_text, decimal, decimal_text, lemma_contains_middle};
use vstd::prelude::*;

verus! {

/// The sample of 16 bits that two bytes hold, the low byte first.
pub open spec fn sample_of(low: u8, high: u8) -> i16 {
    let unsigned = low + 256 * high;
    if unsigned < 32768 {
        unsigned as i16
    } else {
        (unsigned - 65536) as i16
    }
}

/// The low byte of a sample.
pub open spec fn low_byte(sample: i16) -> u8 {
    (sample as int % 256) as u8
}

/// The high byte of a sample.
pub open spec fn high_byte(sample: i16) -> u8 {
    ((sample as int / 256) % 256) as u8
}

/// The sample of 16 bits that two bytes hold, the low byte first.
fn sample_from(low: u8, high: u8) -> (sample: i16)
    ensures
        sample == sample_of(low, high),
{
    let unsigned: i32 = low as i32 + 256 * (high as i32);
    if unsigned < 32768 {
        unsigned as i16
    } else {
        (unsigned - 65536) as i16
    }
}

/// The sample of a channel in a frame of interleaved samples.
pub open spec fn sample_at(pcm: Seq<u8>, channels: int, frame: int, channel: int) -> i16 {
    let offset = frame * (channels * 2) + channel * 2;
    sample_of(pcm[offset], pcm[offset + 1])
}

/// The samples of a channel.
pub open spec fn channel_samples(pcm: Seq<u8>, channels: int, channel: int) -> Seq<i16> {
    Seq::new(
        (pcm.len() as int / (channels * 2)) as nat,
        |frame: int| sample_at(pcm, channels, frame, channel),
    )
}

/// Why the samples of a program do not have the form that is expected, if they do not.
pub open spec fn form_refusal(
    program: ProgramView,
    expected_channels: usize,
    expected_sample_rate: usize,
) -> Option<Seq<char>> {
    let form = program.descriptor;
    if form.sample_rate != expected_sample_rate {
        Some(
            "prepared PCM sample rate "@ + decimal(form.sample_rate as nat)
                + " does not match bundle sample rate "@ + decimal(expected_sample_rate as nat),
        )
    } else if form.channels != expected_channels {
        Some(
            "prepared PCM channels "@ + decimal(form.channels as nat)
                + " do not match bundle channels "@ + decimal(expected_channels as nat),
        )
    } else if form.bits_per_sample != 16 {
        Some(
            "encodec-api currently expects canonical s16le PCM, got "@ + decimal(
                form.bits_per_sample as nat,
            ) + " bits"@,
        )
    } else {
        None
    }
}

/// The bytes of samples do not fill whole frames.
pub open spec fn unaligned(size: nat, bytes_per_frame: nat) -> Seq<char> {
    "prepared PCM length "@ + decimal(size) + " is not aligned to "@ + decimal(bytes_per_frame)
        + " bytes/frame"@
}

proof fn lemma_offset_fits(size: int, channels: int, frame: int, channel: int)
    requires
        channels > 0,
        size % (channels * 2) == 0,
        0 <= frame < size / (channels * 2),
        0 <= channel < channels,
    ensures
        0 <= frame * (channels * 2),
        0 <= frame * (channels * 2) + channel * 2,
        frame * (channels * 2) + channel * 2 + 1 < size,
{
    let width = channels * 2;
    assert(size == width * (size / width) + size % width) by (nonlinear_arith)
        requires
            width > 0,
    ;
    assert(frame * width + width <= width * (size / width)) by (nonlinear_arith)
        requires
            0 <= frame < size / width,
            width > 0,
    ;
    assert(0 <= frame * width) by (nonlinear_arith)
        requires
            0 <= frame,
            width > 0,
    ;
}

/// The samples of one channel.
fn split_channel(pcm: &Vec<u8>, channels: usize, channel: usize) -> (samples: Vec<i16>)
    requires
        0 < channels <= 255,
        channel < channels,
        pcm@.len() as int % (channels * 2) == 0,
    ensures
        samples@ == channel_samples(pcm@, channels as int, channel as int),
{
    let width: usize = channels * 2;
    let frames: usize = pcm.len() / width;
    let mut samples: Vec<i16> = Vec::new();
    let mut frame: usize = 0;
    while frame < frames
        invariant
            0 < channels <= 255,
            channel < channels,
            width == channels * 2,
            frames == pcm@.len() as int / (channels * 2),
            pcm@.len() as int % (channels * 2) == 0,
            pcm@.len() <= usize::MAX,
            frame <= frames,
            samples@ == channel_samples(pcm@, channels as int, channel as int).take(frame as int),
        decreases frames - frame,
    {
        proof {
            lemma_offset_fits(
                pcm@.len() as int,
                channels as int,
                frame as int,
                channel as int,
            );
        }
        let offset: usize = frame * width + channel * 2;
        samples.push(sample_from(pcm[offset], pcm[offset + 1]));
        let ghost all = channel_samples(pcm@, channels as int, channel as int);
        assert(all.take(frame + 1) =~= all.take(frame as int).push(all[frame as int]));
        frame = frame + 1;
    }
    assert(samples@ =~= channel_samples(pcm@, channels as int, channel as int));
    samples
}

/// The samples of a program by channel, where they have the form that is expected and fill
/// whole frames. A program without channels has no frames that could be filled.
pub fn prepared_pcm_to_audio(
    prepared: &PreparedEncodeProgram,
    expected_channels: usize,
    expected_sample_rate: usize,
) -> (audio: Result<Vec<Vec<i16>>, EncodeError>)
    requires
        expected_channels == 0 ==> form_refusal(
            prepared@,
            expected_channels,
            expected_sample_rate,
        ) is Some,
    ensures
        match form_refusal(prepared@, expected_channels, expected_sample_rate) {
            Some(message) => audio matches Err(error) && error.is_internal(message),
            None => if prepared@.pcm.len() as int % (expected_channels * 2) != 0 {
                audio matches Err(error) && error.is_internal(
                    unaligned(prepared@.pcm.len(), (expected_channels * 2) as nat),
                )
            } else {
                &&& audio matches Ok(split)
                &&& split@.len() == expected_channels
                &&& forall|channel: int|
                    0 <= channel < expected_channels ==> (#[trigger] split@[channel])@
                        == channel_samples(prepared@.pcm, expected_channels as int, channel)
            },
        },
{
    if prepared.sample_rate as usize != expected_sample_rate {
        let message = "prepared PCM sample rate ".to_owned().concat(
            decimal_text(prepared.sample_rate as u64).as_str(),
        ).concat(" does not match bundle sample rate ").concat(
            decimal_text(expected_sample_rate as u64).as_str(),
        );
        return Err(internal_error(message.as_str()));
    }
    if prepared.channels as usize != expected_channels {
        let message = "prepared PCM channels ".to_owned().concat(
            decimal_text(prepared.channels as u64).as_str(),
        ).concat(" do not match bundle channels ").concat(
            decimal_text(expected_channels as u64).as_str(),
        );
        return Err(internal_error(message.as_str()));
    }
    if prepared.bits_per_sample != 16 {
        let message = "encodec-api currently expects canonical s16le PCM, got ".to_owned().concat(
            decimal_text(prepared.bits_per_sample as u64).as_str(),
        ).concat(" bits");
        return Err(internal_error(message.as_str()));
    }
    let bytes_per_frame: usize = expected_channels * 2;
    if prepared.pcm_bytes.len() % bytes_per_frame != 0 {
        let message = "prepared PCM length ".to_owned().concat(
            decimal_text(prepared.pcm_bytes.len() as u64).as_str(),
        ).concat(" is not aligned to ").concat(
            decimal_text(bytes_per_frame as u64).as_str(),
        ).concat(" bytes/frame");
        return Err(internal_error(message.as_str()));
    }
    let mut split: Vec<Vec<i16>> = Vec::new();
    let mut channel: usize = 0;
    while channel < expected_channels
        invariant
            0 < expected_channels <= 255,
            channel <= expected_channels,
            prepared.pcm_bytes@.len() as int % (expected_channels * 2) == 0,
            split@.len() == channel,
            forall|c: int|
                0 <= c < channel ==> (#[trigger] split@[c])@ == channel_samples(
                    prepared.pcm_bytes@,
                    expected_channels as int,
                    c,
                ),
        decreases expected_channels - channel,
    {
        split.push(split_channel(&prepared.pcm_bytes, expected_channels, channel));
        channel = channel + 1;
    }
    Ok(split)
}

/// No byte is lost when samples are split by channel: each is a byte of the sample of its
/// channel in its frame.
pub proof fn samples_hold_every_byte(pcm: Seq<u8>, channels: int, index: int)
    requires
        channels > 0,
        pcm.len() as int % (channels * 2) == 0,
        0 <= index < pcm.len(),
    ensures
        ({
            let frame = index / (channels * 2);
            let channel = (index % (channels * 2)) / 2;
            let sample = channel_samples(pcm, channels, channel)[frame];
            &&& 0 <= channel < channels
            &&& 0 <= frame < channel_samples(pcm, channels, channel).len()
            &&& pcm[index] == (if index % 2 == 0 {
                low_byte(sample)
            } else {
                high_byte(sample)
            })
        }),
{
    let width = channels * 2;
    let size = pcm.len() as int;
    let frame = index / width;
    let within = index % width;
    let channel = within / 2;
    assert(index == width * frame + within && 0 <= within < width) by (nonlinear_arith)
        requires
            width > 0,
            frame == index / width,
            within == index % width,
    ;
    assert(0 <= frame < size / width) by (nonlinear_arith)
        requires
            width > 0,
            0 <= index < size,
            size % width == 0,
            frame == index / width,
    ;
    assert(frame * width == width * frame) by (nonlinear_arith);
    let pairs = channels * frame;
    assert(width * frame == 2 * pairs) by (nonlinear_arith)
        requires
            width == channels * 2,
            pairs == channels * frame,
    ;
    lemma_offset_fits(size, channels, frame, channel);
    let offset = frame * width + channel * 2;
    let sample = sample_of(pcm[offset], pcm[offset + 1]);
    lemma_bytes_of_sample(pcm[offset], pcm[offset + 1]);
    assert(channel_samples(pcm, channels, channel)[frame] == sample);
    assert(index == offset + index % 2);
}

proof fn lemma_bytes_of_sample(low: u8, high: u8)
    ensures
        low_byte(sample_of(low, high)) == low,
        high_byte(sample_of(low, high)) == high,
{
    let unsigned = low + 256 * high;
    let sample = sample_of(low, high);
    if unsigned < 32768 {
        assert(sample as int == unsigned);
    } else {
        assert(sample as int == unsigned - 65536);
    }
}

/// Samples of the form in which programs are prepared are expected by every bundle for
/// stereo at 48 kHz.
pub proof fn prepared_form_is_expected(program: ProgramView)
    requires
        program.descriptor == (PcmDescriptor {
            sample_rate: 48_000,
            channels: 2,
            bits_per_sample: 16,
        }),
    ensures
        form_refusal(program, 2, 48_000) is None,
{
}

/// The low byte of a sample counts ones and the high byte counts by the two hundred and
/// fifty-six, and the upper half of what they can hold is negative.
pub proof fn samples_are_little_endian(low: u8, high: u8)
    ensures
        (sample_of(low, high) - low - 256 * high) % 65536 == 0,
        high < 128 <==> sample_of(low, high) >= 0,
        -32768 <= sample_of(low, high) <= 32767,
        low < 255 ==> sample_of((low + 1) as u8, high) == sample_of(low, high) + 1,
{
}

/// The channels of a program are as long as each other, and frame by frame they hold the samples
/// in the order in which these come: the next sample of a frame is that of the next channel, and
/// after the last channel comes the next frame.
pub proof fn channels_take_turns(pcm: Seq<u8>, channels: int, frame: int, channel: int)
    requires
        channels > 0,
        pcm.len() as int % (channels * 2) == 0,
        0 <= channel < channels,
        0 <= frame < pcm.len() as int / (channels * 2),
    ensures
        channel_samples(pcm, channels, channel).len() * (channels * 2) == pcm.len(),
        channel_samples(pcm, channels, channel)[frame] == sample_of(
            pcm[2 * (frame * channels + channel)],
            pcm[2 * (frame * channels + channel) + 1],
        ),
{
    assert(frame * (channels * 2) + channel * 2 == 2 * (frame * channels + channel))
        by (nonlinear_arith);
    let size = pcm.len() as int;
    let width = channels * 2;
    assert((size / width) * width == size) by (nonlinear_arith)
        requires
            width > 0,
            size % width == 0,
    ;
}

/// Samples of another rate, with other channels or of another size than is expected are refused,
/// each on its own; nothing else is.
pub proof fn other_forms_are_refused(
    program: ProgramView,
    expected_channels: usize,
    expected_sample_rate: usize,
)
    ensures
        form_refusal(program, expected_channels, expected_sample_rate) is None <==> {
            &&& program.descriptor.sample_rate == expected_sample_rate
            &&& program.descriptor.channels == expected_channels
            &&& program.descriptor.bits_per_sample == 16
        },
{
}

/// A refusal of samples tells the number that is wrong, and the one that is expected.
pub proof fn refusals_tell_the_numbers(
    program: ProgramView,
    expected_channels: usize,
    expected_sample_rate: usize,
    size: nat,
    bytes_per_frame: nat,
)
    ensures
        ({
            let form = program.descriptor;
            let refusal = form_refusal(program, expected_channels, expected_sample_rate);
            &&& form.sample_rate != expected_sample_rate ==> {
                &&& contains_text(refusal->0, decimal(form.sample_rate as nat))
                &&& decimal(expected_sample_rate as nat).is_suffix_of(refusal->0)
            }
            &&& form.sample_rate == expected_sample_rate && form.channels != expected_channels ==> {
                &&& contains_text(refusal->0, decimal(form.channels as nat))
                &&& decimal(expected_channels as nat).is_suffix_of(refusal->0)
            }
            &&& form.sample_rate == expected_sample_rate && form.channels == expected_channels
                && form.bits_per_sample != 16 ==> contains_text(
                refusal->0,
                decimal(form.bits_per_sample as nat),
            )
        }),
        contains_text(unaligned(size, bytes_per_frame), decimal(size)),
        contains_text(unaligned(size, bytes_per_frame), decimal(bytes_per_frame)),
{
    let form = program.descriptor;
    if form.sample_rate != expected_sample_rate {
        lemma_told_with_end(
            "prepared PCM sample rate "@,
            decimal(form.sample_rate as nat),
            " does not match bundle sample rate "@,
            decimal(expected_sample_rate as nat),
        );
    } else if form.channels != expected_channels {
        lemma_told_with_end(
            "prepared PCM channels "@,
            decimal(form.channels as nat),
            " do not match bundle channels "@,
            decimal(expected_channels as nat),
        );
    } else {
        lemma_contains_middle(
            "encodec-api currently expects canonical s16le PCM, got "@,
            decimal(form.bits_per_sample as nat),
            " bits"@,
        );
    }
    let start = "prepared PCM length "@;
    let middle = " is not aligned to "@;
    let end = " bytes/frame"@;
    let told = unaligned(size, bytes_per_frame);
    lemma_contains_middle(start, decimal(size), middle + decimal(bytes_per_frame) + end);
    assert(told =~= start + decimal(size) + (middle + decimal(bytes_per_frame) + end));
    lemma_contains_middle(start + decimal(size) + middle, decimal(bytes_per_frame), end);
}

proof fn lemma_told_with_end(start: Seq<char>, a: Seq<char>, middle: Seq<char>, b: Seq<char>)
    ensures
        contains_text(start + a + middle + b, a),
        b.is_suffix_of(start + a + middle + b),
{
    let told = start + a + middle + b;
    lemma_contains_middle(start, a, middle + b);
    assert(told =~= start + a + (middle + b));
    assert(told.subrange(told.len() - b.len(), told.len() as int) =~= b);
}

} // verus!
