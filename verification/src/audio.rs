//! Audio encoding: content types, raw 16-bit PCM, the WAVE container and
//! the hand-over to an external encoder.

use crate::text::{push_signed_decimal, same_text, signed_decimal_text, views_of};
use vstd::prelude::*;
use vstd::string::StringExecFns;

verus! {

/// The content type that announces audio of the given format.
pub open spec fn content_type_of(format: Seq<char>) -> Seq<char> {
    if format == "mp3"@ {
        "audio/mpeg"@
    } else if format == "opus"@ {
        "audio/opus"@
    } else if format == "aac"@ {
        "audio/aac"@
    } else if format == "flac"@ {
        "audio/flac"@
    } else if format == "wav"@ {
        "audio/wav"@
    } else if format == "pcm"@ {
        "audio/pcm"@
    } else {
        "application/octet-stream"@
    }
}

/// The content type that announces audio of the given format; a format
/// that is not known is announced as a plain byte stream.
pub fn determine_content_type(format: &str) -> (content_type: String)
    ensures
        content_type@ == content_type_of(format@),
{
    let name = if same_text(format, "mp3") {
        "audio/mpeg"
    } else if same_text(format, "opus") {
        "audio/opus"
    } else if same_text(format, "aac") {
        "audio/aac"
    } else if same_text(format, "flac") {
        "audio/flac"
    } else if same_text(format, "wav") {
        "audio/wav"
    } else if same_text(format, "pcm") {
        "audio/pcm"
    } else {
        "application/octet-stream"
    };
    String::from_str(name)
}

/// The 16 bits of a sample, read as a number from 0 to 65535.
pub open spec fn unsigned_of(sample: i16) -> int {
    if sample >= 0 {
        sample as int
    } else {
        sample + 65536
    }
}

/// Raw PCM: each sample as two bytes, the low byte first, in the order of
/// the samples, with no header.
pub open spec fn pcm_encoding(samples: Seq<i16>) -> Seq<u8> {
    Seq::new(
        2 * samples.len(),
        |i: int|
            if i % 2 == 0 {
                (unsigned_of(samples[i / 2]) % 256) as u8
            } else {
                (unsigned_of(samples[i / 2]) / 256) as u8
            },
    )
}

/// The sample that two bytes of raw PCM stand for.
pub open spec fn sample_of(low: u8, high: u8) -> i16 {
    let u = low + 256 * high;
    if u >= 32768 {
        (u - 65536) as i16
    } else {
        u as i16
    }
}

/// The samples that raw PCM holds: one for each pair of bytes.
pub open spec fn pcm_decoding(bytes: Seq<u8>) -> Seq<i16> {
    Seq::new((bytes.len() / 2) as nat, |i: int| sample_of(bytes[2 * i], bytes[2 * i + 1]))
}

/// Decoding the raw PCM of a sample buffer gives the buffer back, sample
/// for sample.
pub proof fn lemma_pcm_round_trip(samples: Seq<i16>)
    ensures
        pcm_decoding(pcm_encoding(samples)) == samples,
{
    let bytes = pcm_encoding(samples);
    assert(bytes.len() / 2 == samples.len());
    assert forall|i: int| 0 <= i < samples.len() implies pcm_decoding(bytes)[i] == samples[i] by {
        let u = unsigned_of(samples[i]);
        assert(bytes[2 * i] == (u % 256) as u8);
        assert(bytes[2 * i + 1] == (u / 256) as u8);
        assert((2 * i) / 2 == i && (2 * i + 1) / 2 == i);
    }
    assert(pcm_decoding(bytes) =~= samples);
}

/// The raw PCM of `samples`.
pub fn pcm_bytes(samples: &Vec<i16>) -> (bytes: Vec<u8>)
    ensures
        bytes@ == pcm_encoding(samples@),
{
    let mut bytes: Vec<u8> = Vec::new();
    let mut i: usize = 0;
    while i < samples.len()
        invariant
            i <= samples.len(),
            bytes@ == pcm_encoding(samples@.take(i as int)),
        decreases samples.len() - i,
    {
        let sample = samples[i];
        let u: u16 = if sample >= 0 {
            sample as u16
        } else {
            (sample as i32 + 65536) as u16
        };
        let ghost before = bytes@;
        bytes.push((u % 256) as u8);
        bytes.push((u / 256) as u8);
        proof {
            let shorter = samples@.take(i as int);
            let longer = samples@.take(i + 1);
            assert(u == unsigned_of(sample));
            assert forall|k: int| 0 <= k < 2 * (i + 1) implies bytes@[k] == pcm_encoding(
                longer,
            )[k] by {
                if k < 2 * i {
                    assert(before[k] == pcm_encoding(shorter)[k]);
                    assert(shorter[k / 2] == longer[k / 2]);
                } else {
                    assert(k / 2 == i);
                    assert(longer[k / 2] == sample);
                }
            }
            assert(bytes@ =~= pcm_encoding(longer));
        }
        i += 1;
    }
    assert(samples@.take(samples.len() as int) == samples@);
    bytes
}

/// The samples of `parts`, one part after the other.
pub open spec fn concatenated(parts: Seq<Vec<i16>>) -> Seq<i16>
    decreases parts.len(),
{
    if parts.len() == 0 {
        Seq::empty()
    } else {
        concatenated(parts.drop_last()) + parts.last()@
    }
}

/// Joins the sample buffers of the segments of one request, in the order
/// of the segments.
pub fn concat_samples(parts: &Vec<Vec<i16>>) -> (samples: Vec<i16>)
    ensures
        samples@ == concatenated(parts@),
{
    let mut samples: Vec<i16> = Vec::new();
    let mut i: usize = 0;
    assert(parts@.take(0) =~= Seq::<Vec<i16>>::empty());
    while i < parts.len()
        invariant
            i <= parts.len(),
            samples@ == concatenated(parts@.take(i as int)),
        decreases parts.len() - i,
    {
        let part = &parts[i];
        let ghost before = samples@;
        let mut k: usize = 0;
        while k < part.len()
            invariant
                k <= part.len(),
                samples@ == before + part@.take(k as int),
            decreases part.len() - k,
        {
            samples.push(part[k]);
            assert(part@.take(k + 1) == part@.take(k as int).push(part@[k as int]));
            k += 1;
        }
        proof {
            assert(part@.take(part.len() as int) == part@);
            assert(parts@.take(i + 1).drop_last() == parts@.take(i as int));
            assert(parts@.take(i + 1).last() == parts@[i as int]);
        }
        i += 1;
    }
    assert(parts@.take(parts.len() as int) == parts@);
    samples
}

/// Why audio could not be brought into the requested format.
#[derive(Debug)]
pub enum EncodeError {
    /// A WAVE container cannot carry a sample rate that is not positive.
    InvalidSampleRate,
    /// The samples do not fit the 32-bit sizes of a WAVE container.
    TooManySamples,
    /// The WAVE writer reported a failure.
    Container { reason: String },
    /// The external encoder ended with a status other than zero.
    EncoderFailed,
    /// The external encoder could not be run or fed.
    EncoderUnavailable { reason: String },
}

/// The mathematical content of an [`EncodeError`].
pub enum EncodeFailure {
    InvalidSampleRate,
    TooManySamples,
    Container(Seq<char>),
    EncoderFailed,
    EncoderUnavailable(Seq<char>),
}

impl View for EncodeError {
    type V = EncodeFailure;

    open spec fn view(&self) -> EncodeFailure {
        match *self {
            EncodeError::InvalidSampleRate => EncodeFailure::InvalidSampleRate,
            EncodeError::TooManySamples => EncodeFailure::TooManySamples,
            EncodeError::Container { reason } => EncodeFailure::Container(reason@),
            EncodeError::EncoderFailed => EncodeFailure::EncoderFailed,
            EncodeError::EncoderUnavailable { reason } => EncodeFailure::EncoderUnavailable(
                reason@,
            ),
        }
    }
}

/// The text that reports `f`.
pub open spec fn failure_message(f: EncodeFailure) -> Seq<char> {
    match f {
        EncodeFailure::InvalidSampleRate => "sample rate must be positive"@,
        EncodeFailure::TooManySamples => "too many samples for a WAVE container"@,
        EncodeFailure::Container(reason) => reason,
        EncodeFailure::EncoderFailed => "FFmpeg failed"@,
        EncodeFailure::EncoderUnavailable(reason) => reason,
    }
}

impl EncodeError {
    /// The text that reports this error.
    pub fn message(&self) -> (m: String)
        ensures
            m@ == failure_message(self@),
    {
        match self {
            EncodeError::InvalidSampleRate => String::from_str("sample rate must be positive"),
            EncodeError::TooManySamples => String::from_str(
                "too many samples for a WAVE container",
            ),
            EncodeError::Container { reason } => reason.clone(),
            EncodeError::EncoderFailed => String::from_str("FFmpeg failed"),
            EncodeError::EncoderUnavailable { reason } => reason.clone(),
        }
    }
}

/// The number of channels of the audio this library writes.
pub const CHANNELS: u16 = 1;

/// The number of bits of each sample this library writes.
pub const BITS_PER_SAMPLE: u16 = 16;

/// The largest number of samples a WAVE container can carry: the length of
/// the data, and of the file after its first eight bytes, must fit 32 bits.
pub const MAX_WAV_SAMPLES: usize = 2147483629;

/// `hound::Error`, the error of the WAVE writer. Nothing is read from it
/// but its text.
#[verifier::external_type_specification]
#[verifier::external_body]
pub struct ExHoundError(hound::Error);

/// `v` as two bytes, the low byte first.
pub open spec fn le_bytes_16(v: int) -> Seq<u8> {
    seq![(v % 256) as u8, (v / 256 % 256) as u8]
}

/// `v` as four bytes, the low byte first.
pub open spec fn le_bytes_32(v: int) -> Seq<u8> {
    seq![
        (v % 256) as u8,
        (v / 256 % 256) as u8,
        (v / 65536 % 256) as u8,
        (v / 16777216 % 256) as u8,
    ]
}

/// The header of a WAVE file of 16-bit mono PCM: the RIFF chunk with the
/// length of what follows it, the format chunk of plain PCM, and the start
/// of the data chunk with the length of the data.
pub open spec fn wav_header(sample_rate: int, data_len: int) -> Seq<u8> {
    let block_align = CHANNELS * (BITS_PER_SAMPLE / 8);
    seq![0x52u8, 0x49, 0x46, 0x46] + le_bytes_32(36 + data_len)
        + seq![0x57u8, 0x41, 0x56, 0x45]
        + seq![0x66u8, 0x6d, 0x74, 0x20] + le_bytes_32(16) + le_bytes_16(1) + le_bytes_16(
        CHANNELS as int,
    ) + le_bytes_32(sample_rate) + le_bytes_32(sample_rate * block_align) + le_bytes_16(
        block_align,
    ) + le_bytes_16(BITS_PER_SAMPLE as int)
        + seq![0x64u8, 0x61, 0x74, 0x61] + le_bytes_32(data_len)
}

/// The WAVE file of 16-bit mono PCM that holds `samples`: the header, then
/// the raw PCM.
pub open spec fn wav_file(sample_rate: int, samples: Seq<i16>) -> Seq<u8> {
    wav_header(sample_rate, 2 * (samples.len() as int)) + pcm_encoding(samples)
}

/// `hound::WavWriter`, created over an in-memory cursor, fed every sample
/// with `write_sample` and finalized. For 16-bit mono integer audio it
/// writes the 44-byte header of plain PCM and then each sample as two
/// bytes, the low byte first; finalizing fills in the two lengths of the
/// header. Writing to memory does not fail. Left out by `requires`: a
/// sample rate of zero, by which the writer divides, and rates and sizes
/// that overflow its 32-bit fields.
#[verifier::external_body]
fn write_wav(channels: u16, sample_rate: u32, bits_per_sample: u16, samples: &Vec<i16>) -> (r:
    Result<Vec<u8>, hound::Error>)
    requires
        channels == CHANNELS,
        bits_per_sample == BITS_PER_SAMPLE,
        0 < sample_rate <= 2147483647,
        samples.len() <= MAX_WAV_SAMPLES,
    ensures
        r is Ok,
        r matches Ok(bytes) ==> bytes@ == wav_file(sample_rate as int, samples@),
{
    let sample_format = hound::SampleFormat::Int;
    let spec = hound::WavSpec { channels, sample_rate, bits_per_sample, sample_format };
    let mut cursor = std::io::Cursor::new(Vec::new());
    let mut writer = hound::WavWriter::new(&mut cursor, spec)?;
    for sample in samples.iter() {
        writer.write_sample(*sample)?;
    }
    writer.finalize()?;
    Ok(cursor.into_inner())
}

/// `ToString::to_string` on a `hound::Error`: the text that its `Display`
/// renders. Nothing is claimed of the text.
#[verifier::external_body]
fn wav_error_text(error: &hound::Error) -> String {
    error.to_string()
}

/// What wrapping `samples` in a WAVE container gives.
pub open spec fn wav_encoding(samples: Seq<i16>, sample_rate: int) -> Result<
    Seq<u8>,
    EncodeFailure,
> {
    if sample_rate <= 0 {
        Err(EncodeFailure::InvalidSampleRate)
    } else if samples.len() > MAX_WAV_SAMPLES {
        Err(EncodeFailure::TooManySamples)
    } else {
        Ok(wav_file(sample_rate, samples))
    }
}

/// Wraps `samples` in a WAVE container of 16-bit mono PCM with the given
/// sample rate.
pub fn encode_wav(samples: &Vec<i16>, sample_rate: i32) -> (r: Result<Vec<u8>, EncodeError>)
    ensures
        match r {
            Ok(bytes) => wav_encoding(samples@, sample_rate as int) == Ok::<
                Seq<u8>,
                EncodeFailure,
            >(bytes@),
            Err(e) => wav_encoding(samples@, sample_rate as int) == Err::<Seq<u8>, EncodeFailure>(
                e@,
            ),
        },
{
    if sample_rate <= 0 {
        return Err(EncodeError::InvalidSampleRate);
    }
    if samples.len() > MAX_WAV_SAMPLES {
        return Err(EncodeError::TooManySamples);
    }
    match write_wav(CHANNELS, sample_rate as u32, BITS_PER_SAMPLE, samples) {
        Ok(bytes) => Ok(bytes),
        Err(error) => Err(EncodeError::Container { reason: wav_error_text(&error) }),
    }
}

/// The program that encodes the formats this library does not write.
pub const ENCODER_PROGRAM: &'static str = "ffmpeg";

/// The arguments that make the external encoder read signed 16-bit
/// little-endian mono PCM of the given sample rate from its input and write
/// the given format to its output.
pub open spec fn encoder_arguments_of(sample_rate: int, format: Seq<char>) -> Seq<Seq<char>> {
    seq![
        "-f"@,
        "s16le"@,
        "-ar"@,
        signed_decimal_text(sample_rate),
        "-ac"@,
        "1"@,
        "-i"@,
        "pipe:0"@,
        "-f"@,
        format,
        "pipe:1"@,
    ]
}

/// The arguments to run the external encoder with.
pub fn encoder_arguments(sample_rate: i32, format: &str) -> (arguments: Vec<String>)
    ensures
        views_of(arguments@) == encoder_arguments_of(sample_rate as int, format@),
{
    let mut rate = String::new();
    push_signed_decimal(&mut rate, sample_rate as i64);
    assert(rate@ == signed_decimal_text(sample_rate as int)) by {
        assert(Seq::<char>::empty() + signed_decimal_text(sample_rate as int)
            == signed_decimal_text(sample_rate as int));
    }
    let mut arguments: Vec<String> = Vec::new();
    arguments.push(String::from_str("-f"));
    arguments.push(String::from_str("s16le"));
    arguments.push(String::from_str("-ar"));
    arguments.push(rate);
    arguments.push(String::from_str("-ac"));
    arguments.push(String::from_str("1"));
    arguments.push(String::from_str("-i"));
    arguments.push(String::from_str("pipe:0"));
    arguments.push(String::from_str("-f"));
    arguments.push(String::from_str(format));
    arguments.push(String::from_str("pipe:1"));
    assert(views_of(arguments@) =~= encoder_arguments_of(sample_rate as int, format@));
    arguments
}

/// What converting audio comes to: the bytes, where the library writes the
/// format itself, or the work to hand to the external encoder.
#[derive(Debug)]
pub enum Conversion {
    /// The audio in the requested format.
    Done { bytes: Vec<u8> },
    /// Run the encoder with `arguments`, feed it `input` and take what it
    /// writes to its output.
    External { arguments: Vec<String>, input: Vec<u8> },
}

/// The mathematical content of a [`Conversion`].
pub enum ConversionModel {
    Done(Seq<u8>),
    External(Seq<Seq<char>>, Seq<u8>),
}

impl View for Conversion {
    type V = ConversionModel;

    open spec fn view(&self) -> ConversionModel {
        match *self {
            Conversion::Done { bytes } => ConversionModel::Done(bytes@),
            Conversion::External { arguments, input } => ConversionModel::External(
                views_of(arguments@),
                input@,
            ),
        }
    }
}

/// What converting `samples` to `format` gives: raw PCM for `pcm`, a WAVE
/// file for `wav`, and for every other format the raw PCM to pipe through
/// the external encoder.
pub open spec fn conversion_of(samples: Seq<i16>, sample_rate: int, format: Seq<char>) -> Result<
    ConversionModel,
    EncodeFailure,
> {
    if format == "pcm"@ {
        Ok(ConversionModel::Done(pcm_encoding(samples)))
    } else if format == "wav"@ {
        match wav_encoding(samples, sample_rate) {
            Ok(bytes) => Ok(ConversionModel::Done(bytes)),
            Err(e) => Err(e),
        }
    } else {
        Ok(
            ConversionModel::External(
                encoder_arguments_of(sample_rate, format),
                pcm_encoding(samples),
            ),
        )
    }
}

/// Brings `samples` into `format`, as far as the library can: it writes
/// `pcm` and `wav` itself and prepares the run of the external encoder for
/// every other format.
pub fn convert_audio(samples: &Vec<i16>, sample_rate: i32, format: &str) -> (r: Result<
    Conversion,
    EncodeError,
>)
    ensures
        match r {
            Ok(c) => conversion_of(samples@, sample_rate as int, format@) == Ok::<
                ConversionModel,
                EncodeFailure,
            >(c@),
            Err(e) => conversion_of(samples@, sample_rate as int, format@) == Err::<
                ConversionModel,
                EncodeFailure,
            >(e@),
        },
{
    if same_text(format, "pcm") {
        Ok(Conversion::Done { bytes: pcm_bytes(samples) })
    } else if same_text(format, "wav") {
        match encode_wav(samples, sample_rate) {
            Ok(bytes) => Ok(Conversion::Done { bytes }),
            Err(e) => Err(e),
        }
    } else {
        Ok(
            Conversion::External {
                arguments: encoder_arguments(sample_rate, format),
                input: pcm_bytes(samples),
            },
        )
    }
}

/// What the run of the external encoder comes to: what it wrote to its
/// output where it ended with status zero, and a failure otherwise.
pub fn finish_external(succeeded: bool, output: Vec<u8>) -> (r: Result<Vec<u8>, EncodeError>)
    ensures
        succeeded ==> r == Ok::<Vec<u8>, EncodeError>(output),
        !succeeded ==> r == Err::<Vec<u8>, EncodeError>(EncodeError::EncoderFailed),
{
    if succeeded {
        Ok(output)
    } else {
        Err(EncodeError::EncoderFailed)
    }
}

} // verus!
