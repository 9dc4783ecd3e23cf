//! From the bytes of a WAV file to the samples that speech recognition takes.
//!
//! A floating-point sample is held by the 32 bits of its encoding; what is computed from such
//! samples is computed outside.

use vstd::prelude::*;
use vstd::arithmetic::div_mod;

use crate::audio::SPEECH_SAMPLE_RATE;
use crate::error;
use crate::error::AppError;
use crate::text;
use crate::wav;

verus! {

/// What a WAV file says of its samples.
#[derive(Clone, Copy, Debug, PartialEq, Eq, Structural)]
pub struct WavSpec {
    pub channels: u16,
    pub sample_rate: u32,
    pub bits_per_sample: u16,
    pub is_float: bool,
}

/// What the WAV reader makes of a file's header: the file's format, or an error text.
pub uninterp spec fn wav_spec_of(bytes: Seq<u8>) -> Result<WavSpec, Seq<char>>;

/// The 16-bit samples that the WAV reader finds in a file, or an error text.
pub uninterp spec fn i16_samples_of(bytes: Seq<u8>) -> Result<Seq<i16>, Seq<char>>;

/// The 32-bit samples that the WAV reader finds in a file, or an error text.
pub uninterp spec fn i32_samples_of(bytes: Seq<u8>) -> Result<Seq<i32>, Seq<char>>;

/// Whether a header for floating-point samples is consistent: there are channels, the fields
/// have room, and the data is made of whole samples for all channels.
pub open spec fn is_consistent(channels: u16, sample_rate: u32, data_size: u32) -> bool {
    &&& channels > 0
    &&& wav::fits_header(channels, sample_rate)
    &&& data_size % 4 == 0
    &&& (data_size / 4) % (channels as u32) == 0
}

/// Whether samples are those of a recording that a WAV file can hold: there are channels, the
/// header's fields have room, and the samples fill whole frames.
pub open spec fn is_whole_recording(channels: u16, sample_rate: u32, samples: Seq<u32>) -> bool {
    &&& channels > 0
    &&& wav::fits_header(channels, sample_rate)
    &&& samples.len() * 4 <= u32::MAX
    &&& samples.len() % (channels as nat) == 0
}

/// The format that a recording's header describes.
pub open spec fn float_spec(channels: u16, sample_rate: u32) -> WavSpec {
    WavSpec { channels, sample_rate, bits_per_sample: wav::BITS_PER_SAMPLE, is_float: true }
}

/// `hound::WavReader::new` and `hound::WavReader::spec`: reads the header of a WAV file.
/// [`wav_spec_of`] names the result, or the text of the error. The reader refuses a file
/// without channels, and it takes every consistent header that a recording starts with, as what
/// it says.
#[verifier::external_body]
fn read_wav_spec(bytes: &[u8]) -> (spec: Result<WavSpec, String>)
    ensures
        match spec {
            Ok(s) => wav_spec_of(bytes@) == Ok::<WavSpec, Seq<char>>(s) && s.channels > 0,
            Err(why) => wav_spec_of(bytes@) == Err::<WavSpec, Seq<char>>(why@),
        },
        (forall|channels: u16, sample_rate: u32, riff: u32, data: u32|
            is_consistent(channels, sample_rate, data) && (#[trigger] wav::wav_header(
                channels,
                sample_rate,
                riff,
                data,
            )).is_prefix_of(bytes@) ==> spec == Ok::<WavSpec, String>(
                float_spec(channels, sample_rate),
            )),
{
    match hound::WavReader::new(bytes) {
        Ok(reader) => {
            let spec = reader.spec();
            Ok(WavSpec {
                channels: spec.channels,
                sample_rate: spec.sample_rate,
                bits_per_sample: spec.bits_per_sample,
                is_float: matches!(spec.sample_format, hound::SampleFormat::Float),
            })
        },
        Err(err) => Err(err.to_string()),
    }
}

/// `hound::WavReader::samples` for 16-bit samples: reads all samples of a WAV file.
/// [`i16_samples_of`] names them, or the text of the first error.
#[verifier::external_body]
fn read_i16_samples(bytes: &[u8]) -> (samples: Result<Vec<i16>, String>)
    ensures
        match samples {
            Ok(list) => i16_samples_of(bytes@) == Ok::<Seq<i16>, Seq<char>>(list@),
            Err(why) => i16_samples_of(bytes@) == Err::<Seq<i16>, Seq<char>>(why@),
        },
{
    hound::WavReader::new(bytes)
        .and_then(|mut reader| reader.samples::<i16>().collect::<Result<Vec<i16>, hound::Error>>())
        .map_err(|err| err.to_string())
}

/// `hound::WavReader::samples` for 32-bit samples: reads all samples of a WAV file.
/// [`i32_samples_of`] names them, or the text of the first error.
#[verifier::external_body]
fn read_i32_samples(bytes: &[u8]) -> (samples: Result<Vec<i32>, String>)
    ensures
        match samples {
            Ok(list) => i32_samples_of(bytes@) == Ok::<Seq<i32>, Seq<char>>(list@),
            Err(why) => i32_samples_of(bytes@) == Err::<Seq<i32>, Seq<char>>(why@),
        },
{
    hound::WavReader::new(bytes)
        .and_then(|mut reader| reader.samples::<i32>().collect::<Result<Vec<i32>, hound::Error>>())
        .map_err(|err| err.to_string())
}

/// How the samples of a file are to be read.
#[derive(Clone, Copy, Debug, PartialEq, Eq, Structural)]
pub enum SampleKind {
    Int16,
    Int32,
    Float,
}

/// The samples of a file, channel by channel within each frame.
#[derive(Debug)]
pub enum Decoded {
    Int16(Vec<i16>),
    Int32(Vec<i32>),
    Float(Vec<u32>),
}

/// What is left to do with a file that was read: average each frame of `channels` samples and,
/// where `resample_from` is given, bring the result from that rate to the one for speech.
#[derive(Debug)]
pub struct Extraction {
    pub samples: Decoded,
    pub channels: u16,
    pub resample_from: Option<u32>,
}

/// How the samples of a file in this format are read, if they can be.
pub open spec fn kind_of(spec: WavSpec) -> Option<SampleKind> {
    if spec.is_float {
        Some(SampleKind::Float)
    } else if spec.bits_per_sample == 16 {
        Some(SampleKind::Int16)
    } else if spec.bits_per_sample == 32 {
        Some(SampleKind::Int32)
    } else {
        None
    }
}

/// How the samples of a file in this format are read.
pub fn sample_kind(spec: &WavSpec) -> (kind: Result<SampleKind, AppError>)
    ensures
        match kind {
            Ok(k) => kind_of(*spec) == Some(k),
            Err(e) => kind_of(*spec) is None && error::says(
                e,
                "Unsupported WAV bit depth: "@ + text::decimal(spec.bits_per_sample as nat),
            ),
        },
{
    if spec.is_float {
        Ok(SampleKind::Float)
    } else if spec.bits_per_sample == 16 {
        Ok(SampleKind::Int16)
    } else if spec.bits_per_sample == 32 {
        Ok(SampleKind::Int32)
    } else {
        let depth = text::write_decimal(spec.bits_per_sample as u128);
        Err(AppError::because("Unsupported WAV bit depth: ", depth.as_str()))
    }
}

/// The lowest rate that is resampled: a rate may be raised eightfold at most.
pub const LOWEST_SAMPLE_RATE: u32 = 2000;

/// The rate to resample from, or none where the file has the rate for speech already.
pub fn resampling(sample_rate: u32) -> (from: Result<Option<u32>, AppError>)
    ensures
        match from {
            Ok(None) => sample_rate == SPEECH_SAMPLE_RATE,
            Ok(Some(rate)) => rate == sample_rate && sample_rate != SPEECH_SAMPLE_RATE
                && SPEECH_SAMPLE_RATE <= 8 * sample_rate,
            Err(e) => SPEECH_SAMPLE_RATE > 8 * sample_rate && error::says(
                e,
                "Input sample rate "@ + text::decimal(sample_rate as nat)
                    + " Hz is too low for resampling."@,
            ),
        },
{
    if sample_rate == SPEECH_SAMPLE_RATE {
        return Ok(None);
    }
    if sample_rate < LOWEST_SAMPLE_RATE {
        let mut message = "Input sample rate ".to_string();
        message.append(text::write_decimal(sample_rate as u128).as_str());
        message.append(" Hz is too low for resampling.");
        return Err(AppError::Message(message));
    }
    Ok(Some(sample_rate))
}

/// Whether `got` is what reading samples ended with: the samples, or the WAV reader's error.
pub open spec fn is_decoding_of(
    got: Result<Decoded, AppError>,
    kind: SampleKind,
    int16: Result<Seq<i16>, Seq<char>>,
    int32: Result<Seq<i32>, Seq<char>>,
    float: Result<Seq<u32>, Seq<char>>,
) -> bool {
    match (kind, got) {
        (SampleKind::Int16, Ok(Decoded::Int16(list))) => int16 == Ok::<Seq<i16>, Seq<char>>(list@),
        (SampleKind::Int32, Ok(Decoded::Int32(list))) => int32 == Ok::<Seq<i32>, Seq<char>>(list@),
        (SampleKind::Float, Ok(Decoded::Float(list))) => float == Ok::<Seq<u32>, Seq<char>>(list@),
        (SampleKind::Int16, Err(e)) => int16 matches Err(why) && error::is_wav(e, why),
        (SampleKind::Int32, Err(e)) => int32 matches Err(why) && error::is_wav(e, why),
        (SampleKind::Float, Err(e)) => float matches Err(why) && error::is_wav(e, why),
        _ => false,
    }
}

/// The view of samples that were handed over.
pub open spec fn float_view(float: Result<Vec<u32>, String>) -> Result<Seq<u32>, Seq<char>> {
    match float {
        Ok(list) => Ok(list@),
        Err(why) => Err(why@),
    }
}

fn decode(kind: SampleKind, audio_data: &[u8], float_samples: Result<Vec<u32>, String>) -> (got:
    Result<Decoded, AppError>)
    ensures
        is_decoding_of(
            got,
            kind,
            i16_samples_of(audio_data@),
            i32_samples_of(audio_data@),
            float_view(float_samples),
        ),
{
    match kind {
        SampleKind::Int16 => match read_i16_samples(audio_data) {
            Ok(list) => Ok(Decoded::Int16(list)),
            Err(why) => Err(AppError::Wav(why)),
        },
        SampleKind::Int32 => match read_i32_samples(audio_data) {
            Ok(list) => Ok(Decoded::Int32(list)),
            Err(why) => Err(AppError::Wav(why)),
        },
        SampleKind::Float => match float_samples {
            Ok(list) => Ok(Decoded::Float(list)),
            Err(why) => Err(AppError::Wav(why)),
        },
    }
}

/// The format of a WAV file. A finished recording is read back as what was recorded.
pub fn wav_spec(audio_data: &[u8]) -> (spec: Result<WavSpec, AppError>)
    ensures
        match spec {
            Ok(s) => wav_spec_of(audio_data@) == Ok::<WavSpec, Seq<char>>(s) && s.channels > 0,
            Err(e) => wav_spec_of(audio_data@) matches Err(why) && error::is_wav(e, why),
        },
        forall|channels: u16, sample_rate: u32, samples: Seq<u32>|
            audio_data@ == #[trigger] wav::recording(channels, sample_rate, samples)
                && is_whole_recording(channels, sample_rate, samples) ==> spec == Ok::<WavSpec, AppError>(
                float_spec(channels, sample_rate),
            ),
{
    let read = read_wav_spec(audio_data);
    proof {
        assert forall|channels: u16, sample_rate: u32, samples: Seq<u32>|
            audio_data@ == #[trigger] wav::recording(channels, sample_rate, samples)
                && is_whole_recording(channels, sample_rate, samples) implies read == Ok::<WavSpec, String>(
            float_spec(channels, sample_rate),
        ) by {
            let riff = wav::riff_size(samples.len());
            let data = wav::data_size(samples.len());
            assert(data == samples.len() * 4);
            assert(data / 4 == samples.len());
            assert(is_consistent(channels, sample_rate, data));
            assert(wav::wav_header(channels, sample_rate, riff, data).is_prefix_of(audio_data@));
        }
    }
    match read {
        Ok(spec) => Ok(spec),
        Err(why) => Err(AppError::Wav(why)),
    }
}

/// Reads the samples of a WAV file and says what is left to do with them. Floating-point
/// samples are handed over as the WAV reader gave them; they are used where the file holds such
/// samples. Of a finished recording at the rate for speech they are all that is left to have:
/// nothing else is done with them. That the WAV reader gives back the samples that were recorded
/// is not stated, since it gives them as floating-point numbers.
pub fn extract_whisper_samples_from_wav(
    audio_data: &[u8],
    float_samples: Result<Vec<u32>, String>,
) -> (extraction: Result<Extraction, AppError>)
    ensures
        match wav_spec_of(audio_data@) {
            Err(why) => extraction matches Err(e) && error::is_wav(e, why),
            Ok(spec) => match kind_of(spec) {
                None => extraction matches Err(e) && error::says(
                    e,
                    "Unsupported WAV bit depth: "@ + text::decimal(spec.bits_per_sample as nat),
                ),
                Some(kind) => match extraction {
                    Ok(x) => {
                        &&& is_decoding_of(
                            Ok(x.samples),
                            kind,
                            i16_samples_of(audio_data@),
                            i32_samples_of(audio_data@),
                            float_view(float_samples),
                        )
                        &&& x.channels == spec.channels
                        &&& x.resample_from == if spec.sample_rate == SPEECH_SAMPLE_RATE {
                            None
                        } else {
                            Some(spec.sample_rate)
                        }
                        &&& SPEECH_SAMPLE_RATE <= 8 * spec.sample_rate
                    },
                    Err(e) => {
                        ||| is_decoding_of(
                            Err(e),
                            kind,
                            i16_samples_of(audio_data@),
                            i32_samples_of(audio_data@),
                            float_view(float_samples),
                        )
                        ||| {
                            &&& exists|got: Decoded| #[trigger]
                                is_decoding_of(
                                    Ok(got),
                                    kind,
                                    i16_samples_of(audio_data@),
                                    i32_samples_of(audio_data@),
                                    float_view(float_samples),
                                )
                            &&& SPEECH_SAMPLE_RATE > 8 * spec.sample_rate
                            &&& error::says(
                                e,
                                "Input sample rate "@ + text::decimal(spec.sample_rate as nat)
                                    + " Hz is too low for resampling."@,
                            )
                        }
                    },
                },
            },
        },
        forall|channels: u16, sample_rate: u32, samples: Seq<u32>|
            audio_data@ == #[trigger] wav::recording(channels, sample_rate, samples)
                && is_whole_recording(channels, sample_rate, samples) && sample_rate
                == SPEECH_SAMPLE_RATE && float_view(float_samples) == Ok::<Seq<u32>, Seq<char>>(
                samples,
            ) ==> (extraction matches Ok(x) && x.channels == channels && x.resample_from is None
                && (x.samples matches Decoded::Float(list) && list@ == samples)),
{
    let spec = match wav_spec(audio_data) {
        Ok(spec) => spec,
        Err(e) => {
            return Err(e);
        },
    };
    let kind = match sample_kind(&spec) {
        Ok(kind) => kind,
        Err(e) => {
            return Err(e);
        },
    };
    let samples = match decode(kind, audio_data, float_samples) {
        Ok(samples) => samples,
        Err(e) => {
            return Err(e);
        },
    };
    match resampling(spec.sample_rate) {
        Ok(resample_from) => Ok(
            Extraction { samples, channels: spec.channels, resample_from },
        ),
        Err(e) => Err(e),
    }
}

/// Samples that a resampler takes at a time.
pub const RESAMPLE_CHUNK: usize = 1024;

/// How many chunks `len` samples fill, the last of them perhaps in part.
pub open spec fn chunks_in(len: nat) -> nat {
    (len + RESAMPLE_CHUNK - 1) as nat / RESAMPLE_CHUNK as nat
}

/// The sample at position `k`, with silence behind the last one.
pub open spec fn sample_or_silence(samples: Seq<u32>, k: int) -> u32 {
    if 0 <= k < samples.len() {
        samples[k]
    } else {
        0
    }
}

/// How many chunks `len` samples fill.
pub fn chunk_count(len: usize) -> (count: usize)
    ensures
        count == chunks_in(len as nat),
{
    let whole: usize = len / RESAMPLE_CHUNK;
    if len % RESAMPLE_CHUNK == 0 {
        whole
    } else {
        whole + 1
    }
}

/// The chunk at position `index`; the last chunk is filled up with silence.
pub fn resample_chunk(samples: &[u32], index: usize) -> (chunk: Vec<u32>)
    requires
        index < chunks_in(samples@.len()),
    ensures
        chunk@ == Seq::new(
            RESAMPLE_CHUNK as nat,
            |i: int| sample_or_silence(samples@, index * RESAMPLE_CHUNK + i),
        ),
{
    let ghost len = samples@.len();
    assert(index * RESAMPLE_CHUNK < samples.len());
    let start: usize = index * RESAMPLE_CHUNK;
    let mut chunk: Vec<u32> = Vec::new();
    let mut i: usize = 0;
    while i < RESAMPLE_CHUNK
        invariant
            i <= RESAMPLE_CHUNK,
            start == index * RESAMPLE_CHUNK,
            start < samples.len(),
            chunk@ == Seq::new(
                i as nat,
                |k: int| sample_or_silence(samples@, index * RESAMPLE_CHUNK + k),
            ),
        decreases RESAMPLE_CHUNK - i,
    {
        if i < samples.len() - start {
            chunk.push(samples[start + i]);
        } else {
            chunk.push(0);
        }
        i += 1;
    }
    chunk
}

/// The chunks hold every sample once and in order: sample `k` stands in chunk `k / 1024` at
/// position `k % 1024`, and no chunk is empty.
pub proof fn lemma_chunks_hold_all_samples(samples: Seq<u32>, k: int)
    ensures
        0 <= k < samples.len() ==> 0 <= k / (RESAMPLE_CHUNK as int) < chunks_in(samples.len())
            && sample_or_silence(
            samples,
            (k / (RESAMPLE_CHUNK as int)) * RESAMPLE_CHUNK + k % (RESAMPLE_CHUNK as int),
        ) == samples[k],
        0 <= k < chunks_in(samples.len()) ==> k * RESAMPLE_CHUNK < samples.len(),
{
}

/// Integers are read with as many bits as the file says they have, and only a file of integers
/// with another size cannot be read.
pub proof fn lemma_samples_are_read_as_they_are(spec: WavSpec)
    ensures
        spec.is_float <==> kind_of(spec) == Some(SampleKind::Float),
        kind_of(spec) == Some(SampleKind::Int16) ==> spec.bits_per_sample as int == i16::BITS,
        kind_of(spec) == Some(SampleKind::Int32) ==> spec.bits_per_sample as int == i32::BITS,
        kind_of(spec) is None <==> !spec.is_float && spec.bits_per_sample as int != i16::BITS
            && spec.bits_per_sample as int != i32::BITS,
{
}

/// What fills the last chunk up is silence, and there is less than a chunk of it.
pub proof fn lemma_last_chunk_ends_in_silence(samples: Seq<u32>, k: int)
    requires
        samples.len() <= k < chunks_in(samples.len()) * RESAMPLE_CHUNK,
    ensures
        sample_or_silence(samples, k) == 0,
        k < samples.len() + RESAMPLE_CHUNK,
{
}

/// Any number of whole frames, with one channel or more, is a recording that a WAV file can hold,
/// as long as the header's fields have room; and it is described as what it is.
pub proof fn lemma_whole_frames_can_be_held(
    channels: u16,
    sample_rate: u32,
    samples: Seq<u32>,
    frames: nat,
)
    requires
        channels >= 1,
        channels * 4 <= u16::MAX,
        sample_rate * channels * 4 <= u32::MAX,
        samples.len() == frames * channels,
        samples.len() * 4 <= u32::MAX,
    ensures
        is_whole_recording(channels, sample_rate, samples),
        float_spec(channels, sample_rate).channels == channels,
        float_spec(channels, sample_rate).sample_rate == sample_rate,
        kind_of(float_spec(channels, sample_rate)) == Some(SampleKind::Float),
{
    div_mod::lemma_mod_multiples_basic(frames as int, channels as int);
}

} // verus!
