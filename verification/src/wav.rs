//! The WAV file that a recording is streamed into. Its header is written before the number of
//! samples is known; the two sizes in it are filled in while the recording goes on.
//!
//! A sample is held by the 32 bits of its floating-point encoding.

use vstd::prelude::*;

verus! {

/// Bits in a recorded sample.
pub const BITS_PER_SAMPLE: u16 = 32;

/// Bytes in a recorded sample.
pub const BYTES_PER_SAMPLE: u16 = 4;

/// Where the size of the whole file stands in a WAV file.
pub const RIFF_SIZE_POS: u64 = 4;

/// Where the size of the sample data stands in a recording.
pub const DATA_SIZE_POS: u64 = 40;

/// Bytes in a recording's header.
pub const HEADER_LEN: u64 = 44;

/// The little-endian bytes of a 16-bit number.
pub open spec fn u16_le(x: u16) -> Seq<u8> {
    seq![(x % 256) as u8, (x / 256) as u8]
}

/// The little-endian bytes of a 32-bit number.
pub open spec fn u32_le(x: u32) -> Seq<u8> {
    seq![
        (x % 256) as u8,
        ((x / 256) % 256) as u8,
        ((x / 65536) % 256) as u8,
        (x / 16777216) as u8,
    ]
}

/// The letters `RIFF`.
pub open spec fn riff_tag() -> Seq<u8> {
    seq![82u8, 73u8, 70u8, 70u8]
}

/// The letters `WAVE`.
pub open spec fn wave_tag() -> Seq<u8> {
    seq![87u8, 65u8, 86u8, 69u8]
}

/// The letters `fmt` and a space.
pub open spec fn fmt_tag() -> Seq<u8> {
    seq![102u8, 109u8, 116u8, 32u8]
}

/// The letters `data`.
pub open spec fn data_tag() -> Seq<u8> {
    seq![100u8, 97u8, 116u8, 97u8]
}

/// The description of floating-point samples, with the tags around it.
pub open spec fn format_block(channels: u16, sample_rate: u32) -> Seq<u8> {
    wave_tag() + fmt_tag() + u32_le(16) + u16_le(3) + u16_le(channels) + u32_le(sample_rate)
        + u32_le((sample_rate * channels * BYTES_PER_SAMPLE) as u32) + u16_le(
        (channels * BYTES_PER_SAMPLE) as u16,
    ) + u16_le(BITS_PER_SAMPLE) + data_tag()
}

/// A recording's header with the given sizes in it.
pub open spec fn wav_header(
    channels: u16,
    sample_rate: u32,
    riff_size: u32,
    data_size: u32,
) -> Seq<u8> {
    riff_tag() + u32_le(riff_size) + format_block(channels, sample_rate) + u32_le(data_size)
}

/// The bytes of the given samples.
pub open spec fn sample_bytes(samples: Seq<u32>) -> Seq<u8>
    decreases samples.len(),
{
    if samples.len() == 0 {
        Seq::empty()
    } else {
        sample_bytes(samples.drop_last()) + u32_le(samples.last())
    }
}

/// Whether the fields of a header for these recordings have room for their values.
pub open spec fn fits_header(channels: u16, sample_rate: u32) -> bool {
    &&& channels * BYTES_PER_SAMPLE <= u16::MAX
    &&& sample_rate * channels * BYTES_PER_SAMPLE <= u32::MAX
}

/// `file` with `bytes` in place of what stood from position `pos` on.
pub open spec fn patched(file: Seq<u8>, pos: int, bytes: Seq<u8>) -> Seq<u8> {
    file.take(pos) + bytes + file.skip(pos + bytes.len())
}

/// The size of a recording's file without its first eight bytes, as its header holds it.
pub open spec fn riff_size(samples: nat) -> u32 {
    ((36 + samples * 4) % 0x1_0000_0000) as u32
}

/// The size of a recording's samples, as its header holds it.
pub open spec fn data_size(samples: nat) -> u32 {
    ((samples * 4) % 0x1_0000_0000) as u32
}

/// The finished file of a recording.
pub open spec fn recording(channels: u16, sample_rate: u32, samples: Seq<u32>) -> Seq<u8> {
    wav_header(channels, sample_rate, riff_size(samples.len()), data_size(samples.len()))
        + sample_bytes(samples)
}

/// What to write over a header: four bytes at each of two positions.
pub struct HeaderUpdate {
    pub riff_size_pos: u64,
    pub riff_size: Vec<u8>,
    pub data_size_pos: u64,
    pub data_size: Vec<u8>,
}

/// `file` once an update of its header is written.
pub open spec fn updated(file: Seq<u8>, update: HeaderUpdate) -> Seq<u8> {
    patched(
        patched(file, update.riff_size_pos as int, update.riff_size@),
        update.data_size_pos as int,
        update.data_size@,
    )
}

proof fn lemma_header_len(channels: u16, sample_rate: u32, riff: u32, data: u32)
    ensures
        format_block(channels, sample_rate).len() == 32,
        wav_header(channels, sample_rate, riff, data).len() == HEADER_LEN,
{
}

/// Writing new sizes over the header of a file changes the sizes and nothing else.
pub proof fn lemma_update_sets_sizes(
    channels: u16,
    sample_rate: u32,
    riff: u32,
    data: u32,
    new_riff: u32,
    new_data: u32,
    tail: Seq<u8>,
)
    ensures
        patched(
            patched(
                wav_header(channels, sample_rate, riff, data) + tail,
                RIFF_SIZE_POS as int,
                u32_le(new_riff),
            ),
            DATA_SIZE_POS as int,
            u32_le(new_data),
        ) == wav_header(channels, sample_rate, new_riff, new_data) + tail,
{
    lemma_header_len(channels, sample_rate, riff, data);
    let block = format_block(channels, sample_rate);
    let file = wav_header(channels, sample_rate, riff, data) + tail;
    let once = patched(file, RIFF_SIZE_POS as int, u32_le(new_riff));
    assert(file.take(4) =~= riff_tag());
    assert(file.skip(8) =~= block + u32_le(data) + tail);
    assert(once =~= riff_tag() + u32_le(new_riff) + block + u32_le(data) + tail);
    assert(once.take(40) =~= riff_tag() + u32_le(new_riff) + block);
    assert(once.skip(44) =~= tail);
}

/// The bytes of samples that are written in two parts are those of all of them.
pub proof fn lemma_sample_bytes_add_up(a: Seq<u32>, b: Seq<u32>)
    ensures
        sample_bytes(a + b) == sample_bytes(a) + sample_bytes(b),
    decreases b.len(),
{
    if b.len() == 0 {
        assert(a + b =~= a);
        assert(sample_bytes(a) + sample_bytes(b) =~= sample_bytes(a));
    } else {
        lemma_sample_bytes_add_up(a, b.drop_last());
        assert((a + b).drop_last() =~= a + b.drop_last());
        assert((a + b).last() == b.last());
        assert(sample_bytes(a + b) =~= sample_bytes(a) + sample_bytes(b));
    }
}

/// Every sample takes four bytes.
pub proof fn lemma_sample_bytes_len(samples: Seq<u32>)
    ensures
        sample_bytes(samples).len() == samples.len() * 4,
    decreases samples.len(),
{
    if samples.len() > 0 {
        lemma_sample_bytes_len(samples.drop_last());
    }
}

fn push_all(bytes: &mut Vec<u8>, more: &[u8])
    ensures
        final(bytes)@ == old(bytes)@ + more@,
{
    let ghost before = bytes@;
    let mut i: usize = 0;
    while i < more.len()
        invariant
            i <= more@.len(),
            bytes@ == before + more@.take(i as int),
        decreases more.len() - i,
    {
        bytes.push(more[i]);
        i += 1;
    }
    assert(more@.take(i as int) == more@);
}

fn push_u16(bytes: &mut Vec<u8>, x: u16)
    ensures
        final(bytes)@ == old(bytes)@ + u16_le(x),
{
    bytes.push((x % 256) as u8);
    bytes.push((x / 256) as u8);
    assert(bytes@ =~= old(bytes)@ + u16_le(x));
}

fn push_u32(bytes: &mut Vec<u8>, x: u32)
    ensures
        final(bytes)@ == old(bytes)@ + u32_le(x),
{
    bytes.push((x % 256) as u8);
    bytes.push(((x / 256) % 256) as u8);
    bytes.push(((x / 65536) % 256) as u8);
    bytes.push((x / 16777216) as u8);
    assert(bytes@ =~= old(bytes)@ + u32_le(x));
}

/// What is known of a recording while its file grows.
#[derive(Debug)]
pub struct ProgressiveWavWriter {
    sample_rate: u32,
    channels: u16,
    samples_written: u64,
}

impl ProgressiveWavWriter {
    /// Samples per second and channel.
    pub closed spec fn sample_rate(self) -> u32 {
        self.sample_rate
    }

    /// Channels of each sample.
    pub closed spec fn channels(self) -> u16 {
        self.channels
    }

    /// Samples, over all channels, that were handed over so far.
    pub closed spec fn written(self) -> nat {
        self.samples_written as nat
    }

    /// Whether the header can hold the format and the byte count can still be computed.
    pub open spec fn wf(self) -> bool {
        &&& fits_header(self.channels(), self.sample_rate())
        &&& 36 + self.written() * 4 <= u64::MAX
    }

    /// Starts a recording: the second value is what its file starts with.
    pub fn new(sample_rate: u32, channels: u16) -> (started: (Self, Vec<u8>))
        requires
            fits_header(channels, sample_rate),
        ensures
            started.0.wf(),
            started.0.sample_rate() == sample_rate,
            started.0.channels() == channels,
            started.0.written() == 0,
            started.1@ == wav_header(channels, sample_rate, 0, 0),
    {
        let mut bytes: Vec<u8> = Vec::new();
        push_all(&mut bytes, &[82u8, 73u8, 70u8, 70u8]);
        push_u32(&mut bytes, 0);
        push_all(&mut bytes, &[87u8, 65u8, 86u8, 69u8]);
        push_all(&mut bytes, &[102u8, 109u8, 116u8, 32u8]);
        push_u32(&mut bytes, 16);
        push_u16(&mut bytes, 3);
        push_u16(&mut bytes, channels);
        push_u32(&mut bytes, sample_rate);
        assert(0 <= sample_rate * channels <= sample_rate * channels * BYTES_PER_SAMPLE)
            by (nonlinear_arith);
        push_u32(&mut bytes, sample_rate * channels as u32 * BYTES_PER_SAMPLE as u32);
        push_u16(&mut bytes, channels * BYTES_PER_SAMPLE);
        push_u16(&mut bytes, BITS_PER_SAMPLE);
        push_all(&mut bytes, &[100u8, 97u8, 116u8, 97u8]);
        push_u32(&mut bytes, 0);
        assert(bytes@ =~= wav_header(channels, sample_rate, 0, 0));
        (ProgressiveWavWriter { sample_rate, channels, samples_written: 0 }, bytes)
    }

    /// Takes samples over: the result is what to append to the file.
    pub fn write_samples_f32(&mut self, samples: &[u32]) -> (bytes: Vec<u8>)
        requires
            old(self).wf(),
            36 + (old(self).written() + samples@.len()) * 4 <= u64::MAX,
        ensures
            final(self).wf(),
            final(self).sample_rate() == old(self).sample_rate(),
            final(self).channels() == old(self).channels(),
            final(self).written() == old(self).written() + samples@.len(),
            bytes@ == sample_bytes(samples@),
    {
        let mut bytes: Vec<u8> = Vec::new();
        let mut i: usize = 0;
        while i < samples.len()
            invariant
                i <= samples@.len(),
                bytes@ == sample_bytes(samples@.take(i as int)),
            decreases samples.len() - i,
        {
            push_u32(&mut bytes, samples[i]);
            assert(samples@.take(i + 1).drop_last() == samples@.take(i as int));
            i += 1;
        }
        assert(samples@.take(i as int) == samples@);
        self.samples_written = self.samples_written + samples.len() as u64;
        bytes
    }

    /// Samples, over all channels, that were handed over so far.
    pub fn samples_written(&self) -> (samples: u64)
        ensures
            samples == self.written(),
    {
        self.samples_written
    }

    /// Whether the sizes in the header are to be written again, when that was last done
    /// `elapsed_seconds` ago.
    pub fn is_update_due(&self, elapsed_seconds: u64) -> (due: bool)
        ensures
            due == (elapsed_seconds >= 1),
    {
        elapsed_seconds >= 1
    }

    /// The sizes in the header for the samples so far.
    pub fn update_headers(&self) -> (update: HeaderUpdate)
        requires
            self.wf(),
        ensures
            update.riff_size_pos == RIFF_SIZE_POS,
            update.riff_size@ == u32_le(riff_size(self.written())),
            update.data_size_pos == DATA_SIZE_POS,
            update.data_size@ == u32_le(data_size(self.written())),
    {
        let data: u64 = self.samples_written * BYTES_PER_SAMPLE as u64;
        let file: u64 = 36 + data;
        let mut riff_bytes: Vec<u8> = Vec::new();
        push_u32(&mut riff_bytes, (file % 0x1_0000_0000) as u32);
        let mut data_bytes: Vec<u8> = Vec::new();
        push_u32(&mut data_bytes, (data % 0x1_0000_0000) as u32);
        HeaderUpdate {
            riff_size_pos: RIFF_SIZE_POS,
            riff_size: riff_bytes,
            data_size_pos: DATA_SIZE_POS,
            data_size: data_bytes,
        }
    }
}

/// A file that was started with a recording's header, whatever sizes it held, and that got its
/// samples appended is the finished recording once the header is updated.
pub proof fn lemma_update_finishes_recording(
    channels: u16,
    sample_rate: u32,
    riff: u32,
    data: u32,
    samples: Seq<u32>,
    update: HeaderUpdate,
)
    requires
        update.riff_size_pos == RIFF_SIZE_POS,
        update.riff_size@ == u32_le(riff_size(samples.len())),
        update.data_size_pos == DATA_SIZE_POS,
        update.data_size@ == u32_le(data_size(samples.len())),
    ensures
        updated(wav_header(channels, sample_rate, riff, data) + sample_bytes(samples), update)
            == recording(channels, sample_rate, samples),
{
    lemma_update_sets_sizes(
        channels,
        sample_rate,
        riff,
        data,
        riff_size(samples.len()),
        data_size(samples.len()),
        sample_bytes(samples),
    );
}

/// The sizes in a finished recording are true as long as the file has less than four gibibytes.
pub proof fn lemma_recording_holds_its_size(channels: u16, sample_rate: u32, samples: Seq<u32>)
    requires
        36 + samples.len() * 4 <= u32::MAX,
    ensures
        riff_size(samples.len()) == recording(channels, sample_rate, samples).len() - 8,
        data_size(samples.len()) == sample_bytes(samples).len(),
{
    lemma_header_len(channels, sample_rate, riff_size(samples.len()), data_size(samples.len()));
    lemma_sample_bytes_len(samples);
}

/// The 32-bit number whose little-endian bytes stand at a position.
pub open spec fn u32_at(bytes: Seq<u8>, pos: int) -> int {
    bytes[pos] + 256 * bytes[pos + 1] + 65536 * bytes[pos + 2] + 16777216 * bytes[pos + 3]
}

/// The samples of all parts that a recording is written in.
pub open spec fn all_samples(parts: Seq<Seq<u32>>) -> Seq<u32>
    decreases parts.len(),
{
    if parts.len() == 0 {
        Seq::empty()
    } else {
        all_samples(parts.drop_last()) + parts.last()
    }
}

/// The bytes of all parts that a recording is written in, one part after another.
pub open spec fn all_bytes(parts: Seq<Seq<u32>>) -> Seq<u8>
    decreases parts.len(),
{
    if parts.len() == 0 {
        Seq::empty()
    } else {
        all_bytes(parts.drop_last()) + sample_bytes(parts.last())
    }
}

proof fn lemma_parts_add_up(parts: Seq<Seq<u32>>)
    ensures
        all_bytes(parts) == sample_bytes(all_samples(parts)),
    decreases parts.len(),
{
    if parts.len() > 0 {
        lemma_parts_add_up(parts.drop_last());
        lemma_sample_bytes_add_up(all_samples(parts.drop_last()), parts.last());
    }
}

proof fn lemma_number_is_read_back(before: Seq<u8>, x: u32, after: Seq<u8>)
    ensures
        u32_at(before + u32_le(x) + after, before.len() as int) == x,
{
    let n = before.len() as int;
    let bytes = before + u32_le(x) + after;
    assert(bytes[n] == u32_le(x)[0]);
    assert(bytes[n + 1] == u32_le(x)[1]);
    assert(bytes[n + 2] == u32_le(x)[2]);
    assert(bytes[n + 3] == u32_le(x)[3]);
}

proof fn lemma_sample_is_read_back(samples: Seq<u32>, k: int)
    requires
        0 <= k < samples.len(),
    ensures
        u32_at(sample_bytes(samples), 4 * k) == samples[k],
    decreases samples.len(),
{
    let before = samples.drop_last();
    lemma_sample_bytes_len(before);
    if k < before.len() {
        lemma_sample_is_read_back(before, k);
    } else {
        lemma_number_is_read_back(sample_bytes(before), samples.last(), Seq::empty());
        assert(sample_bytes(before) + u32_le(samples.last()) + Seq::<u8>::empty() =~= sample_bytes(
            samples,
        ));
    }
}

proof fn lemma_recorded_sizes(
    file: Seq<u8>,
    channels: u16,
    sample_rate: u32,
    samples: Seq<u32>,
)
    requires
        file == recording(channels, sample_rate, samples),
        36 + samples.len() * 4 <= u32::MAX,
    ensures
        file.len() == 44 + 4 * samples.len(),
        u32_at(file, 4) == 36 + 4 * samples.len(),
        u32_at(file, 40) == 4 * samples.len(),
{
    let riff = riff_size(samples.len());
    let data = data_size(samples.len());
    let block = format_block(channels, sample_rate);
    let head = riff_tag() + u32_le(riff) + block;
    let tail = block + u32_le(data) + sample_bytes(samples);
    lemma_header_len(channels, sample_rate, riff, data);
    lemma_sample_bytes_len(samples);
    assert(u32_at(file, 4) == riff) by {
        lemma_number_is_read_back(riff_tag(), riff, tail);
        assert(file =~= riff_tag() + u32_le(riff) + tail);
    }
    assert(u32_at(file, 40) == data) by {
        lemma_number_is_read_back(head, data, sample_bytes(samples));
        assert(file =~= head + u32_le(data) + sample_bytes(samples));
    }
}

proof fn lemma_recorded_sample(
    file: Seq<u8>,
    channels: u16,
    sample_rate: u32,
    samples: Seq<u32>,
    k: int,
)
    requires
        file == recording(channels, sample_rate, samples),
        0 <= k < samples.len(),
    ensures
        u32_at(file, 44 + 4 * k) == samples[k],
{
    let header = wav_header(
        channels,
        sample_rate,
        riff_size(samples.len()),
        data_size(samples.len()),
    );
    let bytes = sample_bytes(samples);
    lemma_header_len(
        channels,
        sample_rate,
        riff_size(samples.len()),
        data_size(samples.len()),
    );
    lemma_sample_bytes_len(samples);
    lemma_sample_is_read_back(samples, k);
    lemma_read_behind(header, bytes, 4 * k);
}

proof fn lemma_read_behind(header: Seq<u8>, bytes: Seq<u8>, pos: int)
    requires
        0 <= pos,
        pos + 4 <= bytes.len(),
    ensures
        u32_at(header + bytes, header.len() + pos) == u32_at(bytes, pos),
{
}

/// Whether a file is the complete recording of samples: its length and the two sizes in its
/// header are true, the samples stand behind the header in their order, and the update of its
/// header changes nothing.
pub open spec fn is_complete(
    file: Seq<u8>,
    channels: u16,
    sample_rate: u32,
    samples: Seq<u32>,
    update: HeaderUpdate,
) -> bool {
    &&& file == recording(channels, sample_rate, samples)
    &&& file.len() == 44 + 4 * samples.len()
    &&& u32_at(file, 4) == 36 + 4 * samples.len()
    &&& u32_at(file, 40) == 4 * samples.len()
    &&& forall|k: int|
        0 <= k < samples.len() ==> u32_at(file, 44 + 4 * k) == #[trigger] samples[k]
    &&& updated(file, update) == file
}

/// A recording that is written in any number of parts and finished is complete: its length and
/// the two sizes in its header are true, the samples stand behind the header in the order in
/// which they were given, and finishing it once more changes nothing. It does not matter which
/// sizes the header held before.
pub proof fn lemma_finished_recording_is_complete(
    channels: u16,
    sample_rate: u32,
    riff: u32,
    data: u32,
    parts: Seq<Seq<u32>>,
    update: HeaderUpdate,
)
    requires
        36 + all_samples(parts).len() * 4 <= u32::MAX,
        update.riff_size_pos == RIFF_SIZE_POS,
        update.riff_size@ == u32_le(riff_size(all_samples(parts).len())),
        update.data_size_pos == DATA_SIZE_POS,
        update.data_size@ == u32_le(data_size(all_samples(parts).len())),
    ensures
        is_complete(
            updated(wav_header(channels, sample_rate, riff, data) + all_bytes(parts), update),
            channels,
            sample_rate,
            all_samples(parts),
            update,
        ),
{
    let samples = all_samples(parts);
    let file = updated(wav_header(channels, sample_rate, riff, data) + all_bytes(parts), update);
    lemma_parts_add_up(parts);
    lemma_update_finishes_recording(channels, sample_rate, riff, data, samples, update);
    lemma_recording_is_complete(file, channels, sample_rate, samples, update);
}

proof fn lemma_recording_is_complete(
    file: Seq<u8>,
    channels: u16,
    sample_rate: u32,
    samples: Seq<u32>,
    update: HeaderUpdate,
)
    requires
        file == recording(channels, sample_rate, samples),
        36 + samples.len() * 4 <= u32::MAX,
        update.riff_size_pos == RIFF_SIZE_POS,
        update.riff_size@ == u32_le(riff_size(samples.len())),
        update.data_size_pos == DATA_SIZE_POS,
        update.data_size@ == u32_le(data_size(samples.len())),
    ensures
        is_complete(file, channels, sample_rate, samples, update),
{
    lemma_update_finishes_recording(
        channels,
        sample_rate,
        riff_size(samples.len()),
        data_size(samples.len()),
        samples,
        update,
    );
    lemma_recorded_sizes(file, channels, sample_rate, samples);
    assert forall|k: int| 0 <= k < samples.len() implies u32_at(file, 44 + 4 * k)
        == #[trigger] samples[k] by {
        lemma_recorded_sample(file, channels, sample_rate, samples, k);
    }
}

/// The 16-bit number whose little-endian bytes stand at a position.
pub open spec fn u16_at(bytes: Seq<u8>, pos: int) -> int {
    bytes[pos] + 256 * bytes[pos + 1]
}

/// Whether four bytes at a position are the letters of a text.
pub open spec fn has_letters(bytes: Seq<u8>, pos: int, letters: Seq<char>) -> bool {
    forall|i: int| 0 <= i < letters.len() ==> bytes[pos + i] == #[trigger] letters[i] as int
}

/// A recording's header tells a reader all that it needs, in the places where it looks: the
/// letters of the format, that the samples are floating-point numbers of 32 bits, the channels
/// and the rate, and how many bytes there are in a frame and in a second.
pub proof fn lemma_header_describes_the_recording(
    channels: u16,
    sample_rate: u32,
    riff: u32,
    data: u32,
)
    requires
        fits_header(channels, sample_rate),
    ensures
        ({
            let header = wav_header(channels, sample_rate, riff, data);
            &&& header.len() == 44
            &&& has_letters(header, 0, seq!['R', 'I', 'F', 'F'])
            &&& u32_at(header, 4) == riff
            &&& has_letters(header, 8, seq!['W', 'A', 'V', 'E'])
            &&& has_letters(header, 12, seq!['f', 'm', 't', ' '])
            &&& u32_at(header, 16) == 16
            &&& u16_at(header, 20) == 3
            &&& u16_at(header, 22) == channels
            &&& u32_at(header, 24) == sample_rate
            &&& u32_at(header, 28) == u32_at(header, 24) * u16_at(header, 32)
            &&& u16_at(header, 32) * 8 == u16_at(header, 22) * u16_at(header, 34)
            &&& u16_at(header, 34) == 32
            &&& has_letters(header, 36, seq!['d', 'a', 't', 'a'])
            &&& u32_at(header, 40) == data
        }),
{
    lemma_header_numbers(channels, sample_rate, riff, data);
    lemma_header_letters(channels, sample_rate, riff, data);
    lemma_header_len(channels, sample_rate, riff, data);
    assert(sample_rate * channels * BYTES_PER_SAMPLE == sample_rate * (channels
        * BYTES_PER_SAMPLE)) by (nonlinear_arith);
}

proof fn lemma_header_letters(channels: u16, sample_rate: u32, riff: u32, data: u32)
    ensures
        ({
            let header = wav_header(channels, sample_rate, riff, data);
            &&& has_letters(header, 0, seq!['R', 'I', 'F', 'F'])
            &&& has_letters(header, 8, seq!['W', 'A', 'V', 'E'])
            &&& has_letters(header, 12, seq!['f', 'm', 't', ' '])
            &&& has_letters(header, 36, seq!['d', 'a', 't', 'a'])
        }),
{
    let header = wav_header(channels, sample_rate, riff, data);
    let block = format_block(channels, sample_rate);
    lemma_header_len(channels, sample_rate, riff, data);
    assert(header.subrange(0, 4) =~= riff_tag());
    assert(header.subrange(8, 40) =~= block);
    assert(block.subrange(0, 4) =~= wave_tag());
    assert(block.subrange(4, 8) =~= fmt_tag());
    assert(block.subrange(28, 32) =~= data_tag());
    assert(header.subrange(8, 12) =~= block.subrange(0, 4));
    assert(header.subrange(12, 16) =~= block.subrange(4, 8));
    assert(header.subrange(36, 40) =~= block.subrange(28, 32));
    lemma_letters(header, 0, riff_tag(), seq!['R', 'I', 'F', 'F']);
    lemma_letters(header, 8, wave_tag(), seq!['W', 'A', 'V', 'E']);
    lemma_letters(header, 12, fmt_tag(), seq!['f', 'm', 't', ' ']);
    lemma_letters(header, 36, data_tag(), seq!['d', 'a', 't', 'a']);
}

proof fn lemma_letters(bytes: Seq<u8>, pos: int, tag: Seq<u8>, letters: Seq<char>)
    requires
        0 <= pos,
        pos + 4 <= bytes.len(),
        tag.len() == 4,
        letters.len() == 4,
        bytes.subrange(pos, pos + 4) == tag,
        tag[0] == letters[0] as int,
        tag[1] == letters[1] as int,
        tag[2] == letters[2] as int,
        tag[3] == letters[3] as int,
    ensures
        has_letters(bytes, pos, letters),
{
    assert forall|i: int| 0 <= i < letters.len() implies bytes[pos + i]
        == #[trigger] letters[i] as int by {
        assert(bytes[pos + i] == bytes.subrange(pos, pos + 4)[i]);
        assert(i == 0 || i == 1 || i == 2 || i == 3);
    }
}

proof fn lemma_header_numbers(channels: u16, sample_rate: u32, riff: u32, data: u32)
    requires
        fits_header(channels, sample_rate),
    ensures
        ({
            let header = wav_header(channels, sample_rate, riff, data);
            &&& u32_at(header, 4) == riff
            &&& u32_at(header, 16) == 16
            &&& u16_at(header, 20) == 3
            &&& u16_at(header, 22) == channels
            &&& u32_at(header, 24) == sample_rate
            &&& u32_at(header, 28) == sample_rate * channels * BYTES_PER_SAMPLE
            &&& u16_at(header, 32) == channels * BYTES_PER_SAMPLE
            &&& u16_at(header, 34) == 32
            &&& u32_at(header, 40) == data
        }),
{
    let header = wav_header(channels, sample_rate, riff, data);
    let block = format_block(channels, sample_rate);
    lemma_header_len(channels, sample_rate, riff, data);
    lemma_block_numbers(channels, sample_rate);
    assert(header =~= riff_tag() + u32_le(riff) + (block + u32_le(data)));
    lemma_number_is_read_back(riff_tag(), riff, block + u32_le(data));
    let head = riff_tag() + u32_le(riff) + block;
    assert(header =~= head + u32_le(data) + Seq::<u8>::empty());
    lemma_number_is_read_back(head, data, Seq::empty());
    assert forall|i: int| 0 <= i < 32 implies header[8 + i] == #[trigger] block[i] by {
        assert(header[8 + i] == head[8 + i]);
    }
}

proof fn lemma_block_numbers(channels: u16, sample_rate: u32)
    requires
        fits_header(channels, sample_rate),
    ensures
        ({
            let block = format_block(channels, sample_rate);
            &&& u32_at(block, 8) == 16
            &&& u16_at(block, 12) == 3
            &&& u16_at(block, 14) == channels
            &&& u32_at(block, 16) == sample_rate
            &&& u32_at(block, 20) == sample_rate * channels * BYTES_PER_SAMPLE
            &&& u16_at(block, 24) == channels * BYTES_PER_SAMPLE
            &&& u16_at(block, 26) == 32
        }),
{
    let per_second: u32 = (sample_rate * channels * BYTES_PER_SAMPLE) as u32;
    let per_frame: u16 = (channels * BYTES_PER_SAMPLE) as u16;
    assert(0 <= sample_rate * channels * BYTES_PER_SAMPLE) by (nonlinear_arith);
    let b0 = wave_tag() + fmt_tag();
    let b1 = b0 + u32_le(16);
    let b2 = b1 + u16_le(3);
    let b3 = b2 + u16_le(channels);
    let b4 = b3 + u32_le(sample_rate);
    let b5 = b4 + u32_le(per_second);
    let b6 = b5 + u16_le(per_frame);
    let b7 = b6 + u16_le(32);
    let block = b7 + data_tag();
    assert(block == format_block(channels, sample_rate));
    lemma_number_stands_behind(b0, 16);
    lemma_short_number_stands_behind(b1, 3);
    lemma_short_number_stands_behind(b2, channels);
    lemma_number_stands_behind(b3, sample_rate);
    lemma_number_stands_behind(b4, per_second);
    lemma_short_number_stands_behind(b5, per_frame);
    lemma_short_number_stands_behind(b6, 32);
    lemma_prefix_keeps(b1, u16_le(3));
    lemma_prefix_keeps(b2, u16_le(channels));
    lemma_prefix_keeps(b3, u32_le(sample_rate));
    lemma_prefix_keeps(b4, u32_le(per_second));
    lemma_prefix_keeps(b5, u16_le(per_frame));
    lemma_prefix_keeps(b6, u16_le(32));
    lemma_prefix_keeps(b7, data_tag());
}

proof fn lemma_number_stands_behind(before: Seq<u8>, x: u32)
    ensures
        u32_at(before + u32_le(x), before.len() as int) == x,
{
    lemma_number_is_read_back(before, x, Seq::empty());
    assert(before + u32_le(x) + Seq::<u8>::empty() =~= before + u32_le(x));
}

proof fn lemma_short_number_stands_behind(before: Seq<u8>, x: u16)
    ensures
        u16_at(before + u16_le(x), before.len() as int) == x,
{
    let n = before.len() as int;
    let bytes = before + u16_le(x);
    assert(bytes[n] == u16_le(x)[0]);
    assert(bytes[n + 1] == u16_le(x)[1]);
}

/// What is read from the bytes in front stays the same when more bytes follow.
proof fn lemma_prefix_keeps(before: Seq<u8>, after: Seq<u8>)
    ensures
        forall|pos: int| #![trigger u32_at(before, pos)]
            0 <= pos && pos + 4 <= before.len() ==> u32_at(before + after, pos) == u32_at(
                before,
                pos,
            ),
        forall|pos: int| #![trigger u16_at(before, pos)]
            0 <= pos && pos + 2 <= before.len() ==> u16_at(before + after, pos) == u16_at(
                before,
                pos,
            ),
{
}

} // verus!
