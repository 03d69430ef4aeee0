//! RIFF/WAVE audio: 16-bit PCM and 32-bit float.

use crate::encoding;
use vstd::prelude::*;
use vstd::slice::slice_subrange;

verus! {

/// The samples of a file, all channels interleaved.
#[derive(Debug)]
pub enum Samples {
    /// 16-bit integers.
    Pcm16(Vec<i16>),
    /// The bit patterns of single-precision numbers.
    Float32(Vec<u32>),
}

/// Decoded speech.
#[derive(Debug)]
pub struct TtsAudio {
    pub samples: Samples,
    /// At least one.
    pub channels: u16,
    pub sample_rate: u32,
}

/// Why bytes are no audio that can be played.
#[derive(Debug, Clone, Copy, PartialEq, Eq, Structural)]
pub enum WavError {
    /// They are no WAV file.
    NotWav,
    /// The file has no data.
    MissingData,
    /// The data has another encoding.
    Unsupported { format_tag: u16, bits: u16 },
}

/// [`Samples`], as a sequence.
pub ghost enum SampleSeq {
    Pcm16(Seq<i16>),
    Float32(Seq<u32>),
}

/// [`TtsAudio`], with its samples as a sequence.
pub ghost struct Audio {
    pub samples: SampleSeq,
    pub channels: u16,
    pub sample_rate: u32,
}

impl View for TtsAudio {
    type V = Audio;

    open spec fn view(&self) -> Audio {
        Audio {
            samples: match self.samples {
                Samples::Pcm16(samples) => SampleSeq::Pcm16(samples@),
                Samples::Float32(samples) => SampleSeq::Float32(samples@),
            },
            channels: self.channels,
            sample_rate: self.sample_rate,
        }
    }
}

/// The little-endian number of the two bytes at `at`.
pub open spec fn le16(bytes: Seq<u8>, at: int) -> u16 {
    (bytes[at] + bytes[at + 1] * 0x100) as u16
}

/// The little-endian number of the four bytes at `at`.
pub open spec fn le32(bytes: Seq<u8>, at: int) -> u32 {
    (bytes[at] + bytes[at + 1] * 0x100 + bytes[at + 2] * 0x1_0000 + bytes[at + 3]
        * 0x100_0000) as u32
}

/// One chunk of a file: what it is, and what it holds.
pub ghost struct Chunk {
    pub id: Seq<u8>,
    pub body: Seq<u8>,
}

/// The chunk that starts at `at`. A body that the file cuts short is what the
/// file has of it.
pub open spec fn chunk_at(bytes: Seq<u8>, at: int) -> Chunk {
    let end = at + 8 + le32(bytes, at + 4);
    Chunk {
        id: bytes.subrange(at, at + 4),
        body: bytes.subrange(at + 8, if end < bytes.len() {
            end
        } else {
            bytes.len() as int
        }),
    }
}

/// Where the chunk after the one at `at` starts: chunks are padded to an even
/// size.
pub open spec fn next_chunk(bytes: Seq<u8>, at: int) -> int {
    at + 8 + le32(bytes, at + 4) + le32(bytes, at + 4) % 2
}

/// The chunks from `at` on, as long as there is a whole header.
pub open spec fn chunks(bytes: Seq<u8>, at: int) -> Seq<Chunk>
    decreases
            (if at <= bytes.len() {
                bytes.len() - at + 1
            } else {
                0
            }),
{
    if 0 <= at && at + 8 <= bytes.len() {
        seq![chunk_at(bytes, at)] + chunks(bytes, next_chunk(bytes, at))
    } else {
        Seq::empty()
    }
}

/// The body of the last of `chunks` that is an `id` with at least `least` bytes,
/// or else `found`.
pub open spec fn last_body(
    chunks: Seq<Chunk>,
    id: Seq<u8>,
    least: nat,
    found: Option<Seq<u8>>,
) -> Option<Seq<u8>>
    decreases chunks.len(),
{
    if chunks.len() == 0 {
        found
    } else if chunks[0].id == id && chunks[0].body.len() >= least {
        last_body(chunks.skip(1), id, least, Some(chunks[0].body))
    } else {
        last_body(chunks.skip(1), id, least, found)
    }
}

/// `RIFF`
pub open spec fn riff() -> Seq<u8> {
    seq![0x52u8, 0x49, 0x46, 0x46]
}

/// `WAVE`
pub open spec fn wave() -> Seq<u8> {
    seq![0x57u8, 0x41, 0x56, 0x45]
}

/// `fmt `
pub open spec fn fmt_id() -> Seq<u8> {
    seq![0x66u8, 0x6d, 0x74, 0x20]
}

/// `data`
pub open spec fn data_id() -> Seq<u8> {
    seq![0x64u8, 0x61, 0x74, 0x61]
}

/// How the samples of a file are encoded.
#[derive(Clone, Copy)]
pub struct Format {
    pub tag: u16,
    pub channels: u16,
    pub sample_rate: u32,
    pub bits: u16,
}

/// The format that a `fmt ` chunk describes; without one, 24 kHz mono 16-bit PCM.
pub open spec fn format_of(fmt: Option<Seq<u8>>) -> Format {
    match fmt {
        Some(body) => Format {
            tag: le16(body, 0),
            channels: if le16(body, 2) == 0 {
                1
            } else {
                le16(body, 2)
            },
            sample_rate: le32(body, 4),
            bits: le16(body, 14),
        },
        None => Format { tag: 1, channels: 1, sample_rate: 24000, bits: 16 },
    }
}

/// The bit patterns of little-endian single-precision numbers. Bytes at the end
/// that are no whole number are dropped.
pub open spec fn float32_samples(bytes: Seq<u8>) -> Seq<u32> {
    Seq::new(bytes.len() / 4, |i: int| le32(bytes, 4 * i))
}

/// The bytes start as a WAV file does.
pub open spec fn is_wav(bytes: Seq<u8>) -> bool {
    bytes.len() >= 12 && bytes.subrange(0, 4) == riff() && bytes.subrange(8, 12) == wave()
}

/// The audio of a WAV file: its last `data` chunk, in the format of its last
/// whole `fmt ` chunk.
pub open spec fn decoded(bytes: Seq<u8>) -> Result<Audio, WavError> {
    let all = chunks(bytes, 12);
    let format = format_of(last_body(all, fmt_id(), 16, None));
    if !is_wav(bytes) {
        Err(WavError::NotWav)
    } else {
        match last_body(all, data_id(), 0, None) {
            None => Err(WavError::MissingData),
            Some(data) => if format.tag == 1 && format.bits == 16 {
                Ok(
                    Audio {
                        samples: SampleSeq::Pcm16(encoding::pcm16_samples(data)),
                        channels: format.channels,
                        sample_rate: format.sample_rate,
                    },
                )
            } else if format.tag == 3 && format.bits == 32 {
                Ok(
                    Audio {
                        samples: SampleSeq::Float32(float32_samples(data)),
                        channels: format.channels,
                        sample_rate: format.sample_rate,
                    },
                )
            } else {
                Err(WavError::Unsupported { format_tag: format.tag, bits: format.bits })
            },
        }
    }
}

spec fn contents(data: Option<&[u8]>) -> Option<Seq<u8>> {
    match data {
        Some(data) => Some(data@),
        None => None,
    }
}

fn read_le16(bytes: &[u8], at: usize) -> (n: u16)
    requires
        at + 2 <= bytes@.len(),
    ensures
        n == le16(bytes@, at as int),
{
    bytes[at] as u16 + bytes[at + 1] as u16 * 0x100
}

fn read_le32(bytes: &[u8], at: usize) -> (n: u32)
    requires
        at + 4 <= bytes@.len(),
    ensures
        n == le32(bytes@, at as int),
{
    bytes[at] as u32 + bytes[at + 1] as u32 * 0x100 + bytes[at + 2] as u32 * 0x1_0000 + bytes[at
        + 3] as u32 * 0x100_0000
}

fn tag_is(bytes: &[u8], at: usize, a: u8, b: u8, c: u8, d: u8) -> (equal: bool)
    requires
        at + 4 <= bytes@.len(),
    ensures
        equal == (bytes@.subrange(at as int, at + 4) == seq![a, b, c, d]),
{
    let equal: bool = bytes[at] == a && bytes[at + 1] == b && bytes[at + 2] == c && bytes[at + 3]
        == d;
    proof {
        let found = bytes@.subrange(at as int, at + 4);
        if equal {
            assert(found =~= seq![a, b, c, d]);
        } else {
            assert(found[0] == bytes@[at as int] && found[1] == bytes@[at + 1] && found[2]
                == bytes@[at + 2] && found[3] == bytes@[at + 3]);
        }
    }
    equal
}

fn float32_decode(bytes: &[u8]) -> (samples: Vec<u32>)
    ensures
        samples@ == float32_samples(bytes@),
{
    let mut samples: Vec<u32> = Vec::new();
    let total: usize = bytes.len();
    let count: usize = total / 4;
    while samples.len() < count
        invariant
            total == bytes@.len(),
            count == total / 4,
            samples@.len() <= count,
            samples@ =~= float32_samples(bytes@).take(samples@.len() as int),
        decreases count - samples@.len(),
    {
        let at: usize = samples.len() * 4;
        samples.push(read_le32(bytes, at));
    }
    samples
}

/// Decodes a WAV file.
pub fn decode_wav(bytes: &[u8]) -> (audio: Result<TtsAudio, WavError>)
    ensures
        match audio {
            Ok(audio) => decoded(bytes@) == Ok::<Audio, WavError>(audio@),
            Err(error) => decoded(bytes@) == Err::<Audio, WavError>(error),
        },
{
    let total: usize = bytes.len();
    if total < 12 || !tag_is(bytes, 0, 0x52, 0x49, 0x46, 0x46) || !tag_is(
        bytes,
        8,
        0x57,
        0x41,
        0x56,
        0x45,
    ) {
        return Err(WavError::NotWav);
    }
    let ghost all = chunks(bytes@, 12);
    let ghost mut fmt: Option<Seq<u8>> = None;
    let mut format: Format = Format { tag: 1, channels: 1, sample_rate: 24000, bits: 16 };
    let mut data: Option<&[u8]> = None;
    let mut at: usize = 12;
    let mut more: bool = total - at >= 8;
    while more
        invariant
            total == bytes@.len(),
            all == chunks(bytes@, 12),
            more ==> at + 8 <= total,
            format == format_of(fmt),
            last_body(all, fmt_id(), 16, None) == last_body(
                if more {
                    chunks(bytes@, at as int)
                } else {
                    Seq::empty()
                },
                fmt_id(),
                16,
                fmt,
            ),
            last_body(all, data_id(), 0, None) == last_body(
                if more {
                    chunks(bytes@, at as int)
                } else {
                    Seq::empty()
                },
                data_id(),
                0,
                contents(data),
            ),
        decreases total - at + (if more {
            1int
        } else {
            0int
        }),
    {
        let size: u32 = read_le32(bytes, at + 4);
        let start: usize = at + 8;
        let rest: usize = total - start;
        let cut: bool = size as u64 >= rest as u64;
        let end: usize = if cut {
            total
        } else {
            start + size as usize
        };
        let ghost here = chunk_at(bytes@, at as int);
        let ghost left = chunks(bytes@, at as int);
        let ghost following = chunks(bytes@, next_chunk(bytes@, at as int));
        assert(left.skip(1) =~= following);
        assert(left[0] == here);
        let body: &[u8] = slice_subrange(bytes, start, end);
        assert(body@ == here.body);
        if tag_is(bytes, at, 0x66, 0x6d, 0x74, 0x20) {
            assert(here.id[0] == 0x66u8 && data_id()[0] == 0x64u8);
            if end - start >= 16 {
                let channels: u16 = read_le16(body, 2);
                format = Format {
                    tag: read_le16(body, 0),
                    channels: if channels == 0 {
                        1
                    } else {
                        channels
                    },
                    sample_rate: read_le32(body, 4),
                    bits: read_le16(body, 14),
                };
                proof {
                    fmt = Some(here.body);
                }
            }
        } else if tag_is(bytes, at, 0x64, 0x61, 0x74, 0x61) {
            data = Some(body);
        }
        if cut || end > total - 8 || end + (size % 2) as usize > total - 8 {
            more = false;
            assert(following =~= Seq::empty());
        } else {
            at = end + (size % 2) as usize;
        }
    }
    let data: &[u8] = match data {
        Some(data) => data,
        None => {
            return Err(WavError::MissingData);
        },
    };
    if format.tag == 1 && format.bits == 16 {
        Ok(
            TtsAudio {
                samples: Samples::Pcm16(encoding::pcm16_decode(data)),
                channels: format.channels,
                sample_rate: format.sample_rate,
            },
        )
    } else if format.tag == 3 && format.bits == 32 {
        Ok(
            TtsAudio {
                samples: Samples::Float32(float32_decode(data)),
                channels: format.channels,
                sample_rate: format.sample_rate,
            },
        )
    } else {
        Err(WavError::Unsupported { format_tag: format.tag, bits: format.bits })
    }
}

/// A number as four bytes, the lowest first.
pub open spec fn four_bytes(n: int) -> Seq<u8> {
    seq![
        (n % 256) as u8,
        (n / 256 % 256) as u8,
        (n / 65536 % 256) as u8,
        (n / 16777216 % 256) as u8,
    ]
}

/// A chunk as it is written: its id, the length of its body, its body, and a byte more
/// if that is odd.
pub open spec fn written_chunk(chunk: Chunk) -> Seq<u8> {
    chunk.id + four_bytes(chunk.body.len() as int) + chunk.body + (if chunk.body.len() % 2 == 0 {
        Seq::empty()
    } else {
        seq![0u8]
    })
}

/// Chunks, one after the other.
pub open spec fn written(all: Seq<Chunk>) -> Seq<u8>
    decreases all.len(),
{
    if all.len() == 0 {
        Seq::empty()
    } else {
        written_chunk(all[0]) + written(all.skip(1))
    }
}

/// An id has four bytes, and the length of the body can be said in four.
pub open spec fn can_be_written(chunk: Chunk) -> bool {
    chunk.id.len() == 4 && chunk.body.len() < 0x1_0000_0000
}

/// Chunks that are written behind one another are found again: each with its id and
/// its whole body, whatever their lengths, and nothing else.
pub proof fn chunks_read_back(before: Seq<u8>, all: Seq<Chunk>)
    requires
        forall|i: int| 0 <= i < all.len() ==> can_be_written(#[trigger] all[i]),
    ensures
        chunks(before + written(all), before.len() as int) == all,
    decreases all.len(),
{
    let bytes = before + written(all);
    let at = before.len() as int;
    if all.len() == 0 {
        assert(chunks(bytes, at) =~= all);
    } else {
        let first = all[0];
        let size = first.body.len() as int;
        let one = written_chunk(first);
        let rest = written(all.skip(1));
        assert(can_be_written(first));
        assert(bytes =~= before + one + rest);
        assert(bytes.subrange(at, at + 4) =~= first.id);
        assert(bytes.subrange(at + 4, at + 8) =~= four_bytes(size));
        assert(bytes[at + 4] == bytes.subrange(at + 4, at + 8)[0]);
        assert(bytes[at + 5] == bytes.subrange(at + 4, at + 8)[1]);
        assert(bytes[at + 6] == bytes.subrange(at + 4, at + 8)[2]);
        assert(bytes[at + 7] == bytes.subrange(at + 4, at + 8)[3]);
        assert(le32(bytes, at + 4) == size) by {
            lemma_four_bytes(size);
        }
        assert(bytes.subrange(at + 8, at + 8 + size) =~= first.body);
        assert(chunk_at(bytes, at) == first);
        assert(next_chunk(bytes, at) == at + one.len());
        chunks_read_back(before + one, all.skip(1));
        assert(before + one + written(all.skip(1)) =~= bytes);
        assert(chunks(bytes, at) =~= seq![first] + all.skip(1));
        assert(seq![first] + all.skip(1) =~= all);
    }
}

proof fn lemma_four_bytes(n: int)
    requires
        0 <= n < 0x1_0000_0000,
    ensures
        n % 256 + (n / 256 % 256) * 0x100 + (n / 65536 % 256) * 0x1_0000 + (n / 16777216 % 256)
            * 0x100_0000 == n,
{
}

proof fn lemma_last_body(
    front: Seq<Chunk>,
    one: Chunk,
    back: Seq<Chunk>,
    id: Seq<u8>,
    least: nat,
    found: Option<Seq<u8>>,
)
    requires
        one.id == id,
        one.body.len() >= least,
        forall|i: int| 0 <= i < back.len() ==> (#[trigger] back[i]).id != id,
    ensures
        last_body(front + seq![one] + back, id, least, found) == Some(one.body),
    decreases front.len(),
{
    let all = front + seq![one] + back;
    if front.len() > 0 {
        assert(all.skip(1) =~= front.skip(1) + seq![one] + back);
        assert(all[0] == front[0]);
        if front[0].id == id && front[0].body.len() >= least {
            lemma_last_body(front.skip(1), one, back, id, least, Some(front[0].body));
        } else {
            lemma_last_body(front.skip(1), one, back, id, least, found);
        }
    } else {
        assert(all.skip(1) =~= back);
        assert(all[0] == one);
        lemma_no_body(back, id, least, Some(one.body));
    }
}

proof fn lemma_no_body(all: Seq<Chunk>, id: Seq<u8>, least: nat, found: Option<Seq<u8>>)
    requires
        forall|i: int| 0 <= i < all.len() ==> (#[trigger] all[i]).id != id,
    ensures
        last_body(all, id, least, found) == found,
    decreases all.len(),
{
    if all.len() > 0 {
        assert(all[0].id != id);
        assert forall|i: int| 0 <= i < all.skip(1).len() implies (#[trigger] all.skip(1)[i]).id
            != id by {
            assert(all.skip(1)[i] == all[i + 1]);
        }
        lemma_no_body(all.skip(1), id, least, found);
    }
}

/// A format as the body of its chunk: what the encoding is, the channels, the rate, six
/// bytes that do not count, the bits of a sample, and perhaps more that does not count.
pub open spec fn written_format(format: Format, between: Seq<u8>, tail: Seq<u8>) -> Seq<u8> {
    seq![
        (format.tag % 256) as u8,
        (format.tag / 256) as u8,
        (format.channels % 256) as u8,
        (format.channels / 256) as u8,
    ] + four_bytes(format.sample_rate as int) + between + seq![
        (format.bits % 256) as u8,
        (format.bits / 256) as u8,
    ] + tail
}

/// A file as it is written: the eight bytes of `RIFF` and a size, `WAVE`, the format,
/// chunks of other kinds, and the data.
pub open spec fn written_file(
    size: Seq<u8>,
    format: Format,
    between: Seq<u8>,
    tail: Seq<u8>,
    others: Seq<Chunk>,
    data: Seq<u8>,
) -> Seq<u8> {
    seq![0x52u8, 0x49, 0x46, 0x46] + size + seq![0x57u8, 0x41, 0x56, 0x45] + written(
        seq![
            Chunk { id: seq![0x66u8, 0x6d, 0x74, 0x20], body: written_format(format, between, tail) },
        ] + others + seq![Chunk { id: seq![0x64u8, 0x61, 0x74, 0x61], body: data }],
    )
}

/// What can be written: sizes of four and six bytes, chunks that are neither a format
/// nor data, and data whose length can be said in four bytes.
pub open spec fn is_writable(
    size: Seq<u8>,
    format: Format,
    between: Seq<u8>,
    tail: Seq<u8>,
    others: Seq<Chunk>,
    data: Seq<u8>,
) -> bool {
    &&& size.len() == 4
    &&& between.len() == 6
    &&& tail.len() < 0x1_0000
    &&& format.channels > 0
    &&& data.len() < 0x1_0000_0000
    &&& forall|i: int|
        0 <= i < others.len() ==> can_be_written(#[trigger] others[i]) && others[i].id
            != seq![0x66u8, 0x6d, 0x74, 0x20] && others[i].id != seq![0x64u8, 0x61, 0x74, 0x61]
}

/// A format that is written reads back: the encoding, the channels, the rate, and the
/// bits.
pub proof fn format_reads_back(format: Format, between: Seq<u8>, tail: Seq<u8>)
    requires
        between.len() == 6,
        format.channels > 0,
    ensures
        written_format(format, between, tail).len() == 16 + tail.len(),
        format_of(Some(written_format(format, between, tail))) == format,
{
    let body = written_format(format, between, tail);
    lemma_four_bytes(format.sample_rate as int);
    assert(body[4] == four_bytes(format.sample_rate as int)[0]);
    assert(body[5] == four_bytes(format.sample_rate as int)[1]);
    assert(body[6] == four_bytes(format.sample_rate as int)[2]);
    assert(body[7] == four_bytes(format.sample_rate as int)[3]);
}

#[verifier::rlimit(40)]
proof fn lemma_written_file(
    size: Seq<u8>,
    format: Format,
    between: Seq<u8>,
    tail: Seq<u8>,
    others: Seq<Chunk>,
    data: Seq<u8>,
)
    requires
        is_writable(size, format, between, tail, others, data),
    ensures
        is_wav(written_file(size, format, between, tail, others, data)),
        format_of(
            last_body(
                chunks(written_file(size, format, between, tail, others, data), 12),
                fmt_id(),
                16,
                None,
            ),
        ) == format,
        last_body(
            chunks(written_file(size, format, between, tail, others, data), 12),
            data_id(),
            0,
            None,
        ) == Some(data),
{
    let file = written_file(size, format, between, tail, others, data);
    let head = seq![0x52u8, 0x49, 0x46, 0x46] + size + seq![0x57u8, 0x41, 0x56, 0x45];
    let first = Chunk {
        id: seq![0x66u8, 0x6d, 0x74, 0x20],
        body: written_format(format, between, tail),
    };
    let last = Chunk { id: seq![0x64u8, 0x61, 0x74, 0x61], body: data };
    let all = seq![first] + others + seq![last];
    format_reads_back(format, between, tail);
    assert(file =~= head + written(all));
    assert(first.id[0] != last.id[0]);
    assert(file.subrange(0, 4) =~= riff());
    assert(file.subrange(8, 12) =~= wave());
    assert forall|i: int| 0 <= i < all.len() implies can_be_written(#[trigger] all[i]) by {
        if 1 <= i <= others.len() {
            assert(all[i] == others[i - 1]);
        }
    }
    chunks_read_back(head, all);
    let behind = others + seq![last];
    assert forall|i: int| 0 <= i < behind.len() implies (#[trigger] behind[i]).id != fmt_id() by {
        if i < others.len() {
            assert(behind[i] == others[i]);
        }
    }
    assert(all =~= Seq::empty() + seq![first] + behind);
    assert(first.id =~= fmt_id());
    lemma_last_body(Seq::empty(), first, behind, fmt_id(), 16, None);
    assert(all =~= (seq![first] + others) + seq![last] + Seq::empty());
    assert(last.id =~= data_id());
    lemma_last_body(seq![first] + others, last, Seq::empty(), data_id(), 0, None);
}

/// A 16-bit file of any length reads back: every sample, in order, with the channels
/// and the rate that were written.
pub proof fn pcm_file_reads_back(
    size: Seq<u8>,
    channels: u16,
    sample_rate: u32,
    between: Seq<u8>,
    tail: Seq<u8>,
    others: Seq<Chunk>,
    samples: Seq<i16>,
)
    requires
        is_writable(
            size,
            Format { tag: 1, channels, sample_rate, bits: 16 },
            between,
            tail,
            others,
            encoding::pcm16_bytes(samples),
        ),
    ensures
        decoded(
            written_file(
                size,
                Format { tag: 1, channels, sample_rate, bits: 16 },
                between,
                tail,
                others,
                encoding::pcm16_bytes(samples),
            ),
        ) == Ok::<Audio, WavError>(
            Audio { samples: SampleSeq::Pcm16(samples), channels, sample_rate },
        ),
{
    let format = Format { tag: 1, channels, sample_rate, bits: 16 };
    lemma_written_file(size, format, between, tail, others, encoding::pcm16_bytes(samples));
    encoding::pcm16_reads_back(samples);
}

/// A file of single-precision numbers reads back: every four bytes of its data make a
/// pattern, the lowest byte first, with the channels and the rate that were written.
pub proof fn float_file_reads_back(
    size: Seq<u8>,
    channels: u16,
    sample_rate: u32,
    between: Seq<u8>,
    tail: Seq<u8>,
    others: Seq<Chunk>,
    data: Seq<u8>,
)
    requires
        is_writable(
            size,
            Format { tag: 3, channels, sample_rate, bits: 32 },
            between,
            tail,
            others,
            data,
        ),
    ensures
        ({
            let audio = decoded(
                written_file(
                    size,
                    Format { tag: 3, channels, sample_rate, bits: 32 },
                    between,
                    tail,
                    others,
                    data,
                ),
            );
            &&& audio matches Ok(audio)
            &&& audio.channels == channels && audio.sample_rate == sample_rate
            &&& audio.samples matches SampleSeq::Float32(samples)
            &&& samples.len() == data.len() / 4
            &&& forall|i: int|
                0 <= i < samples.len() ==> #[trigger] samples[i] == data[4 * i] + 256 * data[4 * i
                    + 1] + 65536 * data[4 * i + 2] + 16777216 * data[4 * i + 3]
        }),
{
    let format = Format { tag: 3, channels, sample_rate, bits: 32 };
    lemma_written_file(size, format, between, tail, others, data);
}

/// A file in any other encoding is refused, with what its format says.
pub proof fn other_files_are_refused(
    size: Seq<u8>,
    format: Format,
    between: Seq<u8>,
    tail: Seq<u8>,
    others: Seq<Chunk>,
    data: Seq<u8>,
)
    requires
        is_writable(size, format, between, tail, others, data),
        !(format.tag == 1 && format.bits == 16),
        !(format.tag == 3 && format.bits == 32),
    ensures
        decoded(written_file(size, format, between, tail, others, data)) == Err::<Audio, WavError>(
            WavError::Unsupported { format_tag: format.tag, bits: format.bits },
        ),
{
    lemma_written_file(size, format, between, tail, others, data);
}

/// A file without data, and one that does not start as a WAV file does, are refused.
pub proof fn files_without_data_are_refused(size: Seq<u8>, others: Seq<Chunk>, bytes: Seq<u8>)
    requires
        size.len() == 4,
        forall|i: int|
            0 <= i < others.len() ==> can_be_written(#[trigger] others[i]) && others[i].id
                != seq![0x64u8, 0x61, 0x74, 0x61],
    ensures
        decoded(
            seq![0x52u8, 0x49, 0x46, 0x46] + size + seq![0x57u8, 0x41, 0x56, 0x45] + written(
                others,
            ),
        ) == Err::<Audio, WavError>(WavError::MissingData),
        bytes.len() < 12 || bytes.take(4) != seq![0x52u8, 0x49, 0x46, 0x46] || bytes.subrange(
            8,
            12,
        ) != seq![0x57u8, 0x41, 0x56, 0x45] ==> decoded(bytes) == Err::<Audio, WavError>(
            WavError::NotWav,
        ),
{
    let head = seq![0x52u8, 0x49, 0x46, 0x46] + size + seq![0x57u8, 0x41, 0x56, 0x45];
    let file = head + written(others);
    assert(file.subrange(0, 4) =~= riff());
    assert(file.subrange(8, 12) =~= wave());
    chunks_read_back(head, others);
    lemma_no_body(others, data_id(), 0, None);
    if bytes.len() >= 12 {
        assert(bytes.take(4) =~= bytes.subrange(0, 4));
    }
}

/// Data that the file cuts short counts as far as the file goes, whatever length it
/// claims.
pub proof fn cut_data_counts(head: Seq<u8>, id: Seq<u8>, claimed: int, body: Seq<u8>)
    requires
        id.len() == 4,
        body.len() <= claimed < 0x1_0000_0000,
    ensures
        chunks(head + (id + four_bytes(claimed) + body), head.len() as int) == seq![
            Chunk { id, body },
        ],
{
    let bytes = head + (id + four_bytes(claimed) + body);
    let at = head.len() as int;
    assert(bytes.subrange(at, at + 4) =~= id);
    assert(bytes[at + 4] == four_bytes(claimed)[0]);
    assert(bytes[at + 5] == four_bytes(claimed)[1]);
    assert(bytes[at + 6] == four_bytes(claimed)[2]);
    assert(bytes[at + 7] == four_bytes(claimed)[3]);
    lemma_four_bytes(claimed);
    assert(le32(bytes, at + 4) == claimed);
    assert(bytes.subrange(at + 8, bytes.len() as int) =~= body);
    assert(chunk_at(bytes, at) == (Chunk { id, body }));
    assert(chunks(bytes, next_chunk(bytes, at)) =~= Seq::empty());
    assert(chunks(bytes, at) =~= seq![Chunk { id, body }]);
}

/// Without a format, data is 24 kHz mono 16-bit; and a format of no channels stands for
/// one channel.
pub proof fn format_has_defaults(size: Seq<u8>, format: Format, between: Seq<u8>, samples: Seq<i16>)
    requires
        size.len() == 4,
        between.len() == 6,
        format.channels == 0,
        2 * samples.len() < 0x1_0000_0000,
    ensures
        decoded(
            seq![0x52u8, 0x49, 0x46, 0x46] + size + seq![0x57u8, 0x41, 0x56, 0x45] + written(
                seq![
                    Chunk {
                        id: seq![0x64u8, 0x61, 0x74, 0x61],
                        body: encoding::pcm16_bytes(samples),
                    },
                ],
            ),
        ) == Ok::<Audio, WavError>(
            Audio { samples: SampleSeq::Pcm16(samples), channels: 1, sample_rate: 24000 },
        ),
        format_of(Some(written_format(format, between, Seq::empty()))).channels == 1,
{
    let head = seq![0x52u8, 0x49, 0x46, 0x46] + size + seq![0x57u8, 0x41, 0x56, 0x45];
    let data = Chunk {
        id: seq![0x64u8, 0x61, 0x74, 0x61],
        body: encoding::pcm16_bytes(samples),
    };
    let all = seq![data];
    let file = head + written(all);
    assert(file.subrange(0, 4) =~= riff());
    assert(file.subrange(8, 12) =~= wave());
    chunks_read_back(head, all);
    assert(data.id =~= data_id());
    assert(data.id[0] != fmt_id()[0]);
    lemma_no_body(all, fmt_id(), 16, None);
    assert(all =~= Seq::empty() + seq![data] + Seq::empty());
    lemma_last_body(Seq::empty(), data, Seq::empty(), data_id(), 0, None);
    encoding::pcm16_reads_back(samples);
    let body = written_format(format, between, Seq::empty());
    assert(body[2] == 0 && body[3] == 0);
}

proof fn lemma_chunks_and_more(before: Seq<u8>, all: Seq<Chunk>, tail: Seq<u8>)
    requires
        forall|i: int| 0 <= i < all.len() ==> can_be_written(#[trigger] all[i]),
    ensures
        chunks(before + written(all) + tail, before.len() as int) == all + chunks(
            before + written(all) + tail,
            (before + written(all)).len() as int,
        ),
    decreases all.len(),
{
    let bytes = before + written(all) + tail;
    let at = before.len() as int;
    if all.len() == 0 {
        assert(all + chunks(bytes, at) =~= chunks(bytes, at));
        assert(before + written(all) =~= before);
    } else {
        let first = all[0];
        let size = first.body.len() as int;
        let one = written_chunk(first);
        let rest = written(all.skip(1));
        assert(can_be_written(first));
        assert(bytes =~= before + one + rest + tail);
        assert(bytes.subrange(at, at + 4) =~= first.id);
        assert(bytes.subrange(at + 4, at + 8) =~= four_bytes(size));
        assert(bytes[at + 4] == bytes.subrange(at + 4, at + 8)[0]);
        assert(bytes[at + 5] == bytes.subrange(at + 4, at + 8)[1]);
        assert(bytes[at + 6] == bytes.subrange(at + 4, at + 8)[2]);
        assert(bytes[at + 7] == bytes.subrange(at + 4, at + 8)[3]);
        assert(le32(bytes, at + 4) == size) by {
            lemma_four_bytes(size);
        }
        assert(bytes.subrange(at + 8, at + 8 + size) =~= first.body);
        assert(chunk_at(bytes, at) == first);
        assert(next_chunk(bytes, at) == at + one.len());
        lemma_chunks_and_more(before + one, all.skip(1), tail);
        assert(before + one + written(all.skip(1)) + tail =~= bytes);
        let more = chunks(bytes, (before + written(all)).len() as int);
        assert(chunks(bytes, at) =~= seq![first] + (all.skip(1) + more));
        assert(seq![first] + (all.skip(1) + more) =~= all + more);
    }
}

proof fn lemma_none_counts(all: Seq<Chunk>, id: Seq<u8>, least: nat, found: Option<Seq<u8>>)
    requires
        forall|k: int|
            0 <= k < all.len() ==> (#[trigger] all[k]).id != id || all[k].body.len() < least,
    ensures
        last_body(all, id, least, found) == found,
    decreases all.len(),
{
    if all.len() > 0 {
        assert(all[0].id != id || all[0].body.len() < least);
        assert forall|k: int| 0 <= k < all.skip(1).len() implies (#[trigger] all.skip(1)[k]).id
            != id || all.skip(1)[k].body.len() < least by {
            assert(all.skip(1)[k] == all[k + 1]);
        }
        lemma_none_counts(all.skip(1), id, least, found);
    }
}

proof fn lemma_last_counts(
    all: Seq<Chunk>,
    id: Seq<u8>,
    least: nat,
    at: int,
    found: Option<Seq<u8>>,
)
    requires
        0 <= at < all.len(),
        all[at].id == id,
        all[at].body.len() >= least,
        forall|k: int|
            at < k < all.len() ==> (#[trigger] all[k]).id != id || all[k].body.len() < least,
    ensures
        last_body(all, id, least, found) == Some(all[at].body),
    decreases all.len(),
{
    let rest = all.skip(1);
    assert forall|k: int| at - 1 < k < rest.len() implies (#[trigger] rest[k]).id != id
        || rest[k].body.len() < least by {
        assert(rest[k] == all[k + 1]);
    }
    if at == 0 {
        lemma_none_counts(rest, id, least, Some(all[0].body));
    } else {
        assert(rest[at - 1] == all[at]);
        if all[0].id == id && all[0].body.len() >= least {
            lemma_last_counts(rest, id, least, at - 1, Some(all[0].body));
        } else {
            lemma_last_counts(rest, id, least, at - 1, found);
        }
    }
}

/// Of several chunks of one kind the last one counts, wherever it stands: the last data,
/// in the last format that is whole. Chunks of other kinds, and bytes at the end that are
/// no header, do not count.
pub proof fn last_chunks_count(
    size: Seq<u8>,
    all: Seq<Chunk>,
    fmt_at: int,
    data_at: int,
    tail: Seq<u8>,
)
    requires
        size.len() == 4,
        tail.len() < 8,
        forall|i: int| 0 <= i < all.len() ==> can_be_written(#[trigger] all[i]),
        0 <= fmt_at < all.len(),
        all[fmt_at].id == seq![0x66u8, 0x6d, 0x74, 0x20],
        all[fmt_at].body.len() >= 16,
        forall|k: int|
            fmt_at < k < all.len() ==> (#[trigger] all[k]).id != seq![0x66u8, 0x6d, 0x74, 0x20]
                || all[k].body.len() < 16,
        0 <= data_at < all.len(),
        all[data_at].id == seq![0x64u8, 0x61, 0x74, 0x61],
        forall|k: int|
            data_at < k < all.len() ==> (#[trigger] all[k]).id != seq![0x64u8, 0x61, 0x74, 0x61],
    ensures
        ({
            let bytes = seq![0x52u8, 0x49, 0x46, 0x46] + size + seq![0x57u8, 0x41, 0x56, 0x45]
                + written(all) + tail;
            let format = format_of(Some(all[fmt_at].body));
            let data = all[data_at].body;
            let pcm = format.tag == 1 && format.bits == 16;
            let float = format.tag == 3 && format.bits == 32;
            &&& pcm ==> decoded(bytes) == Ok::<Audio, WavError>(
                Audio {
                    samples: SampleSeq::Pcm16(encoding::pcm16_samples(data)),
                    channels: format.channels,
                    sample_rate: format.sample_rate,
                },
            )
            &&& float ==> decoded(bytes) == Ok::<Audio, WavError>(
                Audio {
                    samples: SampleSeq::Float32(float32_samples(data)),
                    channels: format.channels,
                    sample_rate: format.sample_rate,
                },
            )
            &&& !pcm && !float ==> decoded(bytes) == Err::<Audio, WavError>(
                WavError::Unsupported { format_tag: format.tag, bits: format.bits },
            )
        }),
{
    let head = seq![0x52u8, 0x49, 0x46, 0x46] + size + seq![0x57u8, 0x41, 0x56, 0x45];
    let bytes = head + written(all) + tail;
    assert(bytes.subrange(0, 4) =~= riff());
    assert(bytes.subrange(8, 12) =~= wave());
    lemma_chunks_and_more(head, all, tail);
    assert(chunks(bytes, (head + written(all)).len() as int) =~= Seq::empty());
    assert(chunks(bytes, 12) =~= all);
    assert(all[fmt_at].id =~= fmt_id());
    assert(all[data_at].id =~= data_id());
    lemma_last_counts(all, fmt_id(), 16, fmt_at, None);
    lemma_last_counts(all, data_id(), 0, data_at, None);
}

/// A file that ends in the middle of its data is played as far as it goes, whatever
/// length the data claims.
pub proof fn cut_file_is_played(
    size: Seq<u8>,
    all: Seq<Chunk>,
    fmt_at: int,
    claimed: int,
    samples: Seq<i16>,
)
    requires
        size.len() == 4,
        forall|i: int| 0 <= i < all.len() ==> can_be_written(#[trigger] all[i]),
        0 <= fmt_at < all.len(),
        all[fmt_at].id == seq![0x66u8, 0x6d, 0x74, 0x20],
        all[fmt_at].body.len() >= 16,
        forall|k: int|
            fmt_at < k < all.len() ==> (#[trigger] all[k]).id != seq![0x66u8, 0x6d, 0x74, 0x20]
                || all[k].body.len() < 16,
        format_of(Some(all[fmt_at].body)).tag == 1,
        format_of(Some(all[fmt_at].body)).bits == 16,
        2 * samples.len() <= claimed < 0x1_0000_0000,
    ensures
        decoded(
            seq![0x52u8, 0x49, 0x46, 0x46] + size + seq![0x57u8, 0x41, 0x56, 0x45] + written(all)
                + (seq![0x64u8, 0x61, 0x74, 0x61] + four_bytes(claimed) + encoding::pcm16_bytes(
                samples,
            )),
        ) == Ok::<Audio, WavError>(
            Audio {
                samples: SampleSeq::Pcm16(samples),
                channels: format_of(Some(all[fmt_at].body)).channels,
                sample_rate: format_of(Some(all[fmt_at].body)).sample_rate,
            },
        ),
{
    let head = seq![0x52u8, 0x49, 0x46, 0x46] + size + seq![0x57u8, 0x41, 0x56, 0x45];
    let id = seq![0x64u8, 0x61, 0x74, 0x61];
    let data = encoding::pcm16_bytes(samples);
    let tail = id + four_bytes(claimed) + data;
    let bytes = head + written(all) + tail;
    assert(bytes.subrange(0, 4) =~= riff());
    assert(bytes.subrange(8, 12) =~= wave());
    lemma_chunks_and_more(head, all, tail);
    cut_data_counts(head + written(all), id, claimed, data);
    let found = all.push(Chunk { id, body: data });
    assert(chunks(bytes, 12) =~= found);
    assert(id =~= data_id());
    assert(found[fmt_at] == all[fmt_at]);
    assert(found[fmt_at].id =~= fmt_id());
    assert(id[0] != fmt_id()[0]);
    assert forall|k: int| fmt_at < k < found.len() implies (#[trigger] found[k]).id != fmt_id()
        || found[k].body.len() < 16 by {
        if k < all.len() {
            assert(found[k] == all[k]);
        }
    }
    lemma_last_counts(found, fmt_id(), 16, fmt_at, None);
    lemma_last_counts(found, data_id(), 0, all.len() as int, None);
    encoding::pcm16_reads_back(samples);
}

}
