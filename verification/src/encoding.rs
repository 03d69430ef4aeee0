//! Base64 and 16-bit PCM.

use base64::Engine;
use vstd::prelude::*;
use vstd::string::*;

verus! {

/// The standard, padded Base64 text of `bytes`, as `base64` writes it.
pub uninterp spec fn base64_text(bytes: Seq<u8>) -> Seq<char>;

/// The bytes of a standard, padded Base64 text, or why it is none, as `base64`
/// reads it.
pub uninterp spec fn base64_bytes(text: Seq<char>) -> Result<Seq<u8>, Seq<char>>;

/// The Base64 text `text` stands for `bytes`.
pub open spec fn stands_for(text: Seq<char>, bytes: Seq<u8>) -> bool {
    base64_bytes(text) == Ok::<Seq<u8>, Seq<char>>(bytes)
}

/// Encodes with `base64`'s `STANDARD.encode`. The text is a function of the
/// bytes alone, and decodes to them again.
#[verifier::external_body]
pub(crate) fn base64_encode(bytes: &[u8]) -> (text: String)
    ensures
        text@ == base64_text(bytes@),
        stands_for(text@, bytes@),
{
    base64::engine::general_purpose::STANDARD.encode(bytes)
}

/// Decodes with `base64`'s `STANDARD.decode`. The bytes, or the message of the
/// error, are a function of the text alone.
#[verifier::external_body]
pub(crate) fn base64_decode(text: &str) -> (decoded: Result<Vec<u8>, String>)
    ensures
        match decoded {
            Ok(bytes) => base64_bytes(text@) == Ok::<Seq<u8>, Seq<char>>(bytes@),
            Err(message) => base64_bytes(text@) == Err::<Seq<u8>, Seq<char>>(message@),
        },
{
    match base64::engine::general_purpose::STANDARD.decode(text) {
        Ok(bytes) => Ok(bytes),
        Err(error) => Err(error.to_string()),
    }
}

/// The two's complement of a sample, as an unsigned number.
pub open spec fn unsigned(sample: i16) -> int {
    if sample < 0 {
        sample + 0x1_0000
    } else {
        sample as int
    }
}

/// The sample whose two's complement is `low` below `high`.
pub open spec fn sample_of(low: u8, high: u8) -> i16 {
    if high >= 0x80 {
        (high * 256 + low - 0x1_0000) as i16
    } else {
        (high * 256 + low) as i16
    }
}

/// Samples as little-endian 16-bit PCM: two bytes each, the low one first.
pub open spec fn pcm16_bytes(samples: Seq<i16>) -> Seq<u8> {
    Seq::new(
        samples.len() * 2,
        |i: int|
            if i % 2 == 0 {
                (unsigned(samples[i / 2]) % 256) as u8
            } else {
                (unsigned(samples[i / 2]) / 256) as u8
            },
    )
}

/// The samples of little-endian 16-bit PCM. An odd byte at the end is dropped.
pub open spec fn pcm16_samples(bytes: Seq<u8>) -> Seq<i16> {
    Seq::new(bytes.len() / 2, |i: int| sample_of(bytes[2 * i], bytes[2 * i + 1]))
}

/// Writes samples as little-endian 16-bit PCM.
pub fn pcm16_encode(samples: &Vec<i16>) -> (bytes: Vec<u8>)
    ensures
        bytes@ == pcm16_bytes(samples@),
{
    let mut bytes: Vec<u8> = Vec::new();
    let mut i: usize = 0;
    while i < samples.len()
        invariant
            i <= samples.len(),
            bytes@ == pcm16_bytes(samples@.take(i as int)),
        decreases samples.len() - i,
    {
        let sample: i16 = samples[i];
        let code: i32 = if sample < 0 {
            sample as i32 + 0x1_0000
        } else {
            sample as i32
        };
        bytes.push((code % 256) as u8);
        bytes.push((code / 256) as u8);
        i = i + 1;
        assert(bytes@ =~= pcm16_bytes(samples@.take(i as int)));
    }
    assert(samples@.take(samples@.len() as int) =~= samples@);
    bytes
}

/// Reads the samples of little-endian 16-bit PCM.
pub fn pcm16_decode(bytes: &[u8]) -> (samples: Vec<i16>)
    ensures
        samples@ == pcm16_samples(bytes@),
{
    let mut samples: Vec<i16> = Vec::new();
    let total: usize = bytes.len();
    let count: usize = total / 2;
    while samples.len() < count
        invariant
            total == bytes@.len(),
            count == total / 2,
            samples@.len() <= count,
            samples@ =~= pcm16_samples(bytes@).take(samples@.len() as int),
        decreases count - samples@.len(),
    {
        let at: usize = samples.len() * 2;
        let code: i32 = bytes[at + 1] as i32 * 256 + bytes[at] as i32;
        let sample: i16 = if bytes[at + 1] >= 0x80 {
            (code - 0x1_0000) as i16
        } else {
            code as i16
        };
        samples.push(sample);
    }
    samples
}

/// Samples written as PCM read back as themselves.
pub proof fn pcm16_reads_back(samples: Seq<i16>)
    ensures
        pcm16_samples(pcm16_bytes(samples)) == samples,
{
    assert forall|i: int| 0 <= i < samples.len() implies pcm16_samples(pcm16_bytes(samples))[i]
        == samples[i] by {
        let bytes = pcm16_bytes(samples);
        assert(bytes[2 * i] == (unsigned(samples[i]) % 256) as u8);
        assert(bytes[2 * i + 1] == (unsigned(samples[i]) / 256) as u8);
    }
    assert(pcm16_samples(pcm16_bytes(samples)) =~= samples);
}

/// Two bytes make a sample: the low one first, and the two of them the sample's two's
/// complement. None is left out but an odd one at the end.
pub proof fn pcm16_is_little_endian(bytes: Seq<u8>, at: int)
    requires
        0 <= 2 * at < bytes.len() - 1,
    ensures
        pcm16_samples(bytes).len() == bytes.len() / 2,
        (pcm16_samples(bytes)[at] - (bytes[2 * at] + 256 * bytes[2 * at + 1])) % 0x1_0000 == 0,
{
}

/// A sample makes two bytes: the low one first, and the two of them its two's
/// complement. None is left out.
pub proof fn pcm16_writes_every_sample(samples: Seq<i16>, at: int)
    requires
        0 <= at < samples.len(),
    ensures
        pcm16_bytes(samples).len() == 2 * samples.len(),
        (samples[at] - (pcm16_bytes(samples)[2 * at] + 256 * pcm16_bytes(samples)[2 * at + 1]))
            % 0x1_0000 == 0,
{
    let code = unsigned(samples[at]);
    assert(pcm16_bytes(samples)[2 * at] == (code % 256) as u8);
    assert(pcm16_bytes(samples)[2 * at + 1] == (code / 256) as u8);
}

}
