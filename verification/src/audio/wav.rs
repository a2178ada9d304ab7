//! WAV encoding of 16-bit mono PCM: a whole file with its 44-byte header, and
//! the chunks of a stream, whose first one carries a header with unknown
//! sizes.

use vstd::prelude::*;

verus! {

/// The four little-endian bytes of `x` (taken modulo 2^32).
pub open spec fn le32(x: nat) -> Seq<u8> {
    seq![
        (x % 256) as u8,
        ((x / 256) % 256) as u8,
        ((x / 65536) % 256) as u8,
        ((x / 16777216) % 256) as u8,
    ]
}

/// The two little-endian bytes of `x` (taken modulo 2^16).
pub open spec fn le16(x: nat) -> Seq<u8> {
    seq![(x % 256) as u8, ((x / 256) % 256) as u8]
}

/// The two's complement of a 16-bit sample, as an unsigned number.
pub open spec fn unsigned16(s: i16) -> nat {
    if s < 0 {
        (s + 65536) as nat
    } else {
        s as nat
    }
}

/// The little-endian bytes of the samples, in order.
pub open spec fn sample_bytes(samples: Seq<i16>) -> Seq<u8>
    decreases samples.len(),
{
    if samples.len() == 0 {
        Seq::empty()
    } else {
        sample_bytes(samples.drop_last()) + le16(unsigned16(samples.last()))
    }
}

/// The bytes of `RIFF`, `WAVE`, `fmt ` and `data`.
pub open spec fn riff_tag() -> Seq<u8> {
    seq![82u8, 73u8, 70u8, 70u8]
}

/// `WAVE`.
pub open spec fn wave_tag() -> Seq<u8> {
    seq![87u8, 65u8, 86u8, 69u8]
}

/// `fmt `.
pub open spec fn fmt_tag() -> Seq<u8> {
    seq![102u8, 109u8, 116u8, 32u8]
}

/// `data`.
pub open spec fn data_tag() -> Seq<u8> {
    seq![100u8, 97u8, 116u8, 97u8]
}

/// The 44-byte header of 16-bit mono PCM at `sample_rate`: RIFF chunk size,
/// format chunk (PCM, one channel, byte rate twice the sample rate, block
/// alignment 2, 16 bits), and the data chunk's size.
pub open spec fn wav_header(sample_rate: nat, chunk_size: nat, data_len: nat) -> Seq<u8> {
    riff_tag() + le32(chunk_size) + wave_tag() + fmt_tag() + le32(16) + le16(1) + le16(1) + le32(
        sample_rate,
    ) + le32(sample_rate * 2) + le16(2) + le16(16) + data_tag() + le32(data_len)
}

/// The size the header records for the sample data: two bytes a sample,
/// modulo 2^32.
pub open spec fn data_size(n: nat) -> nat {
    (2 * n) % 0x1_0000_0000
}

/// A whole WAV file of the samples.
pub open spec fn wav_file(sample_rate: nat, samples: Seq<i16>) -> Seq<u8> {
    wav_header(sample_rate, data_size(samples.len()) + 36, data_size(samples.len())) + sample_bytes(
        samples,
    )
}

/// The bytes of a streamed chunk: a header whose sizes read `u32::MAX`
/// (unknown) when it is the first, then the samples.
pub open spec fn wav_chunk(sample_rate: nat, samples: Seq<i16>, include_header: bool) -> Seq<u8> {
    (if include_header {
        wav_header(sample_rate, 0xffff_ffff, 0xffff_ffff)
    } else {
        Seq::empty()
    }) + sample_bytes(samples)
}

/// Appends the little-endian bytes of `x`.
fn push_le32(out: &mut Vec<u8>, x: u32)
    ensures
        final(out)@ == old(out)@ + le32(x as nat),
{
    out.push((x % 256) as u8);
    out.push(((x / 256) % 256) as u8);
    out.push(((x / 65536) % 256) as u8);
    out.push(((x / 16777216) % 256) as u8);
    assert(final(out)@ =~= old(out)@ + le32(x as nat));
}

/// Appends the little-endian bytes of `x`.
fn push_le16(out: &mut Vec<u8>, x: u32)
    requires
        x < 65536,
    ensures
        final(out)@ == old(out)@ + le16(x as nat),
{
    out.push((x % 256) as u8);
    out.push(((x / 256) % 256) as u8);
    assert(final(out)@ =~= old(out)@ + le16(x as nat));
}

/// Appends four tag bytes.
fn push_tag(out: &mut Vec<u8>, a: u8, b: u8, c: u8, d: u8)
    ensures
        final(out)@ == old(out)@ + seq![a, b, c, d],
{
    out.push(a);
    out.push(b);
    out.push(c);
    out.push(d);
    assert(final(out)@ =~= old(out)@ + seq![a, b, c, d]);
}

/// Appends the header (see `wav_header`).
fn push_header(out: &mut Vec<u8>, sample_rate: u32, chunk_size: u32, data_len: u32)
    requires
        sample_rate * 2 <= u32::MAX,
    ensures
        final(out)@ == old(out)@ + wav_header(sample_rate as nat, chunk_size as nat, data_len as nat),
{
    push_tag(out, 82, 73, 70, 70);
    push_le32(out, chunk_size);
    push_tag(out, 87, 65, 86, 69);
    push_tag(out, 102, 109, 116, 32);
    push_le32(out, 16);
    push_le16(out, 1);
    push_le16(out, 1);
    push_le32(out, sample_rate);
    push_le32(out, sample_rate * 2);
    push_le16(out, 2);
    push_le16(out, 16);
    push_tag(out, 100, 97, 116, 97);
    push_le32(out, data_len);
    assert(final(out)@ =~= old(out)@ + wav_header(
        sample_rate as nat,
        chunk_size as nat,
        data_len as nat,
    ));
}

/// Appends the bytes of the samples.
fn push_samples(out: &mut Vec<u8>, samples: &Vec<i16>)
    ensures
        final(out)@ == old(out)@ + sample_bytes(samples@),
{
    let ghost start = out@;
    let mut i: usize = 0;
    assert(samples@.take(0) =~= Seq::<i16>::empty());
    assert(start + sample_bytes(Seq::<i16>::empty()) =~= start);
    while i < samples.len()
        invariant
            0 <= i <= samples@.len(),
            out@ == start + sample_bytes(samples@.take(i as int)),
        decreases samples@.len() - i,
    {
        let s = samples[i];
        let u: u32 = if s < 0 {
            (s as i32 + 65536) as u32
        } else {
            s as u32
        };
        push_le16(out, u);
        assert(samples@.take(i + 1).drop_last() =~= samples@.take(i as int));
        assert(samples@.take(i + 1).last() == s);
        assert(out@ =~= start + sample_bytes(samples@.take(i + 1)));
        i = i + 1;
    }
    assert(samples@.take(i as int) =~= samples@);
}

/// A whole WAV file of 16-bit mono samples at `sample_rate` (see `wav_file`).
pub fn wav_bytes(samples: &Vec<i16>, sample_rate: u32) -> (r: Vec<u8>)
    requires
        sample_rate * 2 <= u32::MAX,
        data_size(samples@.len()) + 36 <= u32::MAX,
    ensures
        r@ == wav_file(sample_rate as nat, samples@),
{
    let n = samples.len() as u128;
    let data_len = ((n * 2) % 0x1_0000_0000) as u32;
    let mut out: Vec<u8> = Vec::new();
    push_header(&mut out, sample_rate, data_len + 36, data_len);
    push_samples(&mut out, samples);
    assert(out@ =~= wav_file(sample_rate as nat, samples@));
    out
}

/// A streamed chunk of 16-bit mono samples (see `wav_chunk`).
pub fn wav_chunk_bytes(samples: &Vec<i16>, sample_rate: u32, include_header: bool) -> (r: Vec<u8>)
    requires
        include_header ==> sample_rate * 2 <= u32::MAX,
    ensures
        r@ == wav_chunk(sample_rate as nat, samples@, include_header),
{
    let mut out: Vec<u8> = Vec::new();
    if include_header {
        push_header(&mut out, sample_rate, 0xffff_ffff, 0xffff_ffff);
    }
    push_samples(&mut out, samples);
    assert(out@ =~= wav_chunk(sample_rate as nat, samples@, include_header));
    out
}

/// Each sample takes two bytes.
pub proof fn lemma_sample_bytes_len(samples: Seq<i16>)
    ensures
        sample_bytes(samples).len() == 2 * samples.len(),
    decreases samples.len(),
{
    if samples.len() > 0 {
        lemma_sample_bytes_len(samples.drop_last());
    }
}

/// A WAV file is its 44-byte header and two bytes a sample, and the header
/// tells the truth about it: the data size field holds twice the number of
/// samples and the RIFF size field holds the file's length less eight (for
/// files under 4 GiB), and the sample rate and byte rate are recorded at
/// their offsets.
pub proof fn lemma_wav_header_fields(sample_rate: nat, samples: Seq<i16>)
    requires
        2 * samples.len() + 36 <= 0xffff_ffff,
    ensures
        wav_file(sample_rate, samples).len() == 44 + 2 * samples.len(),
        wav_file(sample_rate, samples).subrange(0, 4) == riff_tag(),
        wav_file(sample_rate, samples).subrange(4, 8) == le32(
            (wav_file(sample_rate, samples).len() - 8) as nat,
        ),
        wav_file(sample_rate, samples).subrange(24, 28) == le32(sample_rate),
        wav_file(sample_rate, samples).subrange(28, 32) == le32(sample_rate * 2),
        wav_file(sample_rate, samples).subrange(40, 44) == le32(2 * samples.len()),
        wav_file(sample_rate, samples).skip(44) == sample_bytes(samples),
{
    lemma_sample_bytes_len(samples);
    let n = samples.len();
    assert(data_size(n) == 2 * n);
    let f = wav_file(sample_rate, samples);
    let h = wav_header(sample_rate, 2 * n + 36, 2 * n);
    assert(h.len() == 44);
    assert(f == h + sample_bytes(samples));
    assert(f.subrange(0, 4) =~= riff_tag());
    assert(f.subrange(4, 8) =~= le32(2 * n + 36));
    assert(f.subrange(24, 28) =~= le32(sample_rate));
    assert(f.subrange(28, 32) =~= le32(sample_rate * 2));
    assert(f.subrange(40, 44) =~= le32(2 * n));
    assert(f.skip(44) =~= sample_bytes(samples));
}

} // verus!
