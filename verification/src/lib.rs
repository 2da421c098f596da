//! Encoder from quantized stereo PCM samples to a RIFF/WAVE byte buffer.
//!
//! The container holds a fixed 44-byte header (RIFF chunk, "fmt " subchunk,
//! "data" subchunk preamble) followed by the interleaved sample data, all
//! little-endian. Samples arrive already quantized to one of four PCM widths
//! (8, 16, 24 or 32 bits per channel); turning floating-point amplitudes into
//! those integers is the caller's business.

use vstd::prelude::*;

verus! {

/// The little-endian byte pair of a 16-bit value.
pub open spec fn le16(v: u16) -> Seq<u8> {
    seq![(v & 0xff) as u8, ((v >> 8) & 0xff) as u8]
}

/// The four little-endian bytes of a 32-bit value.
pub open spec fn le32(v: u32) -> Seq<u8> {
    seq![
        (v & 0xff) as u8,
        ((v >> 8) & 0xff) as u8,
        ((v >> 16) & 0xff) as u8,
        ((v >> 24) & 0xff) as u8,
    ]
}

/// The three bytes of a 24-bit PCM sample taken from a 32-bit intermediate:
/// the two low bytes as they are, then bits 16..=22 of `v` joined with the
/// sign bit (bit 31), so the sign survives while the top byte is discarded.
pub open spec fn pack24(v: i32) -> Seq<u8> {
    seq![
        (v & 0xff) as u8,
        ((v >> 8) & 0xff) as u8,
        (((v >> 16) & 0x7f) | ((v >> 24) & 0x80)) as u8,
    ]
}

/// The bytes one channel of a sample contributes, for each PCM width.
/// An 8-bit sample is the offset-encoded value itself; 16- and 32-bit
/// samples are little-endian two's complement; 24-bit samples go through
/// `pack24`. Widths other than 8, 16, 24 and 32 never reach this.
pub open spec fn channel_bytes(v: i32, bit_depth: u16) -> Seq<u8> {
    if bit_depth == 8 {
        seq![(v & 0xff) as u8]
    } else if bit_depth == 16 {
        seq![(v & 0xff) as u8, ((v >> 8) & 0xff) as u8]
    } else if bit_depth == 24 {
        pack24(v)
    } else {
        seq![
            (v & 0xff) as u8,
            ((v >> 8) & 0xff) as u8,
            ((v >> 16) & 0xff) as u8,
            ((v >> 24) & 0xff) as u8,
        ]
    }
}

/// The data subchunk body: for each pair, the left channel's bytes then the
/// right channel's bytes, pairs in order.
pub open spec fn data_bytes(pairs: Seq<(i32, i32)>, bit_depth: u16) -> Seq<u8>
    decreases pairs.len(),
{
    if pairs.len() == 0 {
        Seq::empty()
    } else {
        data_bytes(pairs.drop_last(), bit_depth) + channel_bytes(pairs.last().0, bit_depth)
            + channel_bytes(pairs.last().1, bit_depth)
    }
}

/// Appends the two little-endian bytes of `v`.
fn push_le16(out: &mut Vec<u8>, v: u16)
    ensures
        final(out)@ == old(out)@ + le16(v),
{
    out.push((v & 0xff) as u8);
    out.push(((v >> 8) & 0xff) as u8);
    proof {
        assert(out@ =~= old(out)@ + le16(v));
    }
}

/// Appends the four little-endian bytes of `v`.
fn push_le32(out: &mut Vec<u8>, v: u32)
    ensures
        final(out)@ == old(out)@ + le32(v),
{
    out.push((v & 0xff) as u8);
    out.push(((v >> 8) & 0xff) as u8);
    out.push(((v >> 16) & 0xff) as u8);
    out.push(((v >> 24) & 0xff) as u8);
    proof {
        assert(out@ =~= old(out)@ + le32(v));
    }
}

/// The PCM widths the container supports.
pub open spec fn valid_bit_depth(bit_depth: u16) -> bool {
    bit_depth == 8 || bit_depth == 16 || bit_depth == 24 || bit_depth == 32
}

/// A finite sequence of stereo sample pairs, already quantized to one of the
/// four PCM widths. The variant fixes the width: 8-bit samples are unsigned
/// and offset-encoded, the others signed. 24-bit samples are carried in the
/// 32-bit intermediate they were quantized into; packing to three bytes
/// happens at encoding time.
pub enum QuantizedSamples {
    D8(Vec<(u8, u8)>),
    D16(Vec<(i16, i16)>),
    D24(Vec<(i32, i32)>),
    D32(Vec<(i32, i32)>),
}

impl QuantizedSamples {
    /// The sample pairs, each channel widened to the 32-bit value whose low
    /// bits are the channel's PCM bits (8-bit zero-extends, 16-bit
    /// sign-extends, which keeps those low bits unchanged).
    pub open spec fn pairs(&self) -> Seq<(i32, i32)> {
        match self {
            QuantizedSamples::D8(v) => v@.map_values(|p: (u8, u8)| (p.0 as i32, p.1 as i32)),
            QuantizedSamples::D16(v) => v@.map_values(|p: (i16, i16)| (p.0 as i32, p.1 as i32)),
            QuantizedSamples::D24(v) => v@,
            QuantizedSamples::D32(v) => v@,
        }
    }

    /// The PCM width, in bits per channel, that the variant carries.
    pub open spec fn bit_depth_spec(&self) -> u16 {
        match self {
            QuantizedSamples::D8(_) => 8,
            QuantizedSamples::D16(_) => 16,
            QuantizedSamples::D24(_) => 24,
            QuantizedSamples::D32(_) => 32,
        }
    }

    pub fn bit_depth(&self) -> (d: u16)
        ensures
            d == self.bit_depth_spec(),
            valid_bit_depth(d),
    {
        match self {
            QuantizedSamples::D8(_) => 8,
            QuantizedSamples::D16(_) => 16,
            QuantizedSamples::D24(_) => 24,
            QuantizedSamples::D32(_) => 32,
        }
    }

    pub fn len(&self) -> (n: usize)
        ensures
            n == self.pairs().len(),
    {
        match self {
            QuantizedSamples::D8(v) => v.len(),
            QuantizedSamples::D16(v) => v.len(),
            QuantizedSamples::D24(v) => v.len(),
            QuantizedSamples::D32(v) => v.len(),
        }
    }
}

/// Each channel contributes `bit_depth / 8` bytes, so a pair sequence's data
/// is exactly `2 * (bit_depth / 8)` bytes per pair.
pub proof fn lemma_data_bytes_len(pairs: Seq<(i32, i32)>, bit_depth: u16)
    requires
        valid_bit_depth(bit_depth),
    ensures
        data_bytes(pairs, bit_depth).len() == pairs.len() * 2 * (bit_depth / 8),
    decreases pairs.len(),
{
    let bd = (bit_depth / 8) as int;
    let n = pairs.len() as int;
    if pairs.len() > 0 {
        lemma_data_bytes_len(pairs.drop_last(), bit_depth);
        assert(channel_bytes(pairs.last().0, bit_depth).len() == bd);
        assert(channel_bytes(pairs.last().1, bit_depth).len() == bd);
        assert(pairs.drop_last().len() == n - 1);
        assert(data_bytes(pairs, bit_depth).len() == (n - 1) * 2 * bd + bd + bd);
        assert((n - 1) * 2 * bd + bd + bd == n * 2 * bd) by (nonlinear_arith);
    } else {
        assert(data_bytes(pairs, bit_depth).len() == 0);
        assert(n * 2 * bd == 0) by (nonlinear_arith)
            requires
                n == 0,
        ;
    }
    assert(pairs.len() * 2 * (bit_depth / 8) == n * 2 * bd);
}

/// The 44-byte container header: RIFF chunk preamble, "fmt " subchunk for
/// two-channel PCM, and the "data" subchunk tag with its length. The casts
/// truncate to the fields' 32- and 16-bit widths, as the format dictates.
pub open spec fn wav_header(sample_count: u32, sample_rate: u32, bit_depth: u16) -> Seq<u8> {
    let byte_depth = (bit_depth / 8) as u32;
    let data_length = (sample_count * 2 * byte_depth) as u32;
    seq![0x52u8, 0x49u8, 0x46u8, 0x46u8]  // "RIFF"
    + le32((36 + data_length) as u32)  // ChunkSize: total file size minus 8
    + seq![0x57u8, 0x41u8, 0x56u8, 0x45u8]  // "WAVE"
    + seq![0x66u8, 0x6du8, 0x74u8, 0x20u8]  // "fmt "
    + le32(16)  // Subchunk1Size for PCM
    + le16(1)  // AudioFormat: PCM
    + le16(2)  // NumChannels: stereo
    + le32(sample_rate)
    + le32((sample_rate * 2 * byte_depth) as u32)  // ByteRate
    + le16((2 * byte_depth) as u16)  // BlockAlign
    + le16(bit_depth)  // BitsPerSample
    + seq![0x64u8, 0x61u8, 0x74u8, 0x61u8]  // "data"
    + le32(data_length)
}

/// Appends one 8-bit channel sample: the offset-encoded byte itself.
fn push_sample_8(out: &mut Vec<u8>, v: u8)
    ensures
        final(out)@ == old(out)@ + channel_bytes(v as i32, 8),
{
    out.push(v);
    proof {
        assert(((v as i32) & 0xff) as u8 == v) by (bit_vector);
        assert(out@ =~= old(out)@ + channel_bytes(v as i32, 8));
    }
}

/// Appends one 16-bit channel sample, little-endian.
fn push_sample_16(out: &mut Vec<u8>, v: i16)
    ensures
        final(out)@ == old(out)@ + channel_bytes(v as i32, 16),
{
    let b0: u8 = (v & 0xff) as u8;
    let b1: u8 = ((v >> 8) & 0xff) as u8;
    out.push(b0);
    out.push(b1);
    proof {
        assert((v & 0xff) as u8 == ((v as i32) & 0xff) as u8 && ((v >> 8) & 0xff) as u8 == ((
        (v as i32) >> 8) & 0xff) as u8) by (bit_vector);
        assert(out@ =~= old(out)@ + channel_bytes(v as i32, 16));
    }
}

/// Appends one 24-bit channel sample: the three bytes of `pack24`.
pub fn push_sample_24(out: &mut Vec<u8>, v: i32)
    ensures
        final(out)@ == old(out)@ + channel_bytes(v, 24),
{
    let b0: u8 = (v & 0xff) as u8;
    let b1: u8 = ((v >> 8) & 0xff) as u8;
    let b2: u8 = (((v >> 16) & 0x7f) | ((v >> 24) & 0x80)) as u8;
    out.push(b0);
    out.push(b1);
    out.push(b2);
    proof {
        assert(out@ =~= old(out)@ + channel_bytes(v, 24));
    }
}

/// Appends one 32-bit channel sample, little-endian.
fn push_sample_32(out: &mut Vec<u8>, v: i32)
    ensures
        final(out)@ == old(out)@ + channel_bytes(v, 32),
{
    let b0: u8 = (v & 0xff) as u8;
    let b1: u8 = ((v >> 8) & 0xff) as u8;
    let b2: u8 = ((v >> 16) & 0xff) as u8;
    let b3: u8 = ((v >> 24) & 0xff) as u8;
    out.push(b0);
    out.push(b1);
    out.push(b2);
    out.push(b3);
    proof {
        assert(out@ =~= old(out)@ + channel_bytes(v, 32));
    }
}

/// Encoding one more pair appends that pair's channel bytes and nothing else.
proof fn lemma_data_bytes_snoc(pairs: Seq<(i32, i32)>, i: int, bit_depth: u16)
    requires
        0 <= i < pairs.len(),
    ensures
        data_bytes(pairs.subrange(0, i + 1), bit_depth) == data_bytes(
            pairs.subrange(0, i),
            bit_depth,
        ) + channel_bytes(pairs[i].0, bit_depth) + channel_bytes(pairs[i].1, bit_depth),
{
    let s = pairs.subrange(0, i + 1);
    assert(s.drop_last() =~= pairs.subrange(0, i));
    assert(s.last() == pairs[i]);
}

/// Appends the data subchunk body for 8-bit samples.
fn append_data_8(out: &mut Vec<u8>, v: &Vec<(u8, u8)>)
    ensures
        final(out)@ == old(out)@ + data_bytes(
            v@.map_values(|p: (u8, u8)| (p.0 as i32, p.1 as i32)),
            8,
        ),
{
    let ghost pairs = v@.map_values(|p: (u8, u8)| (p.0 as i32, p.1 as i32));
    for i in 0..v.len()
        invariant
            pairs == v@.map_values(|p: (u8, u8)| (p.0 as i32, p.1 as i32)),
            out@ == old(out)@ + data_bytes(pairs.subrange(0, i as int), 8),
    {
        let (l, r) = v[i];
        push_sample_8(out, l);
        push_sample_8(out, r);
        proof {
            lemma_data_bytes_snoc(pairs, i as int, 8);
            assert(out@ =~= old(out)@ + data_bytes(pairs.subrange(0, i + 1), 8));
        }
    }
    proof {
        assert(pairs.subrange(0, pairs.len() as int) =~= pairs);
    }
}

/// Appends the data subchunk body for 16-bit samples.
fn append_data_16(out: &mut Vec<u8>, v: &Vec<(i16, i16)>)
    ensures
        final(out)@ == old(out)@ + data_bytes(
            v@.map_values(|p: (i16, i16)| (p.0 as i32, p.1 as i32)),
            16,
        ),
{
    let ghost pairs = v@.map_values(|p: (i16, i16)| (p.0 as i32, p.1 as i32));
    for i in 0..v.len()
        invariant
            pairs == v@.map_values(|p: (i16, i16)| (p.0 as i32, p.1 as i32)),
            out@ == old(out)@ + data_bytes(pairs.subrange(0, i as int), 16),
    {
        let (l, r) = v[i];
        push_sample_16(out, l);
        push_sample_16(out, r);
        proof {
            lemma_data_bytes_snoc(pairs, i as int, 16);
            assert(out@ =~= old(out)@ + data_bytes(pairs.subrange(0, i + 1), 16));
        }
    }
    proof {
        assert(pairs.subrange(0, pairs.len() as int) =~= pairs);
    }
}

/// Appends the data subchunk body for 24-bit samples.
fn append_data_24(out: &mut Vec<u8>, v: &Vec<(i32, i32)>)
    ensures
        final(out)@ == old(out)@ + data_bytes(v@, 24),
{
    for i in 0..v.len()
        invariant
            out@ == old(out)@ + data_bytes(v@.subrange(0, i as int), 24),
    {
        let (l, r) = v[i];
        push_sample_24(out, l);
        push_sample_24(out, r);
        proof {
            lemma_data_bytes_snoc(v@, i as int, 24);
            assert(out@ =~= old(out)@ + data_bytes(v@.subrange(0, i + 1), 24));
        }
    }
    proof {
        assert(v@.subrange(0, v@.len() as int) =~= v@);
    }
}

/// Appends the data subchunk body for 32-bit samples.
fn append_data_32(out: &mut Vec<u8>, v: &Vec<(i32, i32)>)
    ensures
        final(out)@ == old(out)@ + data_bytes(v@, 32),
{
    for i in 0..v.len()
        invariant
            out@ == old(out)@ + data_bytes(v@.subrange(0, i as int), 32),
    {
        let (l, r) = v[i];
        push_sample_32(out, l);
        push_sample_32(out, r);
        proof {
            lemma_data_bytes_snoc(v@, i as int, 32);
            assert(out@ =~= old(out)@ + data_bytes(v@.subrange(0, i + 1), 32));
        }
    }
    proof {
        assert(v@.subrange(0, v@.len() as int) =~= v@);
    }
}

/// The header's fixed tags and derived fields, read off its layout: the four
/// literal tags sit at offsets 0, 8, 12 and 36, the ByteRate and BlockAlign
/// fields at 28 and 32.
proof fn lemma_wav_header_fields(sample_count: u32, sample_rate: u32, bit_depth: u16)
    ensures
        wav_header(sample_count, sample_rate, bit_depth).len() == 44,
        wav_header(sample_count, sample_rate, bit_depth).subrange(0, 4) == seq![
            0x52u8,
            0x49u8,
            0x46u8,
            0x46u8,
        ],
        wav_header(sample_count, sample_rate, bit_depth).subrange(8, 12) == seq![
            0x57u8,
            0x41u8,
            0x56u8,
            0x45u8,
        ],
        wav_header(sample_count, sample_rate, bit_depth).subrange(12, 16) == seq![
            0x66u8,
            0x6du8,
            0x74u8,
            0x20u8,
        ],
        wav_header(sample_count, sample_rate, bit_depth).subrange(36, 40) == seq![
            0x64u8,
            0x61u8,
            0x74u8,
            0x61u8,
        ],
        wav_header(sample_count, sample_rate, bit_depth).subrange(28, 32) == le32(
            (sample_rate * 2 * ((bit_depth / 8) as u32)) as u32,
        ),
        wav_header(sample_count, sample_rate, bit_depth).subrange(32, 34) == le16(
            (2 * ((bit_depth / 8) as u32)) as u16,
        ),
{
    let h = wav_header(sample_count, sample_rate, bit_depth);
    assert(h.subrange(0, 4) =~= seq![0x52u8, 0x49u8, 0x46u8, 0x46u8]);
    assert(h.subrange(8, 12) =~= seq![0x57u8, 0x41u8, 0x56u8, 0x45u8]);
    assert(h.subrange(12, 16) =~= seq![0x66u8, 0x6du8, 0x74u8, 0x20u8]);
    assert(h.subrange(36, 40) =~= seq![0x64u8, 0x61u8, 0x74u8, 0x61u8]);
    assert(h.subrange(28, 32) =~= le32((sample_rate * 2 * ((bit_depth / 8) as u32)) as u32));
    assert(h.subrange(32, 34) =~= le16((2 * ((bit_depth / 8) as u32)) as u16));
}

/// Appends the 44-byte container header.
fn push_header(out: &mut Vec<u8>, sample_count: u32, sample_rate: u32, bit_depth: u16)
    requires
        valid_bit_depth(bit_depth),
        36 + sample_count * 2 * (bit_depth / 8) <= u32::MAX,
        sample_rate * 2 * (bit_depth / 8) <= u32::MAX,
    ensures
        final(out)@ == old(out)@ + wav_header(sample_count, sample_rate, bit_depth),
{
    let byte_depth: u32 = (bit_depth / 8) as u32;
    proof {
        let sc = sample_count as int;
        let sr = sample_rate as int;
        let bd = byte_depth as int;
        assert(sc * 2 <= sc * 2 * bd && sc * 2 * bd == (sc * 2) * bd && sr * 2 <= sr * 2 * bd
            && sr * 2 * bd == (sr * 2) * bd) by (nonlinear_arith)
            requires
                sc >= 0 && sr >= 0 && bd >= 1,
        ;
    }
    let data_length: u32 = sample_count * 2 * byte_depth;

    // RIFF chunk preamble
    out.push(0x52);  // 'R'
    out.push(0x49);  // 'I'
    out.push(0x46);  // 'F'
    out.push(0x46);  // 'F'
    push_le32(out, 36 + data_length);  // ChunkSize
    out.push(0x57);  // 'W'
    out.push(0x41);  // 'A'
    out.push(0x56);  // 'V'
    out.push(0x45);  // 'E'

    // "fmt " subchunk
    out.push(0x66);  // 'f'
    out.push(0x6d);  // 'm'
    out.push(0x74);  // 't'
    out.push(0x20);  // ' '
    push_le32(out, 16);  // Subchunk1Size
    push_le16(out, 1);  // AudioFormat: PCM
    push_le16(out, 2);  // NumChannels: stereo
    push_le32(out, sample_rate);
    push_le32(out, sample_rate * 2 * byte_depth);  // ByteRate
    push_le16(out, 2 * (bit_depth / 8));  // BlockAlign
    push_le16(out, bit_depth);  // BitsPerSample

    // "data" subchunk
    out.push(0x64);  // 'd'
    out.push(0x61);  // 'a'
    out.push(0x74);  // 't'
    out.push(0x61);  // 'a'
    push_le32(out, data_length);

    proof {
        assert(out@ =~= old(out)@ + wav_header(sample_count, sample_rate, bit_depth));
    }
}

/// Wraps a quantized stereo sample stream in a RIFF/WAVE container.
///
/// The result is the 44-byte header followed by the interleaved channel
/// bytes, and nothing else. The two `requires` keep the 32-bit ChunkSize
/// and ByteRate fields from overflowing, a limit of the format itself.
pub fn wrap_as_wav(samples: &QuantizedSamples, sample_rate: u32) -> (out: Vec<u8>)
    requires
        36 + samples.pairs().len() * 2 * (samples.bit_depth_spec() / 8) <= u32::MAX,
        sample_rate * 2 * (samples.bit_depth_spec() / 8) <= u32::MAX,
    ensures
        out@ == wav_header(samples.pairs().len() as u32, sample_rate, samples.bit_depth_spec())
            + data_bytes(samples.pairs(), samples.bit_depth_spec()),
        out@.len() == 44 + samples.pairs().len() * 2 * (samples.bit_depth_spec() / 8),
        out@.subrange(0, 4) == seq![0x52u8, 0x49u8, 0x46u8, 0x46u8],  // "RIFF"
        out@.subrange(8, 12) == seq![0x57u8, 0x41u8, 0x56u8, 0x45u8],  // "WAVE"
        out@.subrange(12, 16) == seq![0x66u8, 0x6du8, 0x74u8, 0x20u8],  // "fmt "
        out@.subrange(36, 40) == seq![0x64u8, 0x61u8, 0x74u8, 0x61u8],  // "data"
        out@.subrange(28, 32) == le32(
            (sample_rate * 2 * (samples.bit_depth_spec() / 8)) as u32,
        ),  // ByteRate
        out@.subrange(32, 34) == le16((2 * (samples.bit_depth_spec() / 8)) as u16),  // BlockAlign
{
    let bit_depth: u16 = samples.bit_depth();
    let n: usize = samples.len();
    proof {
        let len = samples.pairs().len() as int;
        let bd = (samples.bit_depth_spec() / 8) as int;
        assert(len <= len * 2 * bd) by (nonlinear_arith)
            requires
                len >= 0 && bd >= 1,
        ;
    }
    let sample_count: u32 = n as u32;

    let mut out: Vec<u8> = Vec::new();
    push_header(&mut out, sample_count, sample_rate, bit_depth);

    match samples {
        QuantizedSamples::D8(v) => append_data_8(&mut out, v),
        QuantizedSamples::D16(v) => append_data_16(&mut out, v),
        QuantizedSamples::D24(v) => append_data_24(&mut out, v),
        QuantizedSamples::D32(v) => append_data_32(&mut out, v),
    }

    proof {
        let header = wav_header(sample_count, sample_rate, bit_depth);
        lemma_data_bytes_len(samples.pairs(), samples.bit_depth_spec());
        lemma_wav_header_fields(sample_count, sample_rate, bit_depth);
        assert(out@.subrange(0, 4) =~= header.subrange(0, 4));
        assert(out@.subrange(8, 12) =~= header.subrange(8, 12));
        assert(out@.subrange(12, 16) =~= header.subrange(12, 16));
        assert(out@.subrange(36, 40) =~= header.subrange(36, 40));
        assert(out@.subrange(28, 32) =~= header.subrange(28, 32));
        assert(out@.subrange(32, 34) =~= header.subrange(32, 34));
    }
    out
}

/// The 24-bit value held in three little-endian data bytes.
pub open spec fn unpack24(bytes: Seq<u8>) -> u32
    recommends
        bytes.len() == 3,
{
    (bytes[0] as u32) | ((bytes[1] as u32) << 8) | ((bytes[2] as u32) << 16)
}

/// Sign-extends a 24-bit value to the 32-bit integer it denotes.
pub open spec fn sign_extend24(v: u32) -> i32 {
    if v >= 0x80_0000 {
        (v | 0xff00_0000) as i32
    } else {
        v as i32
    }
}

/// Packing a 32-bit intermediate into three bytes and sign-extending them
/// back is the identity on every value that fits in 24 bits: the
/// reconstructed high byte loses nothing but the unused top byte.
pub proof fn lemma_pack24_round_trip(v: i32)
    requires
        -0x80_0000 <= v < 0x80_0000,
    ensures
        sign_extend24(unpack24(pack24(v))) == v,
{
    let b0 = (v & 0xff) as u8;
    let b1 = ((v >> 8) & 0xff) as u8;
    let b2 = (((v >> 16) & 0x7f) | ((v >> 24) & 0x80)) as u8;
    assert(pack24(v) == seq![b0, b1, b2]);
    assert(seq![b0, b1, b2][0] == b0 && seq![b0, b1, b2][1] == b1 && seq![b0, b1, b2][2] == b2);
    let u = (b0 as u32) | ((b1 as u32) << 8) | ((b2 as u32) << 16);
    assert(unpack24(seq![b0, b1, b2]) == u);
    assert((if u >= 0x80_0000 {
        (u | 0xff00_0000) as i32
    } else {
        u as i32
    }) == v) by (bit_vector)
        requires
            b0 == (v & 0xff) as u8 && b1 == ((v >> 8) & 0xff) as u8 && b2 == (((v >> 16) & 0x7f) | (
            (v >> 24) & 0x80)) as u8 && u == (b0 as u32) | ((b1 as u32) << 8) | ((b2 as u32) << 16)
                && -0x80_0000 <= v < 0x80_0000,
    ;
}

} // verus!
