use vstd::prelude::*;

verus! {

/// Channels in the files written: mono.
pub const CHANNELS: u16 = 1;

/// Samples per second of each channel.
pub const SAMPLES_PER_SECOND: u32 = 44100;

/// Bits in one sample.
pub const BITS_PER_SAMPLE: u16 = 16;

/// Bytes per second: channels times samples per second times bytes per
/// sample.
pub const AVG_BYTES_PER_SECOND: u32 = 88200;

/// Bytes in one sample frame: channels times bits per sample over eight.
pub const BLOCK_ALIGN: u16 = 2;

/// The format category of uncompressed PCM data.
pub const FORMAT_PCM: u16 = 1;

/// The two bytes of a 16-bit value, least significant first.
pub open spec fn le16(x: u16) -> Seq<u8> {
    seq![(x % 256) as u8, (x / 256) as u8]
}

/// The four bytes of a 32-bit value, least significant first.
pub open spec fn le32(x: u32) -> Seq<u8> {
    seq![
        (x % 256) as u8,
        ((x / 256) % 256) as u8,
        ((x / 65536) % 256) as u8,
        (x / 16777216) as u8,
    ]
}

/// The value of the two bytes at `at`, least significant first.
pub open spec fn read_le16(b: Seq<u8>, at: int) -> nat {
    (b[at] + 256 * b[at + 1]) as nat
}

/// The value of the four bytes at `at`, least significant first.
pub open spec fn read_le32(b: Seq<u8>, at: int) -> nat {
    (b[at] + 256 * b[at + 1] + 65536 * b[at + 2] + 16777216 * b[at + 3]) as nat
}

/// The tag that opens a RIFF file.
pub open spec fn riff_tag() -> Seq<u8> {
    seq![0x52u8, 0x49u8, 0x46u8, 0x46u8]
}

/// The form type of a WAVE file.
pub open spec fn wave_tag() -> Seq<u8> {
    seq![0x57u8, 0x41u8, 0x56u8, 0x45u8]
}

/// The tag of the format chunk.
pub open spec fn fmt_tag() -> Seq<u8> {
    seq![0x66u8, 0x6du8, 0x74u8, 0x20u8]
}

/// The tag of the data chunk.
pub open spec fn data_tag() -> Seq<u8> {
    seq![0x64u8, 0x61u8, 0x74u8, 0x61u8]
}

/// A chunk: its tag, the length of its body (kept to its low 32 bits), and
/// the body.
pub open spec fn spec_chunk(fourcc: Seq<u8>, body: Seq<u8>) -> Seq<u8> {
    fourcc + le32((body.len() % 0x1_0000_0000) as u32) + body
}

/// The body of the format chunk: PCM, mono, 44100 samples per second,
/// 88200 bytes per second, two bytes per frame, sixteen bits per sample.
pub open spec fn spec_format_body() -> Seq<u8> {
    le16(FORMAT_PCM) + le16(CHANNELS) + le32(SAMPLES_PER_SECOND) + le32(AVG_BYTES_PER_SECOND)
        + le16(BLOCK_ALIGN) + le16(BITS_PER_SAMPLE)
}

/// The length of the sample data that the header announces for
/// `total_samples` samples: two bytes each, kept to its low 32 bits.
pub open spec fn spec_data_len(total_samples: nat) -> u32 {
    ((total_samples * 2) % 0x1_0000_0000) as u32
}

/// The header of a WAV file of `total_samples` samples: the RIFF tag, the
/// RIFF length (the length of the file after it: the data length plus 36),
/// the WAVE tag, the format chunk and
/// the head of the data chunk.
pub open spec fn spec_wav_header(total_samples: nat) -> Seq<u8> {
    let data_len: u32 = spec_data_len(total_samples);
    riff_tag() + le32((data_len + 36) as u32) + wave_tag() + spec_chunk(
        fmt_tag(),
        spec_format_body(),
    ) + data_tag() + le32(data_len)
}

/// The bytes of `x` in little-endian order: the low byte first, then the
/// high byte. They read back as `x`.
fn le_u16_bytes(x: u16) -> (b: [u8; 2])
    ensures
        b@ == le16(x),
        read_le16(b@, 0) == x,
{
    let b: [u8; 2] = [(x % 256) as u8, (x / 256) as u8];
    assert(b@ =~= le16(x));
    proof {
        lemma_le16_round_trip(x);
    }
    b
}

/// The bytes of `x` in little-endian order, from the lowest byte to the
/// highest. They read back as `x`.
fn le_u32_bytes(x: u32) -> (b: [u8; 4])
    ensures
        b@ == le32(x),
        read_le32(b@, 0) == x,
{
    let b: [u8; 4] = [
        (x % 256) as u8,
        ((x / 256) % 256) as u8,
        ((x / 65536) % 256) as u8,
        (x / 16777216) as u8,
    ];
    assert(b@ =~= le32(x));
    proof {
        lemma_le32_round_trip(x);
    }
    b
}

/// Appends the bytes of `s` to `out`.
fn append_bytes(out: &mut Vec<u8>, s: &[u8])
    ensures
        final(out)@ == old(out)@ + s@,
{
    let mut i: usize = 0;
    while i < s.len()
        invariant
            i <= s@.len(),
            out@ == old(out)@ + s@.subrange(0, i as int),
        decreases s@.len() - i,
    {
        out.push(s[i]);
        i = i + 1;
        assert(out@ =~= old(out)@ + s@.subrange(0, i as int));
    }
    assert(s@.subrange(0, s@.len() as int) =~= s@);
}

/// The body of the format chunk, as laid out in a WAV file.
pub fn format_chunk_body() -> (b: Vec<u8>)
    ensures
        b@ == spec_format_body(),
        b@.len() == 16,
        read_le16(b@, 0) == 1,
        read_le16(b@, 2) == 1,
        read_le32(b@, 4) == 44100,
        read_le32(b@, 8) == 88200,
        read_le16(b@, 12) == 2,
        read_le16(b@, 14) == 16,
{
    let mut b: Vec<u8> = Vec::new();
    append_bytes(&mut b, &le_u16_bytes(FORMAT_PCM));
    append_bytes(&mut b, &le_u16_bytes(CHANNELS));
    append_bytes(&mut b, &le_u32_bytes(SAMPLES_PER_SECOND));
    append_bytes(&mut b, &le_u32_bytes(AVG_BYTES_PER_SECOND));
    append_bytes(&mut b, &le_u16_bytes(BLOCK_ALIGN));
    append_bytes(&mut b, &le_u16_bytes(BITS_PER_SAMPLE));
    assert(b@ =~= spec_format_body());
    proof {
        lemma_le16_round_trip(FORMAT_PCM);
        lemma_le16_round_trip(CHANNELS);
        lemma_le32_round_trip(SAMPLES_PER_SECOND);
        lemma_le32_round_trip(AVG_BYTES_PER_SECOND);
        lemma_le16_round_trip(BLOCK_ALIGN);
        lemma_le16_round_trip(BITS_PER_SAMPLE);
        assert(b@.subrange(0, 2) =~= le16(FORMAT_PCM));
        assert(b@.subrange(2, 4) =~= le16(CHANNELS));
        assert(b@.subrange(4, 8) =~= le32(SAMPLES_PER_SECOND));
        assert(b@.subrange(8, 12) =~= le32(AVG_BYTES_PER_SECOND));
        assert(b@.subrange(12, 14) =~= le16(BLOCK_ALIGN));
        assert(b@.subrange(14, 16) =~= le16(BITS_PER_SAMPLE));
    }
    b
}

/// Writes a chunk to `out`: its tag, the low 32 bits of the length of its
/// body in four little-endian bytes, then the body.
pub fn write_chunk(fourcc: [u8; 4], body: &[u8], out: &mut Vec<u8>)
    ensures
        final(out)@ == old(out)@ + spec_chunk(fourcc@, body@),
        ({
            let o = old(out)@;
            let n = final(out)@;
            &&& n.len() == o.len() + 8 + body@.len()
            &&& n.subrange(0, o.len() as int) == o
            &&& n.subrange(o.len() as int, o.len() + 4int) == fourcc@
            &&& read_le32(n, o.len() + 4int) == body@.len() % 0x1_0000_0000
            &&& n.subrange(o.len() + 8int, n.len() as int) == body@
        }),
{
    let ghost o = out@;
    let len32: u32 = (body.len() as u64 % 0x1_0000_0000u64) as u32;
    let len_bytes = le_u32_bytes(len32);
    append_bytes(out, &fourcc);
    append_bytes(out, &len_bytes);
    append_bytes(out, body);
    let ghost n = out@;
    assert(n =~= o + spec_chunk(fourcc@, body@));
    assert(n.subrange(0, o.len() as int) =~= o);
    assert(n.subrange(o.len() as int, o.len() + 4int) =~= fourcc@);
    assert(n.subrange(o.len() + 8int, n.len() as int) =~= body@);
    assert(read_le32(n, o.len() + 4int) == read_le32(len_bytes@, 0));
}

/// The header of a WAV file that will hold `total_samples` 16-bit mono
/// samples at 44100 samples per second.
pub fn wav_header(total_samples: usize) -> (h: Vec<u8>)
    requires
        total_samples * 2 <= usize::MAX,
        spec_data_len(total_samples as nat) + 36 <= u32::MAX,
    ensures
        h@ == spec_wav_header(total_samples as nat),
        h@.len() == 44,
        h@.subrange(0, 4) == riff_tag(),
        read_le32(h@, 4) == (total_samples * 2) % 0x1_0000_0000 + 36,
        h@.subrange(8, 12) == wave_tag(),
        h@.subrange(12, 16) == fmt_tag(),
        read_le32(h@, 16) == 16,
        read_le16(h@, 20) == 1,
        read_le16(h@, 22) == 1,
        read_le32(h@, 24) == 44100,
        read_le32(h@, 28) == 88200,
        read_le16(h@, 32) == 2,
        read_le16(h@, 34) == 16,
        h@.subrange(36, 40) == data_tag(),
        read_le32(h@, 40) == (total_samples * 2) % 0x1_0000_0000,
{
    let bytes: usize = total_samples * 2;
    let data_len: u32 = (bytes as u64 % 0x1_0000_0000u64) as u32;
    let format = format_chunk_body();
    // The tags are the ASCII codes of "RIFF", "WAVE", "fmt " and "data".
    let mut h: Vec<u8> = Vec::new();
    append_bytes(&mut h, &[0x52u8, 0x49, 0x46, 0x46]);
    append_bytes(&mut h, &le_u32_bytes(data_len + 5 * 4 + format.len() as u32));
    append_bytes(&mut h, &[0x57u8, 0x41, 0x56, 0x45]);
    write_chunk([0x66u8, 0x6d, 0x74, 0x20], format.as_slice(), &mut h);
    append_bytes(&mut h, &[0x64u8, 0x61, 0x74, 0x61]);
    append_bytes(&mut h, &le_u32_bytes(data_len));
    assert(h@ =~= spec_wav_header(total_samples as nat));
    proof {
        lemma_header_fields(total_samples as nat);
    }
    h
}


/// The byte rate and the frame size of the format follow from the channel
/// count, the sample rate and the sample width.
pub proof fn lemma_format_constants()
    ensures
        AVG_BYTES_PER_SECOND == CHANNELS * SAMPLES_PER_SECOND * (BITS_PER_SAMPLE / 8),
        BLOCK_ALIGN == CHANNELS * BITS_PER_SAMPLE / 8,
        AVG_BYTES_PER_SECOND == SAMPLES_PER_SECOND * BLOCK_ALIGN,
{
}

/// Reading back two little-endian bytes gives the value they were made from.
proof fn lemma_le16_round_trip(x: u16)
    ensures
        read_le16(le16(x), 0) == x,
{
    assert(x == x % 256 + 256 * (x / 256)) by (nonlinear_arith);
}

/// Reading back four little-endian bytes gives the value they were made
/// from.
proof fn lemma_le32_round_trip(x: u32)
    ensures
        read_le32(le32(x), 0) == x,
{
    let q1: u32 = x / 256;
    let q2: u32 = q1 / 256;
    let q3: u32 = q2 / 256;
    assert(x == x % 256 + 256 * q1) by (nonlinear_arith)
        requires
            q1 == x / 256,
    ;
    assert(q1 == q1 % 256 + 256 * q2) by (nonlinear_arith)
        requires
            q2 == q1 / 256,
    ;
    assert(q2 == q2 % 256 + 256 * q3) by (nonlinear_arith)
        requires
            q3 == q2 / 256,
    ;
    assert(q2 == x / 65536) by (nonlinear_arith)
        requires
            q1 == x / 256,
            q2 == q1 / 256,
    ;
    assert(q3 == x / 16777216) by (nonlinear_arith)
        requires
            q2 == x / 65536,
            q3 == q2 / 256,
    ;
    assert(q3 < 256) by (nonlinear_arith)
        requires
            q3 == x / 16777216,
            x <= u32::MAX,
    ;
}

/// A WAV header is 44 bytes long and reads back as what it describes: the
/// RIFF tag, a RIFF length 36 above the data length (the file length less
/// the eight bytes of the RIFF tag and length), the WAVE tag, a format
/// chunk of 16 bytes that says PCM, one channel, 44100 samples and 88200
/// bytes per second, two bytes per frame and sixteen bits per sample, and a
/// data chunk whose length is two bytes per sample (kept to 32 bits).
pub proof fn lemma_header_fields(total_samples: nat)
    requires
        spec_data_len(total_samples) + 36 <= u32::MAX,
    ensures
        ({
            let h = spec_wav_header(total_samples);
            &&& h.len() == 44
            &&& h.subrange(0, 4) == riff_tag()
            &&& read_le32(h, 4) == spec_data_len(total_samples) + 36
            &&& h.subrange(8, 12) == wave_tag()
            &&& h.subrange(12, 16) == fmt_tag()
            &&& read_le32(h, 16) == 16
            &&& read_le16(h, 20) == FORMAT_PCM
            &&& read_le16(h, 22) == CHANNELS
            &&& read_le32(h, 24) == SAMPLES_PER_SECOND
            &&& read_le32(h, 28) == AVG_BYTES_PER_SECOND
            &&& read_le16(h, 32) == BLOCK_ALIGN
            &&& read_le16(h, 34) == BITS_PER_SAMPLE
            &&& h.subrange(36, 40) == data_tag()
            &&& read_le32(h, 40) == spec_data_len(total_samples)
            &&& (total_samples * 2 < 0x1_0000_0000 ==> spec_data_len(total_samples) == total_samples
                * 2)
        }),
{
    let d: u32 = spec_data_len(total_samples);
    let h = spec_wav_header(total_samples);
    lemma_le32_round_trip((d + 36) as u32);
    lemma_le32_round_trip(16);
    lemma_le16_round_trip(FORMAT_PCM);
    lemma_le16_round_trip(CHANNELS);
    lemma_le32_round_trip(SAMPLES_PER_SECOND);
    lemma_le32_round_trip(AVG_BYTES_PER_SECOND);
    lemma_le16_round_trip(BLOCK_ALIGN);
    lemma_le16_round_trip(BITS_PER_SAMPLE);
    lemma_le32_round_trip(d);
    assert(h.subrange(0, 4) =~= riff_tag());
    assert(h.subrange(8, 12) =~= wave_tag());
    assert(h.subrange(12, 16) =~= fmt_tag());
    assert(h.subrange(36, 40) =~= data_tag());
    assert(h.subrange(4, 8) =~= le32((d + 36) as u32));
    assert(h.subrange(16, 20) =~= le32(16));
    assert(h.subrange(20, 22) =~= le16(FORMAT_PCM));
    assert(h.subrange(22, 24) =~= le16(CHANNELS));
    assert(h.subrange(24, 28) =~= le32(SAMPLES_PER_SECOND));
    assert(h.subrange(28, 32) =~= le32(AVG_BYTES_PER_SECOND));
    assert(h.subrange(32, 34) =~= le16(BLOCK_ALIGN));
    assert(h.subrange(34, 36) =~= le16(BITS_PER_SAMPLE));
    assert(h.subrange(40, 44) =~= le32(d));
}

} // verus!
