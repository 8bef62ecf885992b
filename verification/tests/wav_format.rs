use chord_generator::{wav_header, write_chunk, AVG_BYTES_PER_SECOND, SAMPLES_PER_SECOND};

fn le32(b: &[u8], at: usize) -> u32 {
    u32::from_le_bytes([b[at], b[at + 1], b[at + 2], b[at + 3]])
}

fn le16(b: &[u8], at: usize) -> u16 {
    u16::from_le_bytes([b[at], b[at + 1]])
}

#[test]
fn constants() {
    assert_eq!(SAMPLES_PER_SECOND, 44100);
    assert_eq!(AVG_BYTES_PER_SECOND, 88200);
}

#[test]
fn header_of_one_second() {
    let h = wav_header(44100);
    let mut expected: Vec<u8> = Vec::new();
    expected.extend_from_slice(b"RIFF");
    expected.extend_from_slice(&(88200u32 + 36).to_le_bytes());
    expected.extend_from_slice(b"WAVE");
    expected.extend_from_slice(b"fmt ");
    expected.extend_from_slice(&16u32.to_le_bytes());
    expected.extend_from_slice(&[1, 0, 1, 0]);
    expected.extend_from_slice(&44100u32.to_le_bytes());
    expected.extend_from_slice(&88200u32.to_le_bytes());
    expected.extend_from_slice(&[2, 0, 16, 0]);
    expected.extend_from_slice(b"data");
    expected.extend_from_slice(&88200u32.to_le_bytes());
    assert_eq!(h, expected);
}

#[test]
fn header_fields_read_back() {
    let h = wav_header(1000);
    assert_eq!(h.len(), 44);
    assert_eq!(&h[0..4], b"RIFF");
    assert_eq!(le32(&h, 4), 2036);
    assert_eq!(&h[8..12], b"WAVE");
    assert_eq!(&h[12..16], b"fmt ");
    assert_eq!(le32(&h, 16), 16);
    assert_eq!(le16(&h, 20), 1);
    assert_eq!(le16(&h, 22), 1);
    assert_eq!(le32(&h, 24), 44100);
    assert_eq!(le32(&h, 28), 88200);
    assert_eq!(le16(&h, 32), 2);
    assert_eq!(le16(&h, 34), 16);
    assert_eq!(&h[36..40], b"data");
    assert_eq!(le32(&h, 40), 2000);
}

#[test]
fn empty_header() {
    let h = wav_header(0);
    assert_eq!(le32(&h, 4), 36);
    assert_eq!(le32(&h, 40), 0);
}

#[test]
fn large_sample_counts_keep_the_low_bits() {
    // 2^31 samples take 2^32 bytes, whose low 32 bits are zero.
    let h = wav_header(1usize << 31);
    assert_eq!(le32(&h, 40), 0);
    assert_eq!(le32(&h, 4), 36);
}

#[test]
fn riff_length_is_file_length_less_eight() {
    for n in [0usize, 1, 100, 44100] {
        let h = wav_header(n);
        assert_eq!(le32(&h, 4) as usize, h.len() + 2 * n - 8);
    }
}

#[test]
fn chunk_layout() {
    let mut out = vec![9u8];
    write_chunk(*b"abcd", &[1, 2, 3], &mut out);
    assert_eq!(out, vec![9, b'a', b'b', b'c', b'd', 3, 0, 0, 0, 1, 2, 3]);
    let mut out = Vec::new();
    write_chunk(*b"none", &[], &mut out);
    assert_eq!(out, b"none\0\0\0\0".to_vec());
}
