use cf_speedtest_core::zeros;
use std::io::Read;

fn decompress(frame: &[u8]) -> Option<Vec<u8>> {
    let mut decoder = ruzstd::decoding::StreamingDecoder::new(frame).ok()?;
    let mut out = Vec::new();
    decoder.read_to_end(&mut out).ok()?;
    Some(out)
}

fn assert_decodes_to_zeros(target: u64) {
    let frame = zeros(target);
    let out = decompress(&frame).expect("frame must decode");
    assert_eq!(out.len() as u64, target);
    assert!(out.iter().all(|&b| b == 0));
}

#[test]
fn frame_for_one_byte() {
    // Single segment: descriptor 0x20, size 1, one last RLE block of 1 byte.
    assert_eq!(zeros(1), vec![0x28, 0xB5, 0x2F, 0xFD, 0x20, 0x01, 0x0B, 0x00, 0x00, 0x00]);
}

#[test]
fn frame_for_255_bytes() {
    let h: u32 = 1 | 2 | (255 << 3);
    assert_eq!(
        zeros(255),
        vec![0x28, 0xB5, 0x2F, 0xFD, 0x20, 0xFF, (h & 0xff) as u8, ((h >> 8) & 0xff) as u8, 0x00, 0x00]
    );
}

#[test]
fn frame_for_256_bytes_uses_two_byte_size() {
    // flag 1 (0x40), window exponent 0, size 256 - 256 = 0, one RLE block of 256.
    let h: u32 = 1 | 2 | (256 << 3);
    assert_eq!(
        zeros(256),
        vec![
            0x28, 0xB5, 0x2F, 0xFD, 0x40, 0x00, 0x00, 0x00,
            (h & 0xff) as u8, ((h >> 8) & 0xff) as u8, ((h >> 16) & 0xff) as u8, 0x00
        ]
    );
}

#[test]
fn frame_header_for_each_size_field() {
    assert_eq!(zeros(255)[4], 0x20);
    assert_eq!(zeros(65791)[4], 0x40);
    assert_eq!(&zeros(65791)[6..8], &[0xff, 0xff]);
    assert_eq!(zeros(65792)[4], 0x80);
    assert_eq!(&zeros(65792)[6..10], &65792u32.to_le_bytes());
    assert_eq!(zeros(u32::MAX as u64)[4], 0x80);
    let big = 1u64 << 33;
    let frame = zeros(big);
    assert_eq!(frame[4], 0xC0);
    assert_eq!(&frame[6..14], &big.to_le_bytes());
}

#[test]
fn window_exponent_choice() {
    // The exponent is the largest one from 1 to 14 whose window is below the target.
    assert_eq!(zeros(1024)[5], 0);
    assert_eq!(zeros(2048)[5], 0);
    assert_eq!(zeros(2049)[5], 1 << 3);
    assert_eq!(zeros(4096)[5], 1 << 3);
    assert_eq!(zeros(4097)[5], 2 << 3);
    assert_eq!(zeros(1 << 24)[5], 13 << 3);
    assert_eq!(zeros((1 << 24) + 1)[5], 14 << 3);
    assert_eq!(zeros(1 << 40)[5], 14 << 3);
}

#[test]
fn block_count_follows_the_block_limit() {
    // 10 MiB: window 8 MiB, blocks of 128 KiB -> 80 blocks of 4 bytes.
    let frame = zeros(10 * 1024 * 1024);
    assert_eq!(frame.len(), 6 + 4 + 80 * 4);
    // 3000 bytes: window 2 KiB -> blocks of 2048 and 952.
    let frame = zeros(3000);
    assert_eq!(frame.len(), 6 + 2 + 2 * 4);
    let first = u32::from_le_bytes([frame[8], frame[9], frame[10], 0]);
    assert_eq!(first, 2 | (2048 << 3));
    let second = u32::from_le_bytes([frame[12], frame[13], frame[14], 0]);
    assert_eq!(second, 1 | 2 | (952 << 3));
}

#[test]
fn frames_decompress_to_the_requested_zeros() {
    for target in [1u64, 2, 100, 255, 256, 257, 1000, 1024, 1025, 4096, 65791, 65792, 131072, 131073, 1_000_000,
        10 * 1024 * 1024, 33_554_433]
    {
        assert_decodes_to_zeros(target);
    }
}

#[test]
fn frame_length_never_shrinks() {
    let mut last = 0;
    for target in [1u64, 255, 256, 1024, 1025, 2048, 2049, 131072, 262144, 262145, 393216, 393217,
        1 << 24, (1 << 24) + 1, 1 << 33]
    {
        let len = zeros(target).len();
        assert!(len >= last, "{target}");
        last = len;
    }
    assert_eq!(zeros(1).len(), 10);
    assert_eq!(zeros(1024).len(), 12);
    assert_eq!(zeros(262144).len(), 10 + 2 * 4);
    assert_eq!(zeros(262145).len(), 10 + 3 * 4);
}
