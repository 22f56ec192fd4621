use gics::errors::ErrorKind;
use gics::filetypes::channel::{HighBand, Intensity};
use gics::filetypes::hca::HCAFile;

const KEY1: [u8; 4] = [0x21, 0x43, 0x65, 0x87];
const KEY2: [u8; 4] = [0xA9, 0xCB, 0xED, 0x0F];

fn plain_file() -> Vec<u8> {
    vec![
        0x48, 0x43, 0x41, 0x00, 0x01, 0x03, 0x00, 0x3A, 0x66, 0x6D, 0x74, 0x00, 0x02, 0x00, 0xAC, 0x44,
        0x00, 0x00, 0x00, 0x01, 0x00, 0x00, 0x00, 0x00, 0x63, 0x6F, 0x6D, 0x70, 0x01, 0x00, 0x01, 0x0F,
        0x01, 0x00, 0x28, 0x14, 0x0A, 0x04, 0x00, 0x00, 0x70, 0x61, 0x64, 0x00, 0x00, 0x00, 0x00, 0x00,
        0x00, 0x00, 0x00, 0x00, 0x00, 0x00, 0x00, 0x00, 0xAF, 0xCA,
    ]
}

fn ciphered_file() -> Vec<u8> {
    vec![
        0x48, 0x43, 0x41, 0x00, 0x01, 0x03, 0x00, 0x40, 0x66, 0x6D, 0x74, 0x00, 0x02, 0x00, 0xAC, 0x44,
        0x00, 0x00, 0x00, 0x01, 0x00, 0x00, 0x00, 0x00, 0x63, 0x6F, 0x6D, 0x70, 0x01, 0x00, 0x01, 0x0F,
        0x01, 0x00, 0x28, 0x14, 0x0A, 0x04, 0x00, 0x00, 0x63, 0x69, 0x70, 0x68, 0x00, 0x01, 0x70, 0x61,
        0x64, 0x00, 0x00, 0x00, 0x00, 0x00, 0x00, 0x00, 0x00, 0x00, 0x00, 0x00, 0x00, 0x00, 0x01, 0xDF,
    ]
}

fn noise_block() -> Vec<u8> {
    vec![
        0xFF, 0xFF, 0xDC, 0x70, 0x20, 0xC1, 0xCD, 0x36, 0x45, 0x49, 0x61, 0x25, 0x98, 0x61, 0xA7, 0x39,
        0xA2, 0x39, 0xEF, 0x11, 0x98, 0x12, 0x04, 0x7E, 0xEC, 0xB0, 0x29, 0xCD, 0xAF, 0x7D, 0xD4, 0xD5,
        0xAD, 0x7D, 0x2C, 0xBF, 0x47, 0xF6, 0x44, 0x98, 0x0E, 0xDB, 0x15, 0x98, 0x24, 0xFC, 0x3D, 0x30,
        0x53, 0xF0, 0x7A, 0xD5, 0xEA, 0xBE, 0xE5, 0x8F, 0x5C, 0x4E, 0xEE, 0x40, 0x96, 0x92, 0x1B, 0xB5,
        0x23, 0x73, 0x80, 0x6E, 0x02, 0x7E, 0xFD, 0x2D, 0x43, 0x4B, 0x3A, 0x41, 0x64, 0xB1, 0x63, 0x8F,
        0x6D, 0xAB, 0xA4, 0x65, 0xCD, 0x09, 0x64, 0xFF, 0xF3, 0xD6, 0x41, 0xD5, 0xAC, 0x8C, 0xCE, 0xAA,
        0x3F, 0xFA, 0x0E, 0x55, 0x4A, 0xF1, 0xB0, 0x4E, 0x5B, 0xB2, 0x08, 0xF8, 0x4D, 0x17, 0xD1, 0xB0,
        0x69, 0x84, 0xA5, 0x99, 0x38, 0x8B, 0x38, 0x26, 0x29, 0x61, 0x58, 0x64, 0xE8, 0x05, 0xA5, 0x0D,
        0x78, 0x2A, 0x10, 0x4D, 0x16, 0xE9, 0x14, 0x51, 0xCE, 0x28, 0xB7, 0x95, 0xDA, 0xC7, 0x3F, 0xEA,
        0xBD, 0x91, 0xB5, 0x4A, 0x24, 0xDD, 0x1B, 0x5C, 0x77, 0x07, 0x6C, 0xC5, 0x42, 0x93, 0x58, 0x34,
        0x47, 0x1A, 0xBC, 0x2C, 0x5F, 0xFC, 0xE3, 0x90, 0x15, 0xC4, 0x7F, 0xF0, 0x00, 0x59, 0x65, 0x96,
        0xE4, 0xEA, 0x0C, 0x4F, 0x87, 0x97, 0xC4, 0xF9, 0x55, 0xE0, 0xB6, 0xD1, 0xB3, 0xCE, 0x9F, 0x79,
        0x23, 0xE3, 0x4B, 0xCC, 0x1C, 0xC3, 0xD4, 0x62, 0xA7, 0x9F, 0x98, 0xE2, 0xB9, 0x65, 0xFB, 0x0A,
        0x54, 0xA9, 0xE1, 0x7F, 0x5C, 0x51, 0xEA, 0x56, 0x3A, 0x03, 0x6C, 0x5E, 0x32, 0x50, 0x31, 0x33,
        0x85, 0x9D, 0xF5, 0x04, 0x46, 0xD5, 0x9E, 0x1F, 0xFC, 0xD0, 0x39, 0x41, 0xFD, 0x82, 0xB9, 0xA0,
        0x85, 0xE4, 0x6E, 0xB4, 0x99, 0xA2, 0x47, 0xC9, 0x9E, 0x89, 0xC7, 0x46, 0xB8, 0xAF, 0xC8, 0xBB,
    ]
}

fn delta_block() -> Vec<u8> {
    vec![
        0xFF, 0xFF, 0x80, 0xD5, 0x74, 0x6E, 0x53, 0x0A, 0xC3, 0xBE, 0x4C, 0x2B, 0x0E, 0xED, 0x30, 0xAC,
        0x3B, 0x84, 0xC2, 0x28, 0xB3, 0x38, 0x22, 0x0E, 0x51, 0xA8, 0x26, 0xB3, 0x2E, 0x3F, 0x14, 0xB4,
        0x57, 0x76, 0x3A, 0x6F, 0xD1, 0x1A, 0x2B, 0x3C, 0x4D, 0x2E, 0x26, 0xAA, 0xC9, 0x6B, 0x2D, 0xBE,
        0xCC, 0x8B, 0x16, 0xE0, 0x90, 0xF4, 0xBB, 0xE8, 0xF1, 0x0D, 0x7D, 0x05, 0x11, 0xB4, 0x2A, 0x34,
        0x32, 0x79, 0xF2, 0xBB, 0x94, 0x19, 0x1A, 0x70, 0x3C, 0xE1, 0xFD, 0x27, 0x12, 0xFD, 0xE7, 0xF2,
        0x8C, 0xCF, 0xF0, 0xB6, 0x9F, 0x73, 0xEB, 0x4A, 0x93, 0x0B, 0x1D, 0x28, 0xFD, 0x17, 0x4E, 0x8D,
        0x88, 0xDB, 0x89, 0xD0, 0xED, 0xCB, 0x21, 0x0A, 0xAB, 0xDE, 0x49, 0x31, 0x05, 0xDD, 0x53, 0x96,
        0xE9, 0xF9, 0x3D, 0x47, 0xBF, 0xFA, 0xBC, 0x49, 0x3D, 0xA7, 0x13, 0x4B, 0x69, 0x2A, 0xFA, 0xAE,
        0x61, 0x8B, 0x70, 0x0E, 0x44, 0xDC, 0xAB, 0xA5, 0x04, 0xC6, 0xDB, 0x92, 0x60, 0xD1, 0x3D, 0x69,
        0xAE, 0xD2, 0xB5, 0x55, 0xB9, 0x40, 0xEB, 0xA2, 0xBB, 0x95, 0x28, 0x26, 0x24, 0xB7, 0x03, 0x5C,
        0x7F, 0x3D, 0x66, 0x2D, 0x50, 0x0D, 0x7E, 0xF5, 0x12, 0x6F, 0x6D, 0x0C, 0xE2, 0x99, 0x4A, 0x28,
        0x8E, 0x18, 0x11, 0xB2, 0x4A, 0x0E, 0x46, 0x24, 0xC7, 0xA1, 0x1C, 0x6A, 0xDE, 0x6B, 0x10, 0x00,
        0x00, 0x00, 0x00, 0x00, 0x00, 0x00, 0x00, 0x00, 0x00, 0x00, 0x00, 0x00, 0x00, 0x00, 0x00, 0x00,
        0x00, 0x00, 0x00, 0x00, 0x00, 0x00, 0x00, 0x00, 0x00, 0x00, 0x00, 0x00, 0x00, 0x00, 0x00, 0x00,
        0x00, 0x00, 0x00, 0x00, 0x00, 0x00, 0x00, 0x00, 0x00, 0x00, 0x00, 0x00, 0x00, 0x00, 0x00, 0x00,
        0x00, 0x00, 0x00, 0x00, 0x00, 0x00, 0x00, 0x00, 0x00, 0x00, 0x00, 0x00, 0x00, 0x00, 0x00, 0x00,
    ]
}

fn with_block(header: Vec<u8>, block: &[u8]) -> Vec<u8> {
    let mut file = header;
    file.extend_from_slice(block);
    file
}

fn check(
    file: &mut HCAFile,
    block: &[u8],
    values: [[i8; 40]; 2],
    scales: [[u8; 40]; 2],
    value2: [u8; 8],
    rows: [[i32; 40]; 16],
) {
    let mut data = block.to_vec();
    let found = file.decode_block(&mut data).unwrap();
    assert_eq!(found.len(), 8);
    for c in 0..2 {
        let channel = file.channel(c);
        assert_eq!(&channel.value()[..40], &values[c][..]);
        assert_eq!(&channel.scale()[..40], &scales[c][..]);
        assert!(channel.scale()[40..].iter().all(|s| *s == 0));
    }
    assert_eq!(file.channel(1).value2(), &value2);
    for f in 0..8 {
        assert_eq!(found[f].len(), 2);
        for c in 0..2 {
            assert_eq!(&found[f][c][..40], &rows[f * 2 + c][..]);
            assert!(found[f][c][40..].iter().all(|q| *q == 0));
        }
    }
    for c in 0..2 {
        assert_eq!(file.channel(c).block(), &found[7][c]);
    }
}

#[test]
fn channels_of_the_file() {
    let file = HCAFile::new(&with_block(plain_file(), &noise_block()), KEY2, KEY1).unwrap();
    assert_eq!(file.channel_count(), 2);
    assert_eq!(file.channel(0).kind(), 1);
    assert_eq!(file.channel(0).count(), 30);
    assert_eq!(file.channel(0).value_3i(), 30);
    assert_eq!(file.channel(1).kind(), 2);
    assert_eq!(file.channel(1).count(), 20);
    assert_eq!(file.channel(1).value_3i(), 30);
    assert_eq!(file.hca_header().comp_r09, 3);
    assert_eq!(file.data(), &noise_block());
}

#[test]
fn block_of_noise() {
    let mut file = HCAFile::new(&with_block(plain_file(), &noise_block()), KEY2, KEY1).unwrap();
    check(
        &mut file,
        &noise_block(),
        [[1, 1, 38, 13, 8, 20, 11, 11, 11, 11, 11, 9, 9, 38, 38, 38, 38, 33, 19, 14, 14, 40, 7, 7, 7, 59, 34, 34, 34, 38, 1, 8, 4, 0, 0, 0, 0, 0, 0, 0,], [61, 64, 67, 66, 69, 66, 64, 63, 63, 64, 67, 70, 72, 31, 31, 33, 32, 32, 31, 33, 0, 0, 0, 0, 0, 0, 0, 0, 0, 0, 0, 0, 0, 0, 0, 0, 0, 0, 0, 0,]],
        [[1, 1, 1, 1, 1, 1, 1, 1, 1, 1, 1, 1, 1, 1, 1, 1, 1, 1, 1, 1, 1, 1, 1, 1, 1, 1, 1, 1, 1, 1, 0, 0, 0, 0, 0, 0, 0, 0, 0, 0,], [1, 1, 1, 1, 1, 1, 1, 1, 1, 1, 1, 1, 1, 1, 1, 1, 1, 1, 1, 1, 0, 0, 0, 0, 0, 0, 0, 0, 0, 0, 0, 0, 0, 0, 0, 0, 0, 0, 0, 0,]],
        [10, 13, 7, 13, 2, 12, 11, 15,],
        [
        [0, 1, 0, 0, -1, -1, -1, 1, -1, 0, 0, 1, 0, 0, 1, 0, 1, 0, -1, 0, 0, 0, 0, 0, 0, 0, -1, 1, -1, 0, 0, 0, 0, 0, 0, 0, 0, 0, 0, 0,],
        [-1, 0, -1, 0, 0, 0, 1, 1, -1, 0, 0, -1, 0, 0, 0, 0, 0, 1, 0, 1, 0, 0, 0, 0, 0, 0, 0, 0, 0, 0, 0, 0, 0, 0, 0, 0, 0, 0, 0, 0,],
        [0, -1, -1, -1, 0, 0, 0, 0, -1, -1, 0, 1, 0, -1, 0, 0, 0, 0, 0, 1, 1, 0, -1, -1, -1, 0, 0, 0, 0, 0, 0, 0, 0, 0, 0, 0, 0, 0, 0, 0,],
        [-1, -1, 0, 1, -1, 0, 1, 1, -1, -1, 0, 1, 1, 1, -1, -1, 1, -1, 1, 0, 0, 0, 0, 0, 0, 0, 0, 0, 0, 0, 0, 0, 0, 0, 0, 0, 0, 0, 0, 0,],
        [1, -1, 0, 0, 0, -1, -1, 0, 1, -1, 1, 0, 0, 1, 0, -1, 1, -1, 1, -1, 1, 0, 1, 0, 0, 0, 0, 0, 1, 0, 0, 0, 0, 0, 0, 0, 0, 0, 0, 0,],
        [1, -1, 0, 1, 0, 1, 0, 1, 0, 0, 0, -1, 0, -1, 1, -1, 0, 1, 1, 0, 0, 0, 0, 0, 0, 0, 0, 0, 0, 0, 0, 0, 0, 0, 0, 0, 0, 0, 0, 0,],
        [1, 0, 0, -1, 0, -1, 1, 0, -1, 1, 0, 0, 0, 0, 0, 0, 0, -1, 0, -1, 1, 0, 0, 0, 0, 0, 0, 1, 0, -1, 0, 0, 0, 0, 0, 0, 0, 0, 0, 0,],
        [-1, -1, 0, -1, -1, -1, 0, 1, 0, 1, -1, 0, 1, 1, 0, 0, 0, -1, 0, 1, 0, 0, 0, 0, 0, 0, 0, 0, 0, 0, 0, 0, 0, 0, 0, 0, 0, 0, 0, 0,],
        [0, 1, -1, 0, 0, -1, 1, 1, 0, 1, 0, 0, 0, 0, 1, -1, 0, 0, 1, 0, 1, -1, 0, 0, 0, 1, -1, 0, 0, 0, 0, 0, 0, 0, 0, 0, 0, 0, 0, 0,],
        [-1, 1, 0, 0, -1, -1, 0, -1, 0, -1, 0, -1, 0, 1, 1, -1, 1, 1, 0, 1, 0, 0, 0, 0, 0, 0, 0, 0, 0, 0, 0, 0, 0, 0, 0, 0, 0, 0, 0, 0,],
        [0, 0, -1, 0, 0, 1, -1, 1, 0, -1, 0, 1, 0, 0, 0, 1, 0, 1, -1, 0, 0, 1, 0, -1, -1, -1, -1, -1, -1, 0, 0, 0, 0, 0, 0, 0, 0, 0, 0, 0,],
        [0, -1, -1, 0, 1, -1, 0, 0, 1, 0, 0, 0, 0, -1, 1, 1, 1, -1, 0, 1, 0, 0, 0, 0, 0, 0, 0, 0, 0, 0, 0, 0, 0, 0, 0, 0, 0, 0, 0, 0,],
        [-1, 0, 0, 1, 0, 0, -1, 0, 0, -1, 0, 0, -1, 1, 1, 1, 1, 1, 0, 0, -1, -1, -1, -1, -1, 1, 1, 0, 0, 0, 0, 0, 0, 0, 0, 0, 0, 0, 0, 0,],
        [0, -1, 1, 0, 1, 1, 1, 1, 1, 0, 1, 1, -1, -1, 0, 0, 0, -1, 0, -1, 0, 0, 0, 0, 0, 0, 0, 0, 0, 0, 0, 0, 0, 0, 0, 0, 0, 0, 0, 0,],
        [0, 0, 0, 0, 0, 1, 0, -1, 1, 0, 1, -1, 0, -1, 1, -1, 0, 0, 1, 0, 0, 0, 0, 1, 0, 0, -1, -1, 1, 0, 0, 0, 0, 0, 0, 0, 0, 0, 0, 0,],
        [0, 0, 1, 0, -1, 0, 1, 0, 0, 1, -1, -1, 1, 1, 0, 0, -1, 0, -1, 0, 0, 0, 0, 0, 0, 0, 0, 0, 0, 0, 0, 0, 0, 0, 0, 0, 0, 0, 0, 0,],
        ],
    );
}

#[test]
fn block_with_delta_coded_scale_factors() {
    let mut file = HCAFile::new(&with_block(plain_file(), &delta_block()), KEY2, KEY1).unwrap();
    check(
        &mut file,
        &delta_block(),
        [[40, 43, 10, 10, 7, 6, 8, 9, 7, 10, 50, 50, 47, 46, 48, 49, 47, 50, 26, 26, 23, 22, 24, 25, 23, 26, 2, 2, -1, -2, 10, 11, 12, 0, 0, 0, 0, 0, 0, 0,], [1, 4, 7, 10, 13, 16, 19, 22, 25, 28, 31, 34, 37, 40, 43, 46, 49, 52, 55, 58, 0, 0, 0, 0, 0, 0, 0, 0, 0, 0, 0, 0, 0, 0, 0, 0, 0, 0, 0, 0,]],
        [[1, 1, 1, 1, 1, 1, 1, 1, 1, 1, 1, 1, 1, 1, 1, 1, 1, 1, 1, 1, 1, 1, 1, 1, 1, 1, 1, 1, 1, 1, 0, 0, 0, 0, 0, 0, 0, 0, 0, 0,], [1, 1, 1, 1, 1, 1, 1, 1, 1, 1, 1, 1, 1, 1, 1, 1, 1, 1, 1, 1, 0, 0, 0, 0, 0, 0, 0, 0, 0, 0, 0, 0, 0, 0, 0, 0, 0, 0, 0, 0,]],
        [2, 3, 4, 5, 6, 7, 8, 9,],
        [
        [1, 1, 0, 1, -1, 1, 0, 0, 1, 0, -1, 0, 1, 1, 1, 1, -1, 0, 0, 1, 0, 1, -1, 0, 1, -1, 0, 0, 1, -1, 0, 0, 0, 0, 0, 0, 0, 0, 0, 0,],
        [0, -1, 0, -1, -1, 1, -1, 0, 0, -1, 0, 0, 1, 0, 0, 1, -1, 0, 0, 0, 0, 0, 0, 0, 0, 0, 0, 0, 0, 0, 0, 0, 0, 0, 0, 0, 0, 0, 0, 0,],
        [1, -1, 0, -1, 1, 0, 0, 0, 0, 1, 0, 1, 0, 0, 0, -1, -1, 0, 1, 0, 1, -1, 1, -1, -1, 1, 1, 0, 0, -1, 0, 0, 0, 0, 0, 0, 0, 0, 0, 0,],
        [-1, 0, 0, 0, 1, 0, 0, 0, -1, 0, 1, -1, -1, 1, 1, 0, 0, 0, 0, 1, 0, 0, 0, 0, 0, 0, 0, 0, 0, 0, 0, 0, 0, 0, 0, 0, 0, 0, 0, 0,],
        [1, 0, 0, 1, 0, 0, -1, 0, -1, 0, 1, 0, 0, 0, 1, 1, 1, 0, 0, -1, 0, 1, 0, 0, 0, -1, 0, 0, 1, 0, 0, 0, 0, 0, 0, 0, 0, 0, 0, 0,],
        [-1, -1, 0, 0, -1, -1, 1, 0, 1, 1, -1, 1, -1, 1, 0, 1, 1, 0, 0, 0, 0, 0, 0, 0, 0, 0, 0, 0, 0, 0, 0, 0, 0, 0, 0, 0, 0, 0, 0, 0,],
        [0, -1, 0, 0, 1, 0, 0, -1, 0, 1, 0, -1, 1, 0, 0, 0, 0, 0, -1, -1, 0, 0, -1, 1, 0, 0, 0, -1, -1, -1, 0, 0, 0, 0, 0, 0, 0, 0, 0, 0,],
        [1, 1, 0, 1, 0, -1, 1, 0, 0, 1, 0, 1, -1, -1, -1, 0, -1, -1, 0, 0, 0, 0, 0, 0, 0, 0, 0, 0, 0, 0, 0, 0, 0, 0, 0, 0, 0, 0, 0, 0,],
        [-1, -1, -1, 1, 0, 1, 1, 0, 0, -1, 0, 0, -1, 0, 0, -1, -1, -1, -1, 0, 0, 0, 0, 1, -1, 0, -1, 0, 1, 0, 0, 0, 0, 0, 0, 0, 0, 0, 0, 0,],
        [-1, -1, 1, -1, 1, 0, -1, -1, 1, 1, -1, 0, 1, 0, 1, 1, 1, 0, 1, 0, 0, 0, 0, 0, 0, 0, 0, 0, 0, 0, 0, 0, 0, 0, 0, 0, 0, 0, 0, 0,],
        [-1, 0, 0, 0, 0, 1, -1, 0, 0, 0, -1, 1, 1, 0, 1, 1, 0, 0, -1, -1, -1, 0, 1, 0, 0, 1, -1, 1, 1, 0, 0, 0, 0, 0, 0, 0, 0, 0, 0, 0,],
        [-1, 1, 1, 0, 0, -1, 0, -1, 0, 0, 0, 1, 0, 0, -1, 0, -1, 0, -1, 1, 0, 0, 0, 0, 0, 0, 0, 0, 0, 0, 0, 0, 0, 0, 0, 0, 0, 0, 0, 0,],
        [0, 0, 1, 0, -1, 1, 1, 0, 0, 0, -1, 1, -1, 0, -1, 1, 0, 1, -1, 0, 0, 1, 0, 0, 0, 1, 0, 0, 0, 1, 0, 0, 0, 0, 0, 0, 0, 0, 0, 0,],
        [1, 1, 1, 1, -1, -1, 0, -1, -1, 0, 0, 1, 0, 1, 0, 1, 0, -1, 0, 0, 0, 0, 0, 0, 0, 0, 0, 0, 0, 0, 0, 0, 0, 0, 0, 0, 0, 0, 0, 0,],
        [0, 1, 0, 0, 0, 0, 1, -1, 1, -1, 1, 1, 1, 1, 0, -1, 1, 0, 1, -1, 0, -1, 1, 1, 0, -1, -1, -1, 0, 0, 0, 0, 0, 0, 0, 0, 0, 0, 0, 0,],
        [1, 0, -1, -1, 0, 1, 1, 0, 0, -1, -1, 0, -1, -1, -1, -1, -1, 1, 1, 1, 0, 0, 0, 0, 0, 0, 0, 0, 0, 0, 0, 0, 0, 0, 0, 0, 0, 0, 0, 0,],
        ],
    );
}

#[test]
fn block_through_the_cipher_table() {
    let mut file =
        HCAFile::new(&with_block(ciphered_file(), &noise_block()), KEY2, KEY1).unwrap();
    assert_eq!(file.hca_header().cipher_type, 1);
    check(
        &mut file,
        &noise_block(),
        [[23, 15, 8, 18, 31, 22, 28, 24, 38, 32, 45, 42, 50, 61, 56, 56, 50, 49, 43, 48, 54, 66, 72, 65, 75, 70, 81, 48, 52, 62, 36, 43, 2, 0, 0, 0, 0, 0, 0, 0,], [0, 0, 0, 0, 0, 0, 0, 0, 0, 0, 0, 0, 0, 0, 0, 0, 0, 0, 0, 0, 0, 0, 0, 0, 0, 0, 0, 0, 0, 0, 0, 0, 0, 0, 0, 0, 0, 0, 0, 0,]],
        [[1, 1, 1, 1, 1, 1, 1, 1, 1, 1, 1, 1, 1, 1, 1, 1, 1, 1, 1, 1, 1, 1, 1, 1, 1, 1, 1, 1, 1, 1, 0, 0, 0, 0, 0, 0, 0, 0, 0, 0,], [0, 0, 0, 0, 0, 0, 0, 0, 0, 0, 0, 0, 0, 0, 0, 0, 0, 0, 0, 0, 0, 0, 0, 0, 0, 0, 0, 0, 0, 0, 0, 0, 0, 0, 0, 0, 0, 0, 0, 0,]],
        [12, 11, 13, 11, 11, 2, 7, 0,],
        [
        [0, 0, 0, 0, 1, -1, -1, 0, 0, 1, -1, 1, -1, 0, -1, 0, 0, 0, -1, -1, 1, 0, 1, -1, 0, 0, 0, 0, 1, 0, 0, 0, 0, 0, 0, 0, 0, 0, 0, 0,],
        [0, 0, 0, 0, 0, 0, 0, 0, 0, 0, 0, 0, 0, 0, 0, 0, 0, 0, 0, 0, 0, 0, 0, 0, 0, 0, 0, 0, 0, 0, 0, 0, 0, 0, 0, 0, 0, 0, 0, 0,],
        [0, 0, 0, -1, 1, 0, 0, 1, -1, -1, -1, 0, 0, -1, 0, 0, 1, 0, 1, -1, 0, 0, 1, 0, -1, 0, -1, -1, 0, 0, 0, 0, 0, 0, 0, 0, 0, 0, 0, 0,],
        [0, 0, 0, 0, 0, 0, 0, 0, 0, 0, 0, 0, 0, 0, 0, 0, 0, 0, 0, 0, 0, 0, 0, 0, 0, 0, 0, 0, 0, 0, 0, 0, 0, 0, 0, 0, 0, 0, 0, 0,],
        [0, -1, 1, 0, 0, -1, 0, 0, 1, 0, 0, 0, -1, -1, -1, -1, 1, -1, 0, 0, 0, -1, 0, -1, 0, -1, -1, 1, -1, 0, 0, 0, 0, 0, 0, 0, 0, 0, 0, 0,],
        [0, 0, 0, 0, 0, 0, 0, 0, 0, 0, 0, 0, 0, 0, 0, 0, 0, 0, 0, 0, 0, 0, 0, 0, 0, 0, 0, 0, 0, 0, 0, 0, 0, 0, 0, 0, 0, 0, 0, 0,],
        [0, 0, 1, 1, 0, 1, 0, 0, 1, 1, -1, -1, 0, 1, 1, 0, 0, 0, 0, 0, 0, 1, -1, 0, -1, 0, 0, -1, 0, 0, 0, 0, 0, 0, 0, 0, 0, 0, 0, 0,],
        [0, 0, 0, 0, 0, 0, 0, 0, 0, 0, 0, 0, 0, 0, 0, 0, 0, 0, 0, 0, 0, 0, 0, 0, 0, 0, 0, 0, 0, 0, 0, 0, 0, 0, 0, 0, 0, 0, 0, 0,],
        [0, 0, 0, 0, -1, 0, 1, 0, 0, -1, 1, -1, 0, -1, 1, -1, 0, -1, -1, 0, 0, -1, 0, 0, 1, -1, 1, 0, 0, 0, 0, 0, 0, 0, 0, 0, 0, 0, 0, 0,],
        [0, 0, 0, 0, 0, 0, 0, 0, 0, 0, 0, 0, 0, 0, 0, 0, 0, 0, 0, 0, 0, 0, 0, 0, 0, 0, 0, 0, 0, 0, 0, 0, 0, 0, 0, 0, 0, 0, 0, 0,],
        [0, 1, 0, 1, -1, -1, 0, -1, 0, 0, 0, 0, 1, 1, 1, 0, 0, 0, 0, -1, 1, 0, 0, -1, 0, 0, 0, 0, 1, -1, 0, 0, 0, 0, 0, 0, 0, 0, 0, 0,],
        [0, 0, 0, 0, 0, 0, 0, 0, 0, 0, 0, 0, 0, 0, 0, 0, 0, 0, 0, 0, 0, 0, 0, 0, 0, 0, 0, 0, 0, 0, 0, 0, 0, 0, 0, 0, 0, 0, 0, 0,],
        [0, 0, 1, 0, 0, 0, -1, 0, 1, 0, 1, 0, 0, 1, -1, 0, 0, -1, 1, 0, -1, 1, -1, 1, 1, 0, 0, 0, 1, 0, 0, 0, 0, 0, 0, 0, 0, 0, 0, 0,],
        [0, 0, 0, 0, 0, 0, 0, 0, 0, 0, 0, 0, 0, 0, 0, 0, 0, 0, 0, 0, 0, 0, 0, 0, 0, 0, 0, 0, 0, 0, 0, 0, 0, 0, 0, 0, 0, 0, 0, 0,],
        [-1, 0, 0, 0, 1, 0, 1, 0, 1, 0, -1, 0, 1, 0, 0, 0, 1, 0, -1, 0, 0, -1, 0, 0, 1, -1, 0, 1, -1, 1, 0, 0, 0, 0, 0, 0, 0, 0, 0, 0,],
        [0, 0, 0, 0, 0, 0, 0, 0, 0, 0, 0, 0, 0, 0, 0, 0, 0, 0, 0, 0, 0, 0, 0, 0, 0, 0, 0, 0, 0, 0, 0, 0, 0, 0, 0, 0, 0, 0, 0, 0,],
        ],
    );
}

#[test]
fn high_sub_bands() {
    let mut file = HCAFile::new(&with_block(plain_file(), &delta_block()), KEY2, KEY1).unwrap();
    file.decode_block(&mut delta_block()).unwrap();
    let h = file.hca_header();
    let gamma = h.comp_r06 + h.comp_r07;
    // the secondary channel rebuilds nothing
    assert_eq!(file.channel(1).decode_three(h.comp_r09, h.comp_r08, gamma, h.comp_r05).unwrap(), None);
    // nor does a channel without sub-bands in a group
    assert_eq!(file.channel(0).decode_three(h.comp_r09, 0, gamma, h.comp_r05).unwrap(), None);
    assert_eq!(
        file.channel(0).decode_three(h.comp_r09, h.comp_r08, gamma, h.comp_r05).unwrap(),
        Some(vec![
            vec![HighBand { target: 30, source: 29, ratio: 12 }, HighBand { target: 31, source: 28, ratio: 11 }, HighBand { target: 32, source: 27, ratio: 8 }, HighBand { target: 33, source: 26, ratio: 8 }],
            vec![HighBand { target: 30, source: 29, ratio: 13 }, HighBand { target: 31, source: 28, ratio: 12 }, HighBand { target: 32, source: 27, ratio: 9 }, HighBand { target: 33, source: 26, ratio: 9 }],
            vec![HighBand { target: 30, source: 29, ratio: 14 }, HighBand { target: 31, source: 28, ratio: 13 }, HighBand { target: 32, source: 27, ratio: 10 }, HighBand { target: 33, source: 26, ratio: 10 }],
        ])
    );
    // no group, or nothing left below the last sub-band
    assert_eq!(file.channel(0).decode_three(0, 4, gamma, h.comp_r05).unwrap(), Some(vec![]));
    assert_eq!(
        file.channel(0).decode_three(2, 4, 40, 40).unwrap(),
        Some(vec![vec![], vec![]])
    );
    // a walk that leaves the sub-bands
    let e = file.channel(0).decode_three(1, 4, 3, 40).err().unwrap();
    assert_eq!(e.kind(), ErrorKind::BadHeader);
    assert_eq!(e.message(), "Sub-band walk leaves the sub-bands");
    assert!(file.channel(0).decode_three(1, 4, 126, 200).is_err());
    assert!(file.channel(0).decode_three(99, 4, 30, 40).is_err());
}

#[test]
fn scale_factors_without_a_ratio() {
    let mut file = HCAFile::new(&with_block(plain_file(), &noise_block()), KEY2, KEY1).unwrap();
    file.decode_block(&mut noise_block()).unwrap();
    let h = file.hca_header();
    let gamma = h.comp_r06 + h.comp_r07;
    let e = file.channel(0).decode_three(h.comp_r09, h.comp_r08, gamma, h.comp_r05).err().unwrap();
    assert_eq!(e.kind(), ErrorKind::BadBlock);
    assert_eq!(e.message(), "Scale factors without a ratio");
}

#[test]
fn stereo_pairs() {
    let mut file = HCAFile::new(&with_block(plain_file(), &delta_block()), KEY2, KEY1).unwrap();
    file.decode_block(&mut delta_block()).unwrap();
    let primary = file.channel(0);
    let secondary = file.channel(1);
    // a primary channel shares nothing
    assert_eq!(primary.decode_four(0, 20, 20, 10, secondary).unwrap(), None);
    // nor does any channel without stereo sub-bands
    assert_eq!(secondary.decode_four(0, 20, 20, 0, secondary).unwrap(), None);
    for index in 0..8 {
        assert_eq!(
            secondary.decode_four(index, 20, 20, 10, secondary).unwrap(),
            Some(Intensity { ratio: (index + 2) % 15, first: 20, count: 20 })
        );
    }
    let e = secondary.decode_four(0, 100, 29, 10, secondary).err().unwrap();
    assert_eq!(e.kind(), ErrorKind::BadHeader);
    assert!(secondary.decode_four(0, 100, 28, 10, secondary).is_ok());
}

#[test]
fn block_is_substituted_in_place() {
    let mut file =
        HCAFile::new(&with_block(ciphered_file(), &noise_block()), KEY2, KEY1).unwrap();
    let mut data = noise_block();
    data.extend_from_slice(&[7, 7, 7]);
    file.decode_block(&mut data).unwrap();
    let table = *file.cipher_table();
    for (i, b) in noise_block().iter().enumerate() {
        assert_eq!(data[i], table[*b as usize]);
    }
    assert_eq!(&data[0x100..], &[7, 7, 7]);
    let mut again = noise_block();
    file.mask(&mut again, 0x80);
    assert_eq!(&again[..0x80], &data[..0x80]);
    assert_eq!(&again[0x80..], &noise_block()[0x80..]);
}

#[test]
fn block_without_sync_word() {
    let mut file = HCAFile::new(&with_block(plain_file(), &noise_block()), KEY2, KEY1).unwrap();
    let mut data = noise_block();
    data[1] = 0xFE;
    let e = file.decode_block(&mut data).err().unwrap();
    assert_eq!(e.kind(), ErrorKind::BadBlock);
    assert_eq!(e.message(), "Block does not start with the sync word");
    // the channels are as they were
    assert!(file.channel(0).value().iter().all(|v| *v == 0));
    assert!(file.channel(0).scale().iter().all(|v| *v == 0));
}

#[test]
fn block_shorter_than_the_block_size() {
    let mut file = HCAFile::new(&with_block(plain_file(), &noise_block()), KEY2, KEY1).unwrap();
    let mut data = noise_block();
    data.truncate(0xFF);
    let e = file.decode_block(&mut data).err().unwrap();
    assert_eq!(e.kind(), ErrorKind::BadBlock);
    assert_eq!(e.message(), "Block shorter than the block size");
    assert_eq!(data, &noise_block()[..0xFF]);
}
