use gics::errors::ErrorKind;
use gics::filetypes::ath::ath_init;
use gics::filetypes::cipher::{init_cipher56_table, init_mask};
use gics::filetypes::crc::{checksum, verify_checksum};
use gics::filetypes::hca::HCAFile;
use gics::filetypes::header::{HCAHeader, UNIT_VOLUME};
use gics::filetypes::layout::{channel_init, reformulate};

const KEY1: [u8; 4] = [0x21, 0x43, 0x65, 0x87];
const KEY2: [u8; 4] = [0xA9, 0xCB, 0xED, 0x0F];

/// Builds a header from its chunks, with the size and the checksum filled in.
fn header(version: u16, chunks: &[&[u8]]) -> Vec<u8> {
    let size: usize = 8 + chunks.iter().map(|c| c.len()).sum::<usize>() + 2;
    let mut h = b"HCA\0".to_vec();
    h.extend_from_slice(&version.to_be_bytes());
    h.extend_from_slice(&(size as u16).to_be_bytes());
    for c in chunks {
        h.extend_from_slice(c);
    }
    let sum = checksum(&h, h.len());
    h.extend_from_slice(&sum.to_be_bytes());
    h
}

fn fmt(channels: u8, rate: u32, blocks: u32) -> Vec<u8> {
    let mut c = b"fmt\0".to_vec();
    c.push(channels);
    c.extend_from_slice(&rate.to_be_bytes()[1..]);
    c.extend_from_slice(&blocks.to_be_bytes());
    c.extend_from_slice(&[0; 4]);
    c
}

fn comp(block_size: u16, registers: [u8; 8]) -> Vec<u8> {
    let mut c = b"comp".to_vec();
    c.extend_from_slice(&block_size.to_be_bytes());
    c.extend_from_slice(&registers);
    c.extend_from_slice(&[0; 2]);
    c
}

fn dec(block_size: u16, rest: [u8; 6]) -> Vec<u8> {
    let mut c = b"dec\0".to_vec();
    c.extend_from_slice(&block_size.to_be_bytes());
    c.extend_from_slice(&rest);
    c
}

fn ciph(kind: u16) -> Vec<u8> {
    let mut c = b"ciph".to_vec();
    c.extend_from_slice(&kind.to_be_bytes());
    c
}

fn load(version: u16, chunks: &[&[u8]]) -> Result<HCAFile, gics::errors::GICSError> {
    HCAFile::new(&header(version, chunks), KEY2, KEY1)
}

fn bad_header(r: Result<HCAFile, gics::errors::GICSError>, message: &str) {
    let e = r.err().unwrap();
    assert_eq!(e.kind(), ErrorKind::BadHeader);
    assert_eq!(e.message(), message);
}

const REGISTERS: [u8; 8] = [1, 15, 1, 0, 40, 20, 10, 4];

#[test]
fn smallest_header() {
    let file = vec![
        0x48, 0x43, 0x41, 0x00, 0x02, 0x00, 0x00, 0x2A, 0x66, 0x6D, 0x74, 0x00, 0x01, 0x00, 0x56, 0x22,
        0x00, 0x00, 0x00, 0x00, 0x00, 0x00, 0x00, 0x00, 0x63, 0x6F, 0x6D, 0x70, 0x00, 0x00, 0x01, 0x0F,
        0x00, 0x00, 0x00, 0x00, 0x00, 0x00, 0x00, 0x00, 0x94, 0x62,
    ];
    let f = HCAFile::new(&file, KEY2, KEY1).unwrap();
    let h = f.hca_header();
    assert_eq!(h.version, 0x0200);
    assert_eq!(h.data_offset as usize, file.len());
    assert_eq!(h.channel_count, 1);
    assert_eq!(h.sampling_rate, 22050);
    assert_eq!(h.block_count, 0);
    assert_eq!(h.block_size, 0);
    assert_eq!(h.comp_r03, 1);
    assert_eq!(h.comp_r09, 0);
    assert_eq!(h.ath_type, 0);
    assert!(!h.loop_flag);
    assert_eq!(h.cipher_type, 0);
    assert_eq!(h.volume, UNIT_VOLUME);
    assert_eq!(h.volume, 1.0f32.to_bits());
    assert!(f.encrypted());
    assert!(f.data().is_empty());
    assert_eq!(f.header(), &file);
    assert!(f.ath_table().iter().all(|a| *a == 0));
    assert_eq!(f.channel_count(), 1);
    assert_eq!(f.channel(0).kind(), 0);
    assert_eq!(HCAHeader::default().volume, 0);
}

#[test]
fn every_chunk_with_marked_tags() {
    let mut file = vec![
        0xC8, 0xC3, 0xC1, 0x80, 0x02, 0x00, 0x00, 0x67, 0xE6, 0xED, 0xF4, 0x80, 0x06, 0x00, 0xBB, 0x80,
        0x00, 0x00, 0x00, 0x03, 0x00, 0x00, 0x00, 0x00, 0xE3, 0xEF, 0xED, 0xF0, 0x00, 0x40, 0x01, 0x0F,
        0x02, 0x00, 0x80, 0x40, 0x20, 0x08, 0x00, 0x00, 0xF6, 0xE2, 0xF2, 0x80, 0x00, 0x00, 0x00, 0x00,
        0xE1, 0xF4, 0xE8, 0x80, 0x00, 0x00, 0xEC, 0xEF, 0xEF, 0xF0, 0x00, 0x00, 0x00, 0x00, 0x00, 0x00,
        0x00, 0x00, 0x00, 0x00, 0x00, 0x00, 0xE3, 0xE9, 0xF0, 0xE8, 0x00, 0x38, 0xF2, 0xF6, 0xE1, 0x80,
        0x40, 0x00, 0x00, 0x00, 0xE3, 0xEF, 0xED, 0xED, 0x00, 0xF0, 0xE1, 0xE4, 0x80, 0x00, 0x00, 0x00,
        0x00, 0x00, 0x00, 0x00, 0x00, 0x82, 0x87,
    ];
    let plain = vec![
        0x48, 0x43, 0x41, 0x00, 0x02, 0x00, 0x00, 0x67, 0x66, 0x6D, 0x74, 0x00, 0x06, 0x00, 0xBB, 0x80,
        0x00, 0x00, 0x00, 0x03, 0x00, 0x00, 0x00, 0x00, 0x63, 0x6F, 0x6D, 0x70, 0x00, 0x40, 0x01, 0x0F,
        0x02, 0x00, 0x80, 0x40, 0x20, 0x08, 0x00, 0x00, 0x76, 0x62, 0x72, 0x00, 0x00, 0x00, 0x00, 0x00,
        0x61, 0x74, 0x68, 0x00, 0x00, 0x00, 0x6C, 0x6F, 0x6F, 0x70, 0x00, 0x00, 0x00, 0x00, 0x00, 0x00,
        0x00, 0x00, 0x00, 0x00, 0x00, 0x00, 0x63, 0x69, 0x70, 0x68, 0x00, 0x38, 0x72, 0x76, 0x61, 0x00,
        0x40, 0x00, 0x00, 0x00, 0x63, 0x6F, 0x6D, 0x6D, 0x00, 0x70, 0x61, 0x64, 0x00, 0x00, 0x00, 0x00,
        0x00, 0x00, 0x00, 0x00, 0x00, 0x29, 0x64,
    ];
    file.extend_from_slice(&[0x5A; 3 * 0x40]);
    let f = HCAFile::new(&file, KEY2, KEY1).unwrap();
    let h = f.hca_header();
    assert_eq!(h.channel_count, 6);
    assert_eq!(h.sampling_rate, 48000);
    assert_eq!(h.block_count, 3);
    assert_eq!(h.block_size, 0x40);
    assert_eq!(
        (h.comp_r01, h.comp_r02, h.comp_r03, h.comp_r04, h.comp_r05, h.comp_r06, h.comp_r07, h.comp_r08),
        (1, 15, 2, 0, 0x80, 0x40, 0x20, 8)
    );
    assert_eq!(h.comp_r09, 4);
    assert_eq!(h.ath_type, 0);
    assert!(h.loop_flag);
    assert_eq!(h.cipher_type, 0x38);
    assert_eq!(h.volume, 2.0f32.to_bits());
    assert_eq!(f.data(), &vec![0x5A; 3 * 0x40]);
    // the tags are stored plain, under a fresh checksum
    assert_eq!(f.header(), &plain);
    assert!(verify_checksum(f.header()).is_ok());
    // two groups of three channels: a stereo pair and a single channel each
    let kinds: Vec<u8> = (0..6).map(|i| f.channel(i).kind()).collect();
    assert_eq!(kinds, vec![1, 2, 0, 1, 2, 0]);
    let counts: Vec<u32> = (0..6).map(|i| f.channel(i).count()).collect();
    assert_eq!(counts, vec![0x60, 0x40, 0x60, 0x60, 0x40, 0x60]);
}

#[test]
fn header_checksum() {
    let chunks: [&[u8]; 2] = [&fmt(2, 44100, 0), &comp(0, REGISTERS)];
    let mut file = header(0x0200, &chunks);
    // spoil the stored checksum: the file still loads, with a fresh one
    let n = file.len();
    assert!(verify_checksum(&file).is_ok());
    file[n - 1] ^= 0x01;
    let e = verify_checksum(&file).err().unwrap();
    assert_eq!(e.kind(), ErrorKind::BadCRC);
    let f = HCAFile::new(&file, KEY2, KEY1).unwrap();
    let stored = f.header();
    assert!(verify_checksum(stored).is_ok());
    assert_eq!(
        checksum(stored, n - 2).to_be_bytes(),
        [stored[n - 2], stored[n - 1]]
    );
    assert!(verify_checksum(&[0x12]).is_err());
}

#[test]
fn checksum_values() {
    assert_eq!(checksum(b"", 0), 0);
    assert_eq!(checksum(b"123456789", 9), 0xFEE8);
    assert_eq!(checksum(b"123456789", 1), 0x80a5);
    assert_eq!(checksum(&[0x01], 1), 0x8005);
    // a message followed by its own checksum sums to zero
    let mut m = b"cutscene".to_vec();
    let sum = checksum(&m, m.len());
    m.extend_from_slice(&sum.to_be_bytes());
    assert_eq!(checksum(&m, m.len()), 0);
}

#[test]
fn older_files_use_the_hearing_threshold() {
    let chunks: [&[u8]; 2] = [&fmt(1, 44100, 0), &comp(0, REGISTERS)];
    let f = load(0x0103, &chunks).unwrap();
    assert_eq!(f.hca_header().ath_type, 1);
    let expected: [u8; 0x80] = [
        0x78, 0x4C, 0x47, 0x44, 0x43, 0x42, 0x42, 0x41, 0x41, 0x40, 0x3F, 0x3F, 0x3F, 0x3E, 0x3D, 0x3C,
        0x3C, 0x3B, 0x3B, 0x3B, 0x3B, 0x3B, 0x3B, 0x3C, 0x3D, 0x3D, 0x3E, 0x3F, 0x3F, 0x3F, 0x3F, 0x40,
        0x40, 0x40, 0x40, 0x41, 0x41, 0x41, 0x41, 0x41, 0x42, 0x42, 0x42, 0x42, 0x42, 0x43, 0x43, 0x43,
        0x44, 0x44, 0x45, 0x45, 0x45, 0x46, 0x47, 0x47, 0x48, 0x48, 0x49, 0x4A, 0x4A, 0x4B, 0x4C, 0x4D,
        0x4E, 0x4F, 0x50, 0x51, 0x52, 0x53, 0x54, 0x55, 0x57, 0x58, 0x59, 0x5B, 0x5C, 0x5E, 0x5F, 0x61,
        0x63, 0x65, 0x67, 0x68, 0x6B, 0x6D, 0x6F, 0x71, 0x73, 0x76, 0x78, 0x7B, 0x7E, 0x80, 0x84, 0x86,
        0x89, 0x8D, 0x90, 0x93, 0x97, 0x9A, 0x9E, 0xA2, 0xA5, 0xAA, 0xAE, 0xB2, 0xB6, 0xBA, 0xC0, 0xC4,
        0xC9, 0xCE, 0xD3, 0xD9, 0xDE, 0xE3, 0xE9, 0xEF, 0xF4, 0xFB, 0xFF, 0xFF, 0xFF, 0xFF, 0xFF, 0xFF,
    ];
    assert_eq!(f.ath_table(), &expected);
}

#[test]
fn hearing_threshold_tables() {
    assert_eq!(ath_init(0, 44100).unwrap(), [0u8; 0x80]);
    let high: [u8; 0x80] = [
        0x78, 0xFF, 0xFF, 0xFF, 0xFF, 0xFF, 0xFF, 0xFF, 0xFF, 0xFF, 0xFF, 0xFF, 0xFF, 0xFF, 0xFF, 0xFF,
        0xFF, 0xFF, 0xFF, 0xFF, 0xFF, 0xFF, 0xFF, 0xFF, 0xFF, 0xFF, 0xFF, 0xFF, 0xFF, 0xFF, 0xFF, 0xFF,
        0xFF, 0xFF, 0xFF, 0xFF, 0xFF, 0xFF, 0xFF, 0xFF, 0xFF, 0xFF, 0xFF, 0xFF, 0xFF, 0xFF, 0xFF, 0xFF,
        0xFF, 0xFF, 0xFF, 0xFF, 0xFF, 0xFF, 0xFF, 0xFF, 0xFF, 0xFF, 0xFF, 0xFF, 0xFF, 0xFF, 0xFF, 0xFF,
        0xFF, 0xFF, 0xFF, 0xFF, 0xFF, 0xFF, 0xFF, 0xFF, 0xFF, 0xFF, 0xFF, 0xFF, 0xFF, 0xFF, 0xFF, 0xFF,
        0xFF, 0xFF, 0xFF, 0xFF, 0xFF, 0xFF, 0xFF, 0xFF, 0xFF, 0xFF, 0xFF, 0xFF, 0xFF, 0xFF, 0xFF, 0xFF,
        0xFF, 0xFF, 0xFF, 0xFF, 0xFF, 0xFF, 0xFF, 0xFF, 0xFF, 0xFF, 0xFF, 0xFF, 0xFF, 0xFF, 0xFF, 0xFF,
        0xFF, 0xFF, 0xFF, 0xFF, 0xFF, 0xFF, 0xFF, 0xFF, 0xFF, 0xFF, 0xFF, 0xFF, 0xFF, 0xFF, 0xFF, 0xFF,
    ];
    assert_eq!(ath_init(1, 9_000_000).unwrap(), high);
    assert_eq!(ath_init(1, 0).unwrap(), [0x78u8; 0x80]);
    let e = ath_init(2, 44100).err().unwrap();
    assert_eq!(e.kind(), ErrorKind::BadHeader);
    assert_eq!(
        e.message(),
        "ATH table kind unknown. What kind of ATH table are you using, dear?"
    );
}

#[test]
fn hearing_threshold_chunk() {
    let mut ath = b"ath\0".to_vec();
    ath.extend_from_slice(&[0, 1]);
    let chunks: [&[u8]; 3] = [&fmt(1, 44100, 0), &comp(0, REGISTERS), &ath];
    // the type is made of the first type byte alone
    assert_eq!(load(0x0103, &chunks).unwrap().hca_header().ath_type, 0);
    let mut ath = b"ath\0".to_vec();
    ath.extend_from_slice(&[1, 0]);
    let chunks: [&[u8]; 3] = [&fmt(1, 44100, 0), &comp(0, REGISTERS), &ath];
    bad_header(
        load(0x0200, &chunks),
        "ATH table kind unknown. What kind of ATH table are you using, dear?",
    );
}

#[test]
fn cipher_type_0() {
    let mut table = [0xEEu8; 0x100];
    init_mask(0, &KEY1, &KEY2, &mut table);
    for i in 0..0x100 {
        assert_eq!(table[i] as usize, i);
    }
    // a block goes through unchanged
    let chunks: [&[u8]; 3] = [&fmt(1, 44100, 0), &comp(0, REGISTERS), &ciph(0)];
    let f = load(0x0200, &chunks).unwrap();
    let mut data: Vec<u8> = (0..=255).rev().collect();
    let before = data.clone();
    f.mask(&mut data, 256);
    assert_eq!(data, before);
}

#[test]
fn cipher_type_1_first_five() {
    let mut table = [0u8; 0x100];
    init_mask(1, &KEY1, &KEY2, &mut table);
    // the walk 11, 154, 221, 68, 127, ... fills the table from its first
    // entry, which is then pinned to zero
    assert_eq!(&table[0..5], &[0, 0x9A, 0xDD, 0x44, 0x7F]);
    assert_eq!(table[254], 0x0B);
    assert_eq!(table[255], 0xFF);
    let expected: [u8; 0x100] = [
        0x00, 0x9A, 0xDD, 0x44, 0x7F, 0x7E, 0x71, 0xC8, 0x33, 0xA2, 0x45, 0x8C, 0x27, 0x06, 0x59, 0x90,
        0x5B, 0xAA, 0xAD, 0xD4, 0xCF, 0x8E, 0x41, 0x58, 0x83, 0xB2, 0x15, 0x1C, 0x77, 0x16, 0x29, 0x20,
        0xAB, 0xBA, 0x7D, 0x64, 0x1F, 0x9E, 0x11, 0xE8, 0xD3, 0xC2, 0xE5, 0xAC, 0xC7, 0x26, 0xF9, 0xB0,
        0xFB, 0xCA, 0x4D, 0xF4, 0x6F, 0xAE, 0xE1, 0x78, 0x23, 0xD2, 0xB5, 0x3C, 0x17, 0x36, 0xC9, 0x40,
        0x4B, 0xDA, 0x1D, 0x84, 0xBF, 0xBE, 0xB1, 0x08, 0x73, 0xE2, 0x85, 0xCC, 0x67, 0x46, 0x99, 0xD0,
        0x9B, 0xEA, 0xED, 0x14, 0x0F, 0xCE, 0x81, 0x98, 0xC3, 0xF2, 0x55, 0x5C, 0xB7, 0x56, 0x69, 0x60,
        0xEB, 0xFA, 0xBD, 0xA4, 0x5F, 0xDE, 0x51, 0x28, 0x13, 0x02, 0x25, 0xEC, 0x07, 0x66, 0x39, 0xF0,
        0x3B, 0x0A, 0x8D, 0x34, 0xAF, 0xEE, 0x21, 0xB8, 0x63, 0x12, 0xF5, 0x7C, 0x57, 0x76, 0x09, 0x80,
        0x8B, 0x1A, 0x5D, 0xC4, 0xFE, 0xF1, 0x48, 0xB3, 0x22, 0xC5, 0x0C, 0xA7, 0x86, 0xD9, 0x10, 0xDB,
        0x2A, 0x2D, 0x54, 0x4F, 0x0E, 0xC1, 0xD8, 0x03, 0x32, 0x95, 0x9C, 0xF7, 0x96, 0xA9, 0xA0, 0x2B,
        0x3A, 0xFD, 0xE4, 0x9F, 0x1E, 0x91, 0x68, 0x53, 0x42, 0x65, 0x2C, 0x47, 0xA6, 0x79, 0x30, 0x7B,
        0x4A, 0xCD, 0x74, 0xEF, 0x2E, 0x61, 0xF8, 0xA3, 0x52, 0x35, 0xBC, 0x97, 0xB6, 0x49, 0xC0, 0xCB,
        0x5A, 0x9D, 0x04, 0x3F, 0x3E, 0x31, 0x88, 0xF3, 0x62, 0x05, 0x4C, 0xE7, 0xC6, 0x19, 0x50, 0x1B,
        0x6A, 0x6D, 0x94, 0x8F, 0x4E, 0x01, 0x18, 0x43, 0x72, 0xD5, 0xDC, 0x37, 0xD6, 0xE9, 0xE0, 0x6B,
        0x7A, 0x3D, 0x24, 0xDF, 0x5E, 0xD1, 0xA8, 0x93, 0x82, 0xA5, 0x6C, 0x87, 0xE6, 0xB9, 0x70, 0xBB,
        0x8A, 0x0D, 0xB4, 0x2F, 0x6E, 0xA1, 0x38, 0xE3, 0x92, 0x75, 0xFC, 0xD7, 0xF6, 0x89, 0x0B, 0xFF,
    ];
    assert_eq!(table, expected);
}

#[test]
fn cipher_type_56_follows_the_key() {
    let mut table = [0u8; 0x100];
    init_mask(0x38, &KEY1, &KEY2, &mut table);
    let expected: [u8; 0x100] = [
        0x00, 0x84, 0x93, 0xE2, 0x75, 0x40, 0x5D, 0xA6, 0x39, 0x13, 0x6E, 0xF3, 0xC4, 0xDF, 0x2E, 0x81,
        0x90, 0xE1, 0x76, 0x4D, 0x5E, 0xA7, 0x3E, 0x03, 0x14, 0x6B, 0xF8, 0xCD, 0xD0, 0x25, 0xB4, 0x99,
        0xEC, 0x73, 0x46, 0x53, 0xA4, 0x3F, 0x02, 0x11, 0x64, 0xF1, 0xC2, 0xDD, 0x28, 0xB5, 0x8A, 0xE3,
        0x7C, 0x4B, 0x5C, 0xAD, 0x3C, 0x0D, 0x1A, 0x69, 0xFE, 0xC3, 0xD6, 0x27, 0xBA, 0x8F, 0x9E, 0x71,
        0x4C, 0x59, 0xA2, 0x35, 0x04, 0x1F, 0x6A, 0xC0, 0xDB, 0x22, 0xB3, 0x80, 0x9F, 0xE6, 0x49, 0x5A,
        0xA3, 0x3A, 0x07, 0x10, 0x67, 0xF4, 0xC9, 0xDC, 0x29, 0xB0, 0x8D, 0x9C, 0xE5, 0x72, 0x5F, 0xA0,
        0x3B, 0x06, 0x1D, 0x60, 0xFD, 0xCE, 0xD9, 0x2C, 0xB1, 0x86, 0x95, 0xE0, 0x7F, 0x42, 0xA9, 0x38,
        0x01, 0x16, 0x65, 0xFA, 0xCF, 0xD2, 0x2B, 0xB6, 0x8B, 0x9A, 0xE7, 0x78, 0x47, 0x58, 0x31, 0x08,
        0x1B, 0x66, 0xFB, 0xCC, 0xD7, 0x26, 0xBF, 0x8C, 0x9B, 0xEA, 0x7D, 0x48, 0x55, 0xAE, 0x0B, 0x1C,
        0x63, 0xF0, 0xC5, 0xD8, 0x2D, 0xBC, 0x89, 0x98, 0xE9, 0x7E, 0x45, 0x56, 0xAF, 0x36, 0x19, 0x6C,
        0xF9, 0xCA, 0xD5, 0x20, 0xBD, 0x82, 0x91, 0xE4, 0x7B, 0x4E, 0x5B, 0xAC, 0x37, 0x0A, 0x61, 0xF6,
        0xCB, 0xDE, 0x2F, 0xB2, 0x87, 0x96, 0xEB, 0x74, 0x43, 0x54, 0xA5, 0x34, 0x05, 0x12, 0xF7, 0xC8,
        0xD3, 0x2A, 0xBB, 0x88, 0x97, 0xEE, 0x79, 0x44, 0x51, 0xAA, 0x3D, 0x0C, 0x17, 0x62, 0xC1, 0xD4,
        0x21, 0xB8, 0x85, 0x94, 0xED, 0x7A, 0x41, 0x52, 0xAB, 0x32, 0x0F, 0x18, 0x6F, 0xFC, 0xD1, 0x24,
        0xB9, 0x8E, 0x9D, 0xE8, 0x77, 0x4A, 0x57, 0xA8, 0x33, 0x0E, 0x15, 0x68, 0xF5, 0xC6, 0x23, 0xBE,
        0x83, 0x92, 0xEF, 0x70, 0x4F, 0x50, 0xA1, 0x30, 0x09, 0x1E, 0x6D, 0xF2, 0xC7, 0xDA, 0xB7, 0xFF,
    ];
    assert_eq!(table, expected);
    let chunks: [&[u8]; 3] = [&fmt(1, 44100, 0), &comp(0, REGISTERS), &ciph(0x38)];
    let f = load(0x0200, &chunks).unwrap();
    assert_eq!(f.cipher_table(), &expected);
    // the key zero wraps to the key of all ones
    let mut zero = [0u8; 0x100];
    init_mask(0x38, &[0; 4], &[0; 4], &mut zero);
    let wrapped: [u8; 0x100] = [
        0x00, 0x96, 0x4F, 0x33, 0x6D, 0xD2, 0x88, 0x78, 0xA9, 0x11, 0xC7, 0xB4, 0xEE, 0x5A, 0x03, 0x91,
        0x46, 0x34, 0x6C, 0xDD, 0x8D, 0x7B, 0xA8, 0x1A, 0xCE, 0xB7, 0xEB, 0x55, 0x0A, 0xF0, 0x2F, 0x41,
        0x39, 0x6F, 0xDC, 0x86, 0x72, 0xAB, 0x17, 0xC9, 0xBE, 0xEC, 0x54, 0x05, 0xF5, 0x20, 0x90, 0x32,
        0x66, 0xDF, 0x83, 0x7D, 0xA2, 0x18, 0xC8, 0xB9, 0xE1, 0x57, 0x04, 0xFE, 0x25, 0x93, 0x40, 0x61,
        0xD6, 0x84, 0x7C, 0xAD, 0x1D, 0xCB, 0xB8, 0xEA, 0x5E, 0x07, 0xFB, 0x2E, 0x9A, 0x43, 0x3F, 0xD1,
        0x89, 0x7F, 0xAC, 0x16, 0xC2, 0xBB, 0xE7, 0x59, 0x0E, 0xFC, 0x2B, 0x95, 0x4A, 0x30, 0x60, 0x82,
        0x76, 0xAF, 0x13, 0xCD, 0xB2, 0xE8, 0x58, 0x09, 0xF1, 0x2C, 0x94, 0x45, 0x35, 0x63, 0xD0, 0x71,
        0xA6, 0x14, 0xCC, 0xBD, 0xED, 0x5B, 0x08, 0xFA, 0x21, 0x97, 0x44, 0x3E, 0x6A, 0xD3, 0x8F, 0xA1,
        0x19, 0xCF, 0xBC, 0xE6, 0x52, 0x0B, 0xF7, 0x2A, 0x9E, 0x47, 0x3B, 0x65, 0xDA, 0x80, 0x70, 0x12,
        0xC6, 0xBF, 0xE3, 0x5D, 0x02, 0xF8, 0x27, 0x99, 0x4E, 0x3C, 0x64, 0xD5, 0x85, 0x73, 0xA0, 0xC1,
        0xB6, 0xE4, 0x5C, 0x0D, 0xFD, 0x28, 0x98, 0x49, 0x31, 0x67, 0xD4, 0x8E, 0x7A, 0xA3, 0x1F, 0xB1,
        0xE9, 0x5F, 0x0C, 0xF6, 0x2D, 0x9B, 0x48, 0x3A, 0x6E, 0xD7, 0x8B, 0x75, 0xAA, 0x10, 0xC0, 0xE2,
        0x56, 0x0F, 0xF3, 0x26, 0x92, 0x4B, 0x37, 0x69, 0xDE, 0x8C, 0x74, 0xA5, 0x15, 0xC3, 0xB0, 0x51,
        0x06, 0xF4, 0x23, 0x9D, 0x42, 0x38, 0x68, 0xD9, 0x81, 0x77, 0xA4, 0x1E, 0xCA, 0xB3, 0xEF, 0x01,
        0xF9, 0x24, 0x9C, 0x4D, 0x3D, 0x6B, 0xD8, 0x8A, 0x7E, 0xA7, 0x1B, 0xC5, 0xBA, 0xE0, 0x50, 0xF2,
        0x29, 0x9F, 0x4C, 0x36, 0x62, 0xDB, 0x87, 0x79, 0xAE, 0x1C, 0xC4, 0xB5, 0xE5, 0x53, 0x22, 0xFF,
    ];
    assert_eq!(zero, wrapped);
    let mut ones = [0u8; 0x100];
    init_mask(0x38, &[0xFF; 4], &[0xFF; 4], &mut ones);
    assert_ne!(ones, zero);
}

#[test]
fn unknown_cipher_type_leaves_the_table() {
    let mut table = [0x42u8; 0x100];
    init_mask(2, &KEY1, &KEY2, &mut table);
    assert_eq!(table, [0x42u8; 0x100]);
}

#[test]
fn cipher_tables_are_permutations() {
    let keys: [([u8; 4], [u8; 4]); 4] = [
        (KEY1, KEY2),
        ([0; 4], [0; 4]),
        ([0xFF; 4], [0xFF; 4]),
        ([1, 0, 0, 0], [0, 0, 0, 0x80]),
    ];
    for tp in [0u16, 1, 0x38] {
        for (key1, key2) in keys {
            let mut table = [0u8; 0x100];
            init_mask(tp, &key1, &key2, &mut table);
            let mut seen = [false; 0x100];
            for v in table {
                assert!(!seen[v as usize]);
                seen[v as usize] = true;
            }
            assert_eq!(table[0], 0);
            assert_eq!(table[0xFF], 0xFF);
        }
    }
}

#[test]
fn nibble_expansion() {
    assert_eq!(
        init_cipher56_table(0x00),
        [1, 6, 15, 12, 13, 2, 11, 8, 9, 14, 7, 4, 5, 10, 3, 0]
    );
    let t = init_cipher56_table(0xA7);
    let mut sorted = t;
    sorted.sort();
    assert_eq!(sorted, [0, 1, 2, 3, 4, 5, 6, 7, 8, 9, 10, 11, 12, 13, 14, 15]);
    // m = 13, a = 7, from 10
    assert_eq!(t[0], (10 * 13 + 7) % 16);
    assert_eq!(t[1], (t[0] * 13 + 7) % 16);
}

#[test]
fn rounding_up() {
    assert_eq!(reformulate(10, 4), 3);
    assert_eq!(reformulate(12, 4), 3);
    assert_eq!(reformulate(0, 4), 0);
    assert_eq!(reformulate(7, 0), 0);
    assert_eq!(reformulate(u32::MAX, 1), u32::MAX);
    assert_eq!(reformulate(u32::MAX, 2), 0x8000_0000);
}

fn kinds(channels: u16, r03: u32, r04: u32, r07: u32) -> Vec<u8> {
    let mut h = HCAHeader::default();
    h.channel_count = channels;
    h.comp_r01 = 1;
    h.comp_r02 = 15;
    h.comp_r03 = r03;
    h.comp_r04 = r04;
    h.comp_r05 = 0x40;
    h.comp_r06 = 0x20;
    h.comp_r07 = r07;
    let found = channel_init(&mut h).unwrap();
    for c in &found {
        assert_eq!(c.value_3i(), 0x20 + r07);
        assert_eq!(c.count(), 0x20 + if c.kind() == 2 { 0 } else { r07 });
    }
    found.iter().map(|c| c.kind()).collect()
}

#[test]
fn channel_typing() {
    assert_eq!(kinds(1, 1, 0, 8), vec![0]);
    assert_eq!(kinds(2, 1, 0, 8), vec![1, 2]);
    assert_eq!(kinds(2, 1, 0, 0), vec![0, 0]);
    assert_eq!(kinds(2, 2, 0, 8), vec![0, 0]);
    assert_eq!(kinds(3, 1, 0, 8), vec![1, 2, 0]);
    assert_eq!(kinds(4, 1, 0, 8), vec![1, 2, 1, 2]);
    assert_eq!(kinds(4, 1, 1, 8), vec![1, 2, 0, 0]);
    assert_eq!(kinds(4, 2, 0, 8), vec![1, 2, 1, 2]);
    assert_eq!(kinds(5, 1, 2, 8), vec![1, 2, 0, 1, 2]);
    assert_eq!(kinds(5, 1, 3, 8), vec![1, 2, 0, 0, 0]);
    assert_eq!(kinds(6, 1, 0, 8), vec![1, 2, 0, 0, 1, 2]);
    assert_eq!(kinds(7, 1, 0, 8), vec![1, 2, 0, 0, 1, 2, 0]);
    assert_eq!(kinds(8, 1, 0, 8), vec![1, 2, 0, 0, 1, 2, 1, 2]);
    assert_eq!(kinds(9, 1, 0, 8), vec![0; 9]);
    assert_eq!(kinds(7, 2, 0, 8), vec![1, 2, 0, 1, 2, 0, 0]);
    assert_eq!(kinds(16, 2, 0, 8), vec![1, 2, 0, 0, 1, 2, 1, 2, 1, 2, 0, 0, 1, 2, 1, 2]);
}

#[test]
fn channel_layout_must_fit() {
    let mut h = HCAHeader::default();
    h.comp_r01 = 1;
    h.comp_r02 = 15;
    h.comp_r03 = 1;
    h.channel_count = 17;
    let e = channel_init(&mut h).err().unwrap();
    assert_eq!(e.kind(), ErrorKind::BadHeader);
    assert_eq!(e.message(), "Sub-band counts do not fit the channel layout");
    h.channel_count = 2;
    h.comp_r05 = 10;
    h.comp_r06 = 8;
    h.comp_r07 = 3;
    assert!(channel_init(&mut h).is_err());
    h.comp_r05 = 0xFF;
    h.comp_r06 = 0x70;
    h.comp_r07 = 0x10;
    h.comp_r08 = 0x7F;
    assert!(channel_init(&mut h).is_err());
    h.comp_r08 = 0x80;
    assert!(channel_init(&mut h).is_err());
    h.comp_r08 = 0;
    assert_eq!(channel_init(&mut h).unwrap().len(), 2);
    assert_eq!(h.comp_r09, 0);
    h.comp_r02 = 14;
    let e = channel_init(&mut h).err().unwrap();
    assert_eq!(
        e.message(),
        "Comp register values 1 and 2 invalid for channel initialization"
    );
}

#[test]
fn short_form_of_the_compression_chunk() {
    // block size, r01, r02, r05, second count, r03 and r04, second count used
    let chunks: [&[u8]; 2] = [&fmt(2, 44100, 0), &dec(0x20, [1, 15, 0x40, 0x30, 0x12, 1])];
    let h = load(0x0200, &chunks).unwrap().hca_header();
    assert_eq!(h.block_size, 0x20);
    assert_eq!((h.comp_r01, h.comp_r02), (1, 15));
    assert_eq!((h.comp_r03, h.comp_r04), (1, 2));
    assert_eq!((h.comp_r05, h.comp_r06, h.comp_r07, h.comp_r08), (0x40, 0x30, 0x10, 0));
    // without groups the first register is set to one
    let chunks: [&[u8]; 2] = [&fmt(2, 44100, 0), &dec(0x20, [0, 15, 0x40, 0x30, 0x02, 1])];
    let h = load(0x0200, &chunks).unwrap().hca_header();
    assert_eq!((h.comp_r01, h.comp_r03, h.comp_r04), (1, 1, 2));
    // the second count may not exceed the first
    let chunks: [&[u8]; 2] = [&fmt(2, 44100, 0), &dec(0x20, [1, 15, 0x40, 0x41, 0x12, 1])];
    bad_header(load(0x0200, &chunks), "invalid sub-band counts found during HCA header reading");
    let chunks: [&[u8]; 2] = [&fmt(2, 44100, 0), &dec(0x20, [1, 15, 0x40, 0x30, 0x12, 0])];
    bad_header(load(0x0200, &chunks), "invalid sub-band counts found during HCA header reading");
    let chunks: [&[u8]; 2] = [&fmt(2, 44100, 0), &dec(7, [1, 15, 0x40, 0x30, 0x12, 1])];
    bad_header(load(0x0200, &chunks), "invalid block size found during HCA header reading");
}

#[test]
fn broken_headers() {
    let good_fmt = fmt(2, 44100, 0);
    let good_comp = comp(0, REGISTERS);
    let e = HCAFile::new(b"HCA", KEY2, KEY1).err().unwrap();
    assert_eq!(e.kind(), ErrorKind::IOFailure);
    assert_eq!(e.message(), "failed to fill whole buffer");
    bad_header(
        HCAFile::new(b"HCB\0\x02\x00\x00\x08", KEY2, KEY1),
        "unknown signature for version and data_offset block",
    );
    // the header is announced longer than the file
    let mut file = header(0x0200, &[&good_fmt, &good_comp]);
    file[7] += 1;
    assert_eq!(HCAFile::new(&file, KEY2, KEY1).err().unwrap().kind(), ErrorKind::IOFailure);
    bad_header(load(0x0200, &[]), "Broken FMT header");
    bad_header(load(0x0200, &[&good_comp]), "Broken FMT header");
    bad_header(load(0x0200, &[&good_fmt]), "Invalid field");
    bad_header(load(0x0200, &[&good_fmt, &good_fmt]), "Invalid field");
    bad_header(
        load(0x0200, &[&good_fmt, &comp(7, REGISTERS)]),
        "invalid block size during HCA header reading",
    );
    assert!(load(0x0200, &[&good_fmt, &comp(8, REGISTERS)]).is_ok());
    bad_header(
        load(0x0200, &[&good_fmt, &comp(0, [3, 2, 1, 0, 40, 20, 10, 4])]),
        "invalid comp register (1 and 2) values found during HCA header reading",
    );
    bad_header(
        load(0x0200, &[&good_fmt, &comp(0, [1, 0x20, 1, 0, 40, 20, 10, 4])]),
        "invalid comp register (1 and 2) values found during HCA header reading",
    );
    bad_header(
        load(0x0200, &[&good_fmt, &comp(0, [2, 15, 1, 0, 40, 20, 10, 4])]),
        "Comp register values 1 and 2 invalid for channel initialization",
    );
    bad_header(
        load(0x0200, &[&good_fmt, &good_comp, &ciph(2)]),
        "Invalid cipher type found during HCA header reading",
    );
    bad_header(
        load(0x0200, &[&fmt(17, 44100, 0), &good_comp]),
        "Sub-band counts do not fit the channel layout",
    );
}

#[test]
fn blocks_must_be_there() {
    let chunks: [&[u8]; 2] = [&fmt(2, 44100, 2), &comp(0x10, REGISTERS)];
    let mut file = header(0x0200, &chunks);
    file.extend_from_slice(&[1; 0x1F]);
    let e = HCAFile::new(&file, KEY2, KEY1).err().unwrap();
    assert_eq!(e.kind(), ErrorKind::IOFailure);
    file.push(2);
    let f = HCAFile::new(&file, KEY2, KEY1).unwrap();
    assert_eq!(f.data().len(), 0x20);
    assert_eq!(f.data()[0x1F], 2);
    // what follows the blocks is not read
    file.push(3);
    assert_eq!(HCAFile::new(&file, KEY2, KEY1).unwrap().data().len(), 0x20);
}

#[test]
fn volume_after_the_cipher_chunk() {
    let mut rva = b"rva\0".to_vec();
    rva.extend_from_slice(&0.5f32.to_bits().to_be_bytes());
    let chunks: [&[u8]; 4] = [&fmt(1, 44100, 0), &comp(0, REGISTERS), &ciph(1), &rva];
    let h = load(0x0200, &chunks).unwrap().hca_header();
    assert_eq!(h.cipher_type, 1);
    assert_eq!(h.volume, 0.5f32.to_bits());
    // a chunk that comes after its place in the order is not seen
    let chunks: [&[u8]; 4] = [&fmt(1, 44100, 0), &comp(0, REGISTERS), &rva, &ciph(1)];
    let h = load(0x0200, &chunks).unwrap().hca_header();
    assert_eq!(h.cipher_type, 0);
    assert_eq!(h.volume, 0.5f32.to_bits());
    let chunks: [&[u8]; 3] = [&fmt(1, 44100, 0), &comp(0, REGISTERS), &ciph(1)];
    assert_eq!(load(0x0200, &chunks).unwrap().hca_header().volume, UNIT_VOLUME);
}
