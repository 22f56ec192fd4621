//! The cipher tables are permutations of the byte values.

use crate::filetypes::cipher::{
    cipher_table, identity_table, is_edge, kept, keyed_table, lemma_nibble_range, mixed,
    nibble_next, nibble_state, nibbles, row_seeds, seed_bytes, seed_key, substituted, visited,
    walk_state, walk_table,
};
use vstd::prelude::*;
use vstd::relations::injective;
use vstd::set_lib::{lemma_int_range, lemma_len_subset, lemma_subset_equality, set_int_range};

verus! {

/// Whether `t` holds every byte value exactly once.
pub open spec fn is_permutation(t: Seq<u8>) -> bool {
    &&& t.len() == 256
    &&& forall|i: int, j: int| 0 <= i < j < 256 ==> t[i] != t[j]
    &&& forall|v: u8| #[trigger] t.contains(v)
}

/// The walk of cipher type `1`, state by state.
pub const WALK_STATES: [u8; 256] = [
    0x00, 0x0B, 0x9A, 0xDD, 0x44, 0x7F, 0x7E, 0x71, 0xC8, 0x33, 0xA2, 0x45, 0x8C, 0x27, 0x06, 0x59,
    0x90, 0x5B, 0xAA, 0xAD, 0xD4, 0xCF, 0x8E, 0x41, 0x58, 0x83, 0xB2, 0x15, 0x1C, 0x77, 0x16, 0x29,
    0x20, 0xAB, 0xBA, 0x7D, 0x64, 0x1F, 0x9E, 0x11, 0xE8, 0xD3, 0xC2, 0xE5, 0xAC, 0xC7, 0x26, 0xF9,
    0xB0, 0xFB, 0xCA, 0x4D, 0xF4, 0x6F, 0xAE, 0xE1, 0x78, 0x23, 0xD2, 0xB5, 0x3C, 0x17, 0x36, 0xC9,
    0x40, 0x4B, 0xDA, 0x1D, 0x84, 0xBF, 0xBE, 0xB1, 0x08, 0x73, 0xE2, 0x85, 0xCC, 0x67, 0x46, 0x99,
    0xD0, 0x9B, 0xEA, 0xED, 0x14, 0x0F, 0xCE, 0x81, 0x98, 0xC3, 0xF2, 0x55, 0x5C, 0xB7, 0x56, 0x69,
    0x60, 0xEB, 0xFA, 0xBD, 0xA4, 0x5F, 0xDE, 0x51, 0x28, 0x13, 0x02, 0x25, 0xEC, 0x07, 0x66, 0x39,
    0xF0, 0x3B, 0x0A, 0x8D, 0x34, 0xAF, 0xEE, 0x21, 0xB8, 0x63, 0x12, 0xF5, 0x7C, 0x57, 0x76, 0x09,
    0x80, 0x8B, 0x1A, 0x5D, 0xC4, 0xFE, 0xF1, 0x48, 0xB3, 0x22, 0xC5, 0x0C, 0xA7, 0x86, 0xD9, 0x10,
    0xDB, 0x2A, 0x2D, 0x54, 0x4F, 0x0E, 0xC1, 0xD8, 0x03, 0x32, 0x95, 0x9C, 0xF7, 0x96, 0xA9, 0xA0,
    0x2B, 0x3A, 0xFD, 0xE4, 0x9F, 0x1E, 0x91, 0x68, 0x53, 0x42, 0x65, 0x2C, 0x47, 0xA6, 0x79, 0x30,
    0x7B, 0x4A, 0xCD, 0x74, 0xEF, 0x2E, 0x61, 0xF8, 0xA3, 0x52, 0x35, 0xBC, 0x97, 0xB6, 0x49, 0xC0,
    0xCB, 0x5A, 0x9D, 0x04, 0x3F, 0x3E, 0x31, 0x88, 0xF3, 0x62, 0x05, 0x4C, 0xE7, 0xC6, 0x19, 0x50,
    0x1B, 0x6A, 0x6D, 0x94, 0x8F, 0x4E, 0x01, 0x18, 0x43, 0x72, 0xD5, 0xDC, 0x37, 0xD6, 0xE9, 0xE0,
    0x6B, 0x7A, 0x3D, 0x24, 0xDF, 0x5E, 0xD1, 0xA8, 0x93, 0x82, 0xA5, 0x6C, 0x87, 0xE6, 0xB9, 0x70,
    0xBB, 0x8A, 0x0D, 0xB4, 0x2F, 0x6E, 0xA1, 0x38, 0xE3, 0x92, 0x75, 0xFC, 0xD7, 0xF6, 0x89, 0x0B,
];

/// Where each byte value stands in the table of cipher type `1`.
pub const WALK_PLACES: [u8; 256] = [
    0x00, 0xD5, 0x69, 0x97, 0xC2, 0xC9, 0x0D, 0x6C, 0x47, 0x7E, 0x71, 0xFE, 0x8A, 0xF1, 0x94, 0x54,
    0x8E, 0x26, 0x79, 0x68, 0x53, 0x1A, 0x1D, 0x3C, 0xD6, 0xCD, 0x81, 0xCF, 0x1B, 0x42, 0xA4, 0x24,
    0x1F, 0x76, 0x88, 0x38, 0xE2, 0x6A, 0x2D, 0x0C, 0x67, 0x1E, 0x90, 0x9F, 0xAA, 0x91, 0xB4, 0xF3,
    0xAE, 0xC5, 0x98, 0x08, 0x73, 0xB9, 0x3D, 0xDB, 0xF6, 0x6E, 0xA0, 0x70, 0x3B, 0xE1, 0xC4, 0xC3,
    0x3F, 0x16, 0xA8, 0xD7, 0x03, 0x0A, 0x4D, 0xAB, 0x86, 0xBD, 0xB0, 0x40, 0xCA, 0x32, 0xD4, 0x93,
    0xCE, 0x66, 0xB8, 0xA7, 0x92, 0x5A, 0x5D, 0x7C, 0x17, 0x0E, 0xC0, 0x10, 0x5B, 0x82, 0xE4, 0x64,
    0x5F, 0xB5, 0xC8, 0x78, 0x23, 0xA9, 0x6D, 0x4C, 0xA6, 0x5E, 0xD0, 0xDF, 0xEA, 0xD1, 0xF4, 0x34,
    0xEE, 0x06, 0xD8, 0x48, 0xB2, 0xF9, 0x7D, 0x1C, 0x37, 0xAD, 0xE0, 0xAF, 0x7B, 0x22, 0x05, 0x04,
    0x7F, 0x56, 0xE8, 0x18, 0x43, 0x4A, 0x8C, 0xEB, 0xC6, 0xFD, 0xF0, 0x80, 0x0B, 0x72, 0x15, 0xD3,
    0x0F, 0xA5, 0xF8, 0xE7, 0xD2, 0x99, 0x9C, 0xBB, 0x57, 0x4E, 0x01, 0x50, 0x9A, 0xC1, 0x25, 0xA3,
    0x9E, 0xF5, 0x09, 0xB7, 0x63, 0xE9, 0xAC, 0x8B, 0xE6, 0x9D, 0x11, 0x20, 0x2B, 0x12, 0x35, 0x74,
    0x2F, 0x46, 0x19, 0x87, 0xF2, 0x3A, 0xBC, 0x5C, 0x77, 0xED, 0x21, 0xEF, 0xBA, 0x62, 0x45, 0x44,
    0xBE, 0x95, 0x29, 0x58, 0x83, 0x89, 0xCC, 0x2C, 0x07, 0x3E, 0x31, 0xBF, 0x4B, 0xB1, 0x55, 0x14,
    0x4F, 0xE5, 0x39, 0x28, 0x13, 0xD9, 0xDC, 0xFB, 0x96, 0x8D, 0x41, 0x8F, 0xDA, 0x02, 0x65, 0xE3,
    0xDE, 0x36, 0x49, 0xF7, 0xA2, 0x2A, 0xEC, 0xCB, 0x27, 0xDD, 0x51, 0x60, 0x6B, 0x52, 0x75, 0xB3,
    0x6F, 0x85, 0x59, 0xC7, 0x33, 0x7A, 0xFC, 0x9B, 0xB6, 0x2E, 0x61, 0x30, 0xFA, 0xA1, 0x84, 0xFF,
];

/// The table of cipher type `0` leaves every block as it is.
pub proof fn lemma_identity_substitution(data: Seq<u8>, size: int)
    ensures
        substituted(identity_table(), data, size) == data,
{
    assert(substituted(identity_table(), data, size) =~= data);
}

/// The table of cipher type `0` is a permutation.
pub proof fn lemma_identity_permutation()
    ensures
        is_permutation(identity_table()),
{
    let t = identity_table();
    assert forall|v: u8| #[trigger] t.contains(v) by {
        assert(t[v as int] == v);
    }
}

proof fn lemma_walk_states_00()
    ensures
        walk_state(0) == 0x00,
        walk_state(1) == 0x0B,
        walk_state(2) == 0x9A,
        walk_state(3) == 0xDD,
        walk_state(4) == 0x44,
        walk_state(5) == 0x7F,
        walk_state(6) == 0x7E,
        walk_state(7) == 0x71,
        walk_state(8) == 0xC8,
        walk_state(9) == 0x33,
        walk_state(10) == 0xA2,
        walk_state(11) == 0x45,
        walk_state(12) == 0x8C,
        walk_state(13) == 0x27,
        walk_state(14) == 0x06,
        walk_state(15) == 0x59,
{
    assert(walk_state(0) == 0);
    assert(walk_state(1) == 0x0B);
    assert(walk_state(2) == 0x9A);
    assert(walk_state(3) == 0xDD);
    assert(walk_state(4) == 0x44);
    assert(walk_state(5) == 0x7F);
    assert(walk_state(6) == 0x7E);
    assert(walk_state(7) == 0x71);
    assert(walk_state(8) == 0xC8);
    assert(walk_state(9) == 0x33);
    assert(walk_state(10) == 0xA2);
    assert(walk_state(11) == 0x45);
    assert(walk_state(12) == 0x8C);
    assert(walk_state(13) == 0x27);
    assert(walk_state(14) == 0x06);
    assert(walk_state(15) == 0x59);
}

proof fn lemma_walk_states_10()
    ensures
        walk_state(16) == 0x90,
        walk_state(17) == 0x5B,
        walk_state(18) == 0xAA,
        walk_state(19) == 0xAD,
        walk_state(20) == 0xD4,
        walk_state(21) == 0xCF,
        walk_state(22) == 0x8E,
        walk_state(23) == 0x41,
        walk_state(24) == 0x58,
        walk_state(25) == 0x83,
        walk_state(26) == 0xB2,
        walk_state(27) == 0x15,
        walk_state(28) == 0x1C,
        walk_state(29) == 0x77,
        walk_state(30) == 0x16,
        walk_state(31) == 0x29,
{
    lemma_walk_states_00();
    assert(walk_state(16) == 0x90);
    assert(walk_state(17) == 0x5B);
    assert(walk_state(18) == 0xAA);
    assert(walk_state(19) == 0xAD);
    assert(walk_state(20) == 0xD4);
    assert(walk_state(21) == 0xCF);
    assert(walk_state(22) == 0x8E);
    assert(walk_state(23) == 0x41);
    assert(walk_state(24) == 0x58);
    assert(walk_state(25) == 0x83);
    assert(walk_state(26) == 0xB2);
    assert(walk_state(27) == 0x15);
    assert(walk_state(28) == 0x1C);
    assert(walk_state(29) == 0x77);
    assert(walk_state(30) == 0x16);
    assert(walk_state(31) == 0x29);
}

proof fn lemma_walk_states_20()
    ensures
        walk_state(32) == 0x20,
        walk_state(33) == 0xAB,
        walk_state(34) == 0xBA,
        walk_state(35) == 0x7D,
        walk_state(36) == 0x64,
        walk_state(37) == 0x1F,
        walk_state(38) == 0x9E,
        walk_state(39) == 0x11,
        walk_state(40) == 0xE8,
        walk_state(41) == 0xD3,
        walk_state(42) == 0xC2,
        walk_state(43) == 0xE5,
        walk_state(44) == 0xAC,
        walk_state(45) == 0xC7,
        walk_state(46) == 0x26,
        walk_state(47) == 0xF9,
{
    lemma_walk_states_10();
    assert(walk_state(32) == 0x20);
    assert(walk_state(33) == 0xAB);
    assert(walk_state(34) == 0xBA);
    assert(walk_state(35) == 0x7D);
    assert(walk_state(36) == 0x64);
    assert(walk_state(37) == 0x1F);
    assert(walk_state(38) == 0x9E);
    assert(walk_state(39) == 0x11);
    assert(walk_state(40) == 0xE8);
    assert(walk_state(41) == 0xD3);
    assert(walk_state(42) == 0xC2);
    assert(walk_state(43) == 0xE5);
    assert(walk_state(44) == 0xAC);
    assert(walk_state(45) == 0xC7);
    assert(walk_state(46) == 0x26);
    assert(walk_state(47) == 0xF9);
}

proof fn lemma_walk_states_30()
    ensures
        walk_state(48) == 0xB0,
        walk_state(49) == 0xFB,
        walk_state(50) == 0xCA,
        walk_state(51) == 0x4D,
        walk_state(52) == 0xF4,
        walk_state(53) == 0x6F,
        walk_state(54) == 0xAE,
        walk_state(55) == 0xE1,
        walk_state(56) == 0x78,
        walk_state(57) == 0x23,
        walk_state(58) == 0xD2,
        walk_state(59) == 0xB5,
        walk_state(60) == 0x3C,
        walk_state(61) == 0x17,
        walk_state(62) == 0x36,
        walk_state(63) == 0xC9,
{
    lemma_walk_states_20();
    assert(walk_state(48) == 0xB0);
    assert(walk_state(49) == 0xFB);
    assert(walk_state(50) == 0xCA);
    assert(walk_state(51) == 0x4D);
    assert(walk_state(52) == 0xF4);
    assert(walk_state(53) == 0x6F);
    assert(walk_state(54) == 0xAE);
    assert(walk_state(55) == 0xE1);
    assert(walk_state(56) == 0x78);
    assert(walk_state(57) == 0x23);
    assert(walk_state(58) == 0xD2);
    assert(walk_state(59) == 0xB5);
    assert(walk_state(60) == 0x3C);
    assert(walk_state(61) == 0x17);
    assert(walk_state(62) == 0x36);
    assert(walk_state(63) == 0xC9);
}

proof fn lemma_walk_states_40()
    ensures
        walk_state(64) == 0x40,
        walk_state(65) == 0x4B,
        walk_state(66) == 0xDA,
        walk_state(67) == 0x1D,
        walk_state(68) == 0x84,
        walk_state(69) == 0xBF,
        walk_state(70) == 0xBE,
        walk_state(71) == 0xB1,
        walk_state(72) == 0x08,
        walk_state(73) == 0x73,
        walk_state(74) == 0xE2,
        walk_state(75) == 0x85,
        walk_state(76) == 0xCC,
        walk_state(77) == 0x67,
        walk_state(78) == 0x46,
        walk_state(79) == 0x99,
{
    lemma_walk_states_30();
    assert(walk_state(64) == 0x40);
    assert(walk_state(65) == 0x4B);
    assert(walk_state(66) == 0xDA);
    assert(walk_state(67) == 0x1D);
    assert(walk_state(68) == 0x84);
    assert(walk_state(69) == 0xBF);
    assert(walk_state(70) == 0xBE);
    assert(walk_state(71) == 0xB1);
    assert(walk_state(72) == 0x08);
    assert(walk_state(73) == 0x73);
    assert(walk_state(74) == 0xE2);
    assert(walk_state(75) == 0x85);
    assert(walk_state(76) == 0xCC);
    assert(walk_state(77) == 0x67);
    assert(walk_state(78) == 0x46);
    assert(walk_state(79) == 0x99);
}

proof fn lemma_walk_states_50()
    ensures
        walk_state(80) == 0xD0,
        walk_state(81) == 0x9B,
        walk_state(82) == 0xEA,
        walk_state(83) == 0xED,
        walk_state(84) == 0x14,
        walk_state(85) == 0x0F,
        walk_state(86) == 0xCE,
        walk_state(87) == 0x81,
        walk_state(88) == 0x98,
        walk_state(89) == 0xC3,
        walk_state(90) == 0xF2,
        walk_state(91) == 0x55,
        walk_state(92) == 0x5C,
        walk_state(93) == 0xB7,
        walk_state(94) == 0x56,
        walk_state(95) == 0x69,
{
    lemma_walk_states_40();
    assert(walk_state(80) == 0xD0);
    assert(walk_state(81) == 0x9B);
    assert(walk_state(82) == 0xEA);
    assert(walk_state(83) == 0xED);
    assert(walk_state(84) == 0x14);
    assert(walk_state(85) == 0x0F);
    assert(walk_state(86) == 0xCE);
    assert(walk_state(87) == 0x81);
    assert(walk_state(88) == 0x98);
    assert(walk_state(89) == 0xC3);
    assert(walk_state(90) == 0xF2);
    assert(walk_state(91) == 0x55);
    assert(walk_state(92) == 0x5C);
    assert(walk_state(93) == 0xB7);
    assert(walk_state(94) == 0x56);
    assert(walk_state(95) == 0x69);
}

proof fn lemma_walk_states_60()
    ensures
        walk_state(96) == 0x60,
        walk_state(97) == 0xEB,
        walk_state(98) == 0xFA,
        walk_state(99) == 0xBD,
        walk_state(100) == 0xA4,
        walk_state(101) == 0x5F,
        walk_state(102) == 0xDE,
        walk_state(103) == 0x51,
        walk_state(104) == 0x28,
        walk_state(105) == 0x13,
        walk_state(106) == 0x02,
        walk_state(107) == 0x25,
        walk_state(108) == 0xEC,
        walk_state(109) == 0x07,
        walk_state(110) == 0x66,
        walk_state(111) == 0x39,
{
    lemma_walk_states_50();
    assert(walk_state(96) == 0x60);
    assert(walk_state(97) == 0xEB);
    assert(walk_state(98) == 0xFA);
    assert(walk_state(99) == 0xBD);
    assert(walk_state(100) == 0xA4);
    assert(walk_state(101) == 0x5F);
    assert(walk_state(102) == 0xDE);
    assert(walk_state(103) == 0x51);
    assert(walk_state(104) == 0x28);
    assert(walk_state(105) == 0x13);
    assert(walk_state(106) == 0x02);
    assert(walk_state(107) == 0x25);
    assert(walk_state(108) == 0xEC);
    assert(walk_state(109) == 0x07);
    assert(walk_state(110) == 0x66);
    assert(walk_state(111) == 0x39);
}

proof fn lemma_walk_states_70()
    ensures
        walk_state(112) == 0xF0,
        walk_state(113) == 0x3B,
        walk_state(114) == 0x0A,
        walk_state(115) == 0x8D,
        walk_state(116) == 0x34,
        walk_state(117) == 0xAF,
        walk_state(118) == 0xEE,
        walk_state(119) == 0x21,
        walk_state(120) == 0xB8,
        walk_state(121) == 0x63,
        walk_state(122) == 0x12,
        walk_state(123) == 0xF5,
        walk_state(124) == 0x7C,
        walk_state(125) == 0x57,
        walk_state(126) == 0x76,
        walk_state(127) == 0x09,
{
    lemma_walk_states_60();
    assert(walk_state(112) == 0xF0);
    assert(walk_state(113) == 0x3B);
    assert(walk_state(114) == 0x0A);
    assert(walk_state(115) == 0x8D);
    assert(walk_state(116) == 0x34);
    assert(walk_state(117) == 0xAF);
    assert(walk_state(118) == 0xEE);
    assert(walk_state(119) == 0x21);
    assert(walk_state(120) == 0xB8);
    assert(walk_state(121) == 0x63);
    assert(walk_state(122) == 0x12);
    assert(walk_state(123) == 0xF5);
    assert(walk_state(124) == 0x7C);
    assert(walk_state(125) == 0x57);
    assert(walk_state(126) == 0x76);
    assert(walk_state(127) == 0x09);
}

proof fn lemma_walk_states_80()
    ensures
        walk_state(128) == 0x80,
        walk_state(129) == 0x8B,
        walk_state(130) == 0x1A,
        walk_state(131) == 0x5D,
        walk_state(132) == 0xC4,
        walk_state(133) == 0xFE,
        walk_state(134) == 0xF1,
        walk_state(135) == 0x48,
        walk_state(136) == 0xB3,
        walk_state(137) == 0x22,
        walk_state(138) == 0xC5,
        walk_state(139) == 0x0C,
        walk_state(140) == 0xA7,
        walk_state(141) == 0x86,
        walk_state(142) == 0xD9,
        walk_state(143) == 0x10,
{
    lemma_walk_states_70();
    assert(walk_state(128) == 0x80);
    assert(walk_state(129) == 0x8B);
    assert(walk_state(130) == 0x1A);
    assert(walk_state(131) == 0x5D);
    assert(walk_state(132) == 0xC4);
    assert(walk_state(133) == 0xFE);
    assert(walk_state(134) == 0xF1);
    assert(walk_state(135) == 0x48);
    assert(walk_state(136) == 0xB3);
    assert(walk_state(137) == 0x22);
    assert(walk_state(138) == 0xC5);
    assert(walk_state(139) == 0x0C);
    assert(walk_state(140) == 0xA7);
    assert(walk_state(141) == 0x86);
    assert(walk_state(142) == 0xD9);
    assert(walk_state(143) == 0x10);
}

proof fn lemma_walk_states_90()
    ensures
        walk_state(144) == 0xDB,
        walk_state(145) == 0x2A,
        walk_state(146) == 0x2D,
        walk_state(147) == 0x54,
        walk_state(148) == 0x4F,
        walk_state(149) == 0x0E,
        walk_state(150) == 0xC1,
        walk_state(151) == 0xD8,
        walk_state(152) == 0x03,
        walk_state(153) == 0x32,
        walk_state(154) == 0x95,
        walk_state(155) == 0x9C,
        walk_state(156) == 0xF7,
        walk_state(157) == 0x96,
        walk_state(158) == 0xA9,
        walk_state(159) == 0xA0,
{
    lemma_walk_states_80();
    assert(walk_state(144) == 0xDB);
    assert(walk_state(145) == 0x2A);
    assert(walk_state(146) == 0x2D);
    assert(walk_state(147) == 0x54);
    assert(walk_state(148) == 0x4F);
    assert(walk_state(149) == 0x0E);
    assert(walk_state(150) == 0xC1);
    assert(walk_state(151) == 0xD8);
    assert(walk_state(152) == 0x03);
    assert(walk_state(153) == 0x32);
    assert(walk_state(154) == 0x95);
    assert(walk_state(155) == 0x9C);
    assert(walk_state(156) == 0xF7);
    assert(walk_state(157) == 0x96);
    assert(walk_state(158) == 0xA9);
    assert(walk_state(159) == 0xA0);
}

proof fn lemma_walk_states_a0()
    ensures
        walk_state(160) == 0x2B,
        walk_state(161) == 0x3A,
        walk_state(162) == 0xFD,
        walk_state(163) == 0xE4,
        walk_state(164) == 0x9F,
        walk_state(165) == 0x1E,
        walk_state(166) == 0x91,
        walk_state(167) == 0x68,
        walk_state(168) == 0x53,
        walk_state(169) == 0x42,
        walk_state(170) == 0x65,
        walk_state(171) == 0x2C,
        walk_state(172) == 0x47,
        walk_state(173) == 0xA6,
        walk_state(174) == 0x79,
        walk_state(175) == 0x30,
{
    lemma_walk_states_90();
    assert(walk_state(160) == 0x2B);
    assert(walk_state(161) == 0x3A);
    assert(walk_state(162) == 0xFD);
    assert(walk_state(163) == 0xE4);
    assert(walk_state(164) == 0x9F);
    assert(walk_state(165) == 0x1E);
    assert(walk_state(166) == 0x91);
    assert(walk_state(167) == 0x68);
    assert(walk_state(168) == 0x53);
    assert(walk_state(169) == 0x42);
    assert(walk_state(170) == 0x65);
    assert(walk_state(171) == 0x2C);
    assert(walk_state(172) == 0x47);
    assert(walk_state(173) == 0xA6);
    assert(walk_state(174) == 0x79);
    assert(walk_state(175) == 0x30);
}

proof fn lemma_walk_states_b0()
    ensures
        walk_state(176) == 0x7B,
        walk_state(177) == 0x4A,
        walk_state(178) == 0xCD,
        walk_state(179) == 0x74,
        walk_state(180) == 0xEF,
        walk_state(181) == 0x2E,
        walk_state(182) == 0x61,
        walk_state(183) == 0xF8,
        walk_state(184) == 0xA3,
        walk_state(185) == 0x52,
        walk_state(186) == 0x35,
        walk_state(187) == 0xBC,
        walk_state(188) == 0x97,
        walk_state(189) == 0xB6,
        walk_state(190) == 0x49,
        walk_state(191) == 0xC0,
{
    lemma_walk_states_a0();
    assert(walk_state(176) == 0x7B);
    assert(walk_state(177) == 0x4A);
    assert(walk_state(178) == 0xCD);
    assert(walk_state(179) == 0x74);
    assert(walk_state(180) == 0xEF);
    assert(walk_state(181) == 0x2E);
    assert(walk_state(182) == 0x61);
    assert(walk_state(183) == 0xF8);
    assert(walk_state(184) == 0xA3);
    assert(walk_state(185) == 0x52);
    assert(walk_state(186) == 0x35);
    assert(walk_state(187) == 0xBC);
    assert(walk_state(188) == 0x97);
    assert(walk_state(189) == 0xB6);
    assert(walk_state(190) == 0x49);
    assert(walk_state(191) == 0xC0);
}

proof fn lemma_walk_states_c0()
    ensures
        walk_state(192) == 0xCB,
        walk_state(193) == 0x5A,
        walk_state(194) == 0x9D,
        walk_state(195) == 0x04,
        walk_state(196) == 0x3F,
        walk_state(197) == 0x3E,
        walk_state(198) == 0x31,
        walk_state(199) == 0x88,
        walk_state(200) == 0xF3,
        walk_state(201) == 0x62,
        walk_state(202) == 0x05,
        walk_state(203) == 0x4C,
        walk_state(204) == 0xE7,
        walk_state(205) == 0xC6,
        walk_state(206) == 0x19,
        walk_state(207) == 0x50,
{
    lemma_walk_states_b0();
    assert(walk_state(192) == 0xCB);
    assert(walk_state(193) == 0x5A);
    assert(walk_state(194) == 0x9D);
    assert(walk_state(195) == 0x04);
    assert(walk_state(196) == 0x3F);
    assert(walk_state(197) == 0x3E);
    assert(walk_state(198) == 0x31);
    assert(walk_state(199) == 0x88);
    assert(walk_state(200) == 0xF3);
    assert(walk_state(201) == 0x62);
    assert(walk_state(202) == 0x05);
    assert(walk_state(203) == 0x4C);
    assert(walk_state(204) == 0xE7);
    assert(walk_state(205) == 0xC6);
    assert(walk_state(206) == 0x19);
    assert(walk_state(207) == 0x50);
}

proof fn lemma_walk_states_d0()
    ensures
        walk_state(208) == 0x1B,
        walk_state(209) == 0x6A,
        walk_state(210) == 0x6D,
        walk_state(211) == 0x94,
        walk_state(212) == 0x8F,
        walk_state(213) == 0x4E,
        walk_state(214) == 0x01,
        walk_state(215) == 0x18,
        walk_state(216) == 0x43,
        walk_state(217) == 0x72,
        walk_state(218) == 0xD5,
        walk_state(219) == 0xDC,
        walk_state(220) == 0x37,
        walk_state(221) == 0xD6,
        walk_state(222) == 0xE9,
        walk_state(223) == 0xE0,
{
    lemma_walk_states_c0();
    assert(walk_state(208) == 0x1B);
    assert(walk_state(209) == 0x6A);
    assert(walk_state(210) == 0x6D);
    assert(walk_state(211) == 0x94);
    assert(walk_state(212) == 0x8F);
    assert(walk_state(213) == 0x4E);
    assert(walk_state(214) == 0x01);
    assert(walk_state(215) == 0x18);
    assert(walk_state(216) == 0x43);
    assert(walk_state(217) == 0x72);
    assert(walk_state(218) == 0xD5);
    assert(walk_state(219) == 0xDC);
    assert(walk_state(220) == 0x37);
    assert(walk_state(221) == 0xD6);
    assert(walk_state(222) == 0xE9);
    assert(walk_state(223) == 0xE0);
}

proof fn lemma_walk_states_e0()
    ensures
        walk_state(224) == 0x6B,
        walk_state(225) == 0x7A,
        walk_state(226) == 0x3D,
        walk_state(227) == 0x24,
        walk_state(228) == 0xDF,
        walk_state(229) == 0x5E,
        walk_state(230) == 0xD1,
        walk_state(231) == 0xA8,
        walk_state(232) == 0x93,
        walk_state(233) == 0x82,
        walk_state(234) == 0xA5,
        walk_state(235) == 0x6C,
        walk_state(236) == 0x87,
        walk_state(237) == 0xE6,
        walk_state(238) == 0xB9,
        walk_state(239) == 0x70,
{
    lemma_walk_states_d0();
    assert(walk_state(224) == 0x6B);
    assert(walk_state(225) == 0x7A);
    assert(walk_state(226) == 0x3D);
    assert(walk_state(227) == 0x24);
    assert(walk_state(228) == 0xDF);
    assert(walk_state(229) == 0x5E);
    assert(walk_state(230) == 0xD1);
    assert(walk_state(231) == 0xA8);
    assert(walk_state(232) == 0x93);
    assert(walk_state(233) == 0x82);
    assert(walk_state(234) == 0xA5);
    assert(walk_state(235) == 0x6C);
    assert(walk_state(236) == 0x87);
    assert(walk_state(237) == 0xE6);
    assert(walk_state(238) == 0xB9);
    assert(walk_state(239) == 0x70);
}

proof fn lemma_walk_states_f0()
    ensures
        walk_state(240) == 0xBB,
        walk_state(241) == 0x8A,
        walk_state(242) == 0x0D,
        walk_state(243) == 0xB4,
        walk_state(244) == 0x2F,
        walk_state(245) == 0x6E,
        walk_state(246) == 0xA1,
        walk_state(247) == 0x38,
        walk_state(248) == 0xE3,
        walk_state(249) == 0x92,
        walk_state(250) == 0x75,
        walk_state(251) == 0xFC,
        walk_state(252) == 0xD7,
        walk_state(253) == 0xF6,
        walk_state(254) == 0x89,
        walk_state(255) == 0x0B,
{
    lemma_walk_states_e0();
    assert(walk_state(240) == 0xBB);
    assert(walk_state(241) == 0x8A);
    assert(walk_state(242) == 0x0D);
    assert(walk_state(243) == 0xB4);
    assert(walk_state(244) == 0x2F);
    assert(walk_state(245) == 0x6E);
    assert(walk_state(246) == 0xA1);
    assert(walk_state(247) == 0x38);
    assert(walk_state(248) == 0xE3);
    assert(walk_state(249) == 0x92);
    assert(walk_state(250) == 0x75);
    assert(walk_state(251) == 0xFC);
    assert(walk_state(252) == 0xD7);
    assert(walk_state(253) == 0xF6);
    assert(walk_state(254) == 0x89);
    assert(walk_state(255) == 0x0B);
}

proof fn lemma_walk_states(n: nat)
    requires
        n <= 255,
    ensures
        walk_state(n) == WALK_STATES@[n as int],
{
    if n < 16 {
        lemma_walk_states_00();
    }     else if n < 32 {
        lemma_walk_states_10();
    }     else if n < 48 {
        lemma_walk_states_20();
    }     else if n < 64 {
        lemma_walk_states_30();
    }     else if n < 80 {
        lemma_walk_states_40();
    }     else if n < 96 {
        lemma_walk_states_50();
    }     else if n < 112 {
        lemma_walk_states_60();
    }     else if n < 128 {
        lemma_walk_states_70();
    }     else if n < 144 {
        lemma_walk_states_80();
    }     else if n < 160 {
        lemma_walk_states_90();
    }     else if n < 176 {
        lemma_walk_states_a0();
    }     else if n < 192 {
        lemma_walk_states_b0();
    }     else if n < 208 {
        lemma_walk_states_c0();
    }     else if n < 224 {
        lemma_walk_states_d0();
    }     else if n < 240 {
        lemma_walk_states_e0();
    }     else if n < 256 {
        lemma_walk_states_f0();
    }
}

proof fn lemma_walk_places(i: int)
    requires
        0 <= i < 256,
    ensures
        1 <= i < 255 ==> WALK_PLACES@[WALK_STATES@[i + 1] as int] == i,
        WALK_PLACES@[0] == 0,
        WALK_PLACES@[255] == 255,
        1 <= WALK_PLACES@[i] < 255 ==> WALK_STATES@[WALK_PLACES@[i] + 1] == i,
        WALK_PLACES@[i] == 0 ==> i == 0,
        WALK_PLACES@[i] == 255 ==> i == 255,
{
}

/// The table of cipher type `1` is a permutation.
pub proof fn lemma_walk_permutation()
    ensures
        is_permutation(walk_table()),
{
    let t = walk_table();
    assert forall|i: int| 0 <= i < 256 implies WALK_PLACES@[#[trigger] t[i] as int] == i by {
        lemma_walk_places(i);
        if 1 <= i < 255 {
            lemma_walk_states((i + 1) as nat);
        }
    }
    assert forall|i: int, j: int| 0 <= i < j < 256 implies t[i] != t[j] by {
        assert(WALK_PLACES@[t[i] as int] == i);
        assert(WALK_PLACES@[t[j] as int] == j);
    }
    assert forall|v: u8| #[trigger] t.contains(v) by {
        let i = WALK_PLACES@[v as int] as int;
        lemma_walk_places(v as int);
        if 1 <= i < 255 {
            lemma_walk_states((i + 1) as nat);
        }
        assert(t[i] == v);
    }
}

/// One step of the nibble walk of `b` from `k`.
pub open spec fn hop_1(b: u8, k: u8) -> u8 {
    nibble_next(b, k)
}

/// 2 steps of the nibble walk of `b` from `k`.
pub open spec fn hop_2(b: u8, k: u8) -> u8 {
    nibble_next(b, hop_1(b, k))
}

/// 3 steps of the nibble walk of `b` from `k`.
pub open spec fn hop_3(b: u8, k: u8) -> u8 {
    nibble_next(b, hop_2(b, k))
}

/// 4 steps of the nibble walk of `b` from `k`.
pub open spec fn hop_4(b: u8, k: u8) -> u8 {
    nibble_next(b, hop_3(b, k))
}

/// 5 steps of the nibble walk of `b` from `k`.
pub open spec fn hop_5(b: u8, k: u8) -> u8 {
    nibble_next(b, hop_4(b, k))
}

/// 6 steps of the nibble walk of `b` from `k`.
pub open spec fn hop_6(b: u8, k: u8) -> u8 {
    nibble_next(b, hop_5(b, k))
}

/// 7 steps of the nibble walk of `b` from `k`.
pub open spec fn hop_7(b: u8, k: u8) -> u8 {
    nibble_next(b, hop_6(b, k))
}

/// 8 steps of the nibble walk of `b` from `k`.
pub open spec fn hop_8(b: u8, k: u8) -> u8 {
    nibble_next(b, hop_7(b, k))
}

/// 9 steps of the nibble walk of `b` from `k`.
pub open spec fn hop_9(b: u8, k: u8) -> u8 {
    nibble_next(b, hop_8(b, k))
}

/// 10 steps of the nibble walk of `b` from `k`.
pub open spec fn hop_10(b: u8, k: u8) -> u8 {
    nibble_next(b, hop_9(b, k))
}

/// 11 steps of the nibble walk of `b` from `k`.
pub open spec fn hop_11(b: u8, k: u8) -> u8 {
    nibble_next(b, hop_10(b, k))
}

/// 12 steps of the nibble walk of `b` from `k`.
pub open spec fn hop_12(b: u8, k: u8) -> u8 {
    nibble_next(b, hop_11(b, k))
}

/// 13 steps of the nibble walk of `b` from `k`.
pub open spec fn hop_13(b: u8, k: u8) -> u8 {
    nibble_next(b, hop_12(b, k))
}

/// 14 steps of the nibble walk of `b` from `k`.
pub open spec fn hop_14(b: u8, k: u8) -> u8 {
    nibble_next(b, hop_13(b, k))
}

/// 15 steps of the nibble walk of `b` from `k`.
pub open spec fn hop_15(b: u8, k: u8) -> u8 {
    nibble_next(b, hop_14(b, k))
}

/// The nibble walk of any byte comes back to no nibble in fewer than sixteen
/// steps.
proof fn lemma_no_short_cycle(b: u8, k: u8)
    by (bit_vector)
    ensures
        k < 16 ==> hop_1(b, k) != k,
        k < 16 ==> hop_2(b, k) != k,
        k < 16 ==> hop_3(b, k) != k,
        k < 16 ==> hop_4(b, k) != k,
        k < 16 ==> hop_5(b, k) != k,
        k < 16 ==> hop_6(b, k) != k,
        k < 16 ==> hop_7(b, k) != k,
        k < 16 ==> hop_8(b, k) != k,
        k < 16 ==> hop_9(b, k) != k,
        k < 16 ==> hop_10(b, k) != k,
        k < 16 ==> hop_11(b, k) != k,
        k < 16 ==> hop_12(b, k) != k,
        k < 16 ==> hop_13(b, k) != k,
        k < 16 ==> hop_14(b, k) != k,
        k < 16 ==> hop_15(b, k) != k,
{
}

/// A step of the nibble walk stays below sixteen and sends two different
/// nibbles to two different nibbles.
proof fn lemma_step_injective(b: u8, k1: u8, k2: u8)
    by (bit_vector)
    ensures
        nibble_next(b, k1) < 16,
        b >> 4 < 16,
        k1 < 16 && k2 < 16 && nibble_next(b, k1) == nibble_next(b, k2) ==> k1 == k2,
{
}

/// Two equal states of a nibble walk are as far from each other as the
/// first of them is from the start.
proof fn lemma_pull_back(b: u8, i: nat, j: nat)
    requires
        i <= j,
        nibble_state(b, i) == nibble_state(b, j),
    ensures
        nibble_state(b, 0) == nibble_state(b, (j - i) as nat),
    decreases i,
{
    if i > 0 {
        lemma_nibble_range(b, (i - 1) as nat);
        lemma_nibble_range(b, (j - 1) as nat);
        lemma_step_injective(
            b,
            nibble_state(b, (i - 1) as nat),
            nibble_state(b, (j - 1) as nat),
        );
        lemma_pull_back(b, (i - 1) as nat, (j - 1) as nat);
    }
}

/// A nibble walk is not back at its start after one to fifteen steps.
proof fn lemma_no_return(b: u8, d: nat)
    requires
        1 <= d <= 15,
    ensures
        nibble_state(b, d) != nibble_state(b, 0),
{
    lemma_no_short_cycle(b, b >> 4);
    lemma_step_injective(b, 0, 0);
    assert(nibble_state(b, 0) == b >> 4);
    assert(nibble_state(b, 1) == hop_1(b, b >> 4));
    assert(nibble_state(b, 2) == hop_2(b, b >> 4));
    assert(nibble_state(b, 3) == hop_3(b, b >> 4));
    assert(nibble_state(b, 4) == hop_4(b, b >> 4));
    assert(nibble_state(b, 5) == hop_5(b, b >> 4));
    assert(nibble_state(b, 6) == hop_6(b, b >> 4));
    assert(nibble_state(b, 7) == hop_7(b, b >> 4));
    assert(nibble_state(b, 8) == hop_8(b, b >> 4));
    assert(nibble_state(b, 9) == hop_9(b, b >> 4));
    assert(nibble_state(b, 10) == hop_10(b, b >> 4));
    assert(nibble_state(b, 11) == hop_11(b, b >> 4));
    assert(nibble_state(b, 12) == hop_12(b, b >> 4));
    assert(nibble_state(b, 13) == hop_13(b, b >> 4));
    assert(nibble_state(b, 14) == hop_14(b, b >> 4));
    assert(nibble_state(b, 15) == hop_15(b, b >> 4));
}

/// The sixteen nibbles that a byte expands to are all different, and each
/// is below sixteen.
pub proof fn lemma_nibbles_distinct(b: u8, i: int, j: int)
    requires
        0 <= i < 16,
        0 <= j < 16,
        i != j,
    ensures
        nibbles(b)[i] != nibbles(b)[j],
        nibbles(b)[i] <= 15,
{
    lemma_nibble_range(b, (i + 1) as nat);
    if nibble_state(b, (i + 1) as nat) == nibble_state(b, (j + 1) as nat) {
        if i < j {
            lemma_pull_back(b, (i + 1) as nat, (j + 1) as nat);
            lemma_no_return(b, (j - i) as nat);
        } else {
            lemma_pull_back(b, (j + 1) as nat, (i + 1) as nat);
            lemma_no_return(b, (i - j) as nat);
        }
    }
}

/// The intermediate table holds no value twice.
pub proof fn lemma_mixed_injective(s: Seq<u8>, x: int, y: int)
    requires
        0 <= x < 256,
        0 <= y < 256,
        x != y,
    ensures
        mixed(s, x) != mixed(s, y),
{
    let hx = nibbles(s[0])[x / 16];
    let hy = nibbles(s[0])[y / 16];
    let lx = nibbles(row_seeds(s)[x / 16])[x % 16];
    let ly = nibbles(row_seeds(s)[y / 16])[y % 16];
    lemma_nibble_range(s[0], (x / 16 + 1) as nat);
    lemma_nibble_range(s[0], (y / 16 + 1) as nat);
    lemma_nibble_range(row_seeds(s)[x / 16], (x % 16 + 1) as nat);
    lemma_nibble_range(row_seeds(s)[y / 16], (y % 16 + 1) as nat);
    if x / 16 != y / 16 {
        lemma_nibbles_distinct(s[0], x / 16, y / 16);
    } else {
        lemma_nibbles_distinct(row_seeds(s)[x / 16], x % 16, y % 16);
    }
}

proof fn lemma_stride_injective(n: u32, m: u32)
    by (bit_vector)
    ensures
        n < 256 && m < 256 && (0x11 * (n + 1)) % 256 == (0x11 * (m + 1)) % 256 ==> n == m,
{
}

/// The stride reaches no entry of the intermediate table twice.
pub proof fn lemma_visited_distinct(s: Seq<u8>)
    ensures
        visited(s).no_duplicates(),
{
    assert forall|n: int, m: int| 0 <= n < 256 && 0 <= m < 256 && n != m implies visited(s)[n]
        != visited(s)[m] by {
        lemma_stride_injective(n as u32, m as u32);
        lemma_mixed_injective(s, (0x11 * (n + 1)) % 256, (0x11 * (m + 1)) % 256);
    }
}

/// How many of the two pinned values a sequence holds.
pub open spec fn edges_in(v: Seq<u8>) -> int {
    (if v.contains(0) {
        1int
    } else {
        0int
    }) + (if v.contains(0xFF) {
        1int
    } else {
        0int
    })
}

/// What is kept of a sequence without repeats: no pinned value, no repeat,
/// and all but at most the pinned values that the sequence holds.
proof fn lemma_kept_of_distinct(v: Seq<u8>, keep: spec_fn(u8) -> bool)
    requires
        v.no_duplicates(),
        forall|a: u8| keep(a) == !is_edge(a),
    ensures
        v.filter(keep).no_duplicates(),
        forall|i: int| 0 <= i < v.filter(keep).len() ==> !is_edge(#[trigger] v.filter(keep)[i]),
        forall|i: int| 0 <= i < v.filter(keep).len() ==> v.contains(#[trigger] v.filter(keep)[i]),
        v.len() - v.filter(keep).len() <= edges_in(v),
        v.filter(keep).len() <= v.len(),
    decreases v.len(),
{
    reveal(Seq::filter);
    if v.len() > 0 {
        let front = v.drop_last();
        let x = v.last();
        assert(forall|i: int| 0 <= i < front.len() ==> front[i] == v[i]);
        lemma_kept_of_distinct(front, keep);
        let k = front.filter(keep);
        assert forall|a: u8| front.contains(a) implies v.contains(a) by {
            let i = choose|i: int| 0 <= i < front.len() && front[i] == a;
            assert(v[i] == a);
        }
        assert(!front.contains(x)) by {
            if front.contains(x) {
                let i = choose|i: int| 0 <= i < front.len() && front[i] == x;
                assert(v[i] == v[v.len() - 1]);
            }
        }
        assert(v.contains(x)) by {
            assert(v[v.len() - 1] == x);
        }
        if keep(x) {
            assert(v.filter(keep) == k.push(x));
            assert forall|i: int, j: int|
                0 <= i < k.push(x).len() && 0 <= j < k.push(x).len() && i != j implies k.push(
                x,
            )[i] != k.push(x)[j] by {
                if i == k.len() {
                    assert(front.contains(k[j]));
                } else if j == k.len() {
                    assert(front.contains(k[i]));
                }
            }
        } else {
            assert(v.filter(keep) == k);
            assert(is_edge(x));
        }
        assert(front.contains(0) ==> v.contains(0));
        assert(front.contains(0xFF) ==> v.contains(0xFF));
        assert(edges_in(front) + (if keep(x) {
            0int
        } else {
            1int
        }) <= edges_in(v));
    }
}

/// A sequence without repeats whose values all lie in `lo..hi` has at most
/// `hi - lo` of them; with exactly that many it holds each of these values.
proof fn lemma_pigeonhole(k: Seq<u8>, lo: int, hi: int)
    requires
        k.no_duplicates(),
        0 <= lo <= hi <= 256,
        forall|i: int| 0 <= i < k.len() ==> lo <= #[trigger] k[i] < hi,
    ensures
        k.len() <= hi - lo,
        k.len() == hi - lo ==> forall|v: u8| lo <= v < hi ==> #[trigger] k.contains(v),
{
    let widen = |v: u8| v as int;
    assert(injective(widen));
    let ints = k.map_values(widen);
    k.lemma_no_duplicates_injective(widen);
    ints.unique_seq_to_set();
    lemma_int_range(lo, hi);
    assert(ints.to_set().subset_of(set_int_range(lo, hi))) by {
        assert forall|x: int| ints.to_set().contains(x) implies set_int_range(lo, hi).contains(
            x,
        ) by {
            let i = choose|i: int| 0 <= i < ints.len() && ints[i] == x;
            assert(ints[i] == k[i] as int);
        }
    }
    lemma_len_subset(ints.to_set(), set_int_range(lo, hi));
    if k.len() == hi - lo {
        lemma_subset_equality(ints.to_set(), set_int_range(lo, hi));
        assert forall|v: u8| lo <= v < hi implies #[trigger] k.contains(v) by {
            assert(set_int_range(lo, hi).contains(v as int));
            assert(ints.to_set().contains(v as int));
            let i = choose|i: int| 0 <= i < ints.len() && ints[i] == v as int;
            assert(k[i] == v);
        }
    }
}

/// The table of cipher type `0x38` is a permutation, whatever the key.
pub proof fn lemma_keyed_permutation(key1: Seq<u8>, key2: Seq<u8>)
    ensures
        is_permutation(keyed_table(key1, key2)),
{
    let s = seed_bytes(seed_key(key1, key2));
    let v = visited(s);
    let keep = |a: u8| !is_edge(a);
    let k = kept(s);
    let t = keyed_table(key1, key2);
    lemma_visited_distinct(s);
    lemma_kept_of_distinct(v, keep);
    assert(k == v.filter(keep));
    assert(edges_in(v) <= 2);
    assert(k.len() >= 254);
    assert forall|i: int| 0 <= i < k.len() implies 1 <= #[trigger] k[i] < 255 by {
        assert(!is_edge(k[i]));
    }
    lemma_pigeonhole(k, 1, 255);
    assert(k.len() == 254);
    assert forall|i: int, j: int| 0 <= i < j < 256 implies t[i] != t[j] by {
        if 1 <= i && j < 255 {
            assert(t[i] == k[i - 1]);
            assert(t[j] == k[j - 1]);
        } else if i == 0 && j < 255 {
            assert(t[j] == k[j - 1]);
        } else if 1 <= i && j == 255 {
            assert(t[i] == k[i - 1]);
        }
    }
    assert forall|b: u8| #[trigger] t.contains(b) by {
        if b == 0 {
            assert(t[0] == b);
        } else if b == 0xFF {
            assert(t[255] == b);
        } else {
            assert(k.contains(b));
            let i = choose|i: int| 0 <= i < k.len() && k[i] == b;
            assert(t[i + 1] == b);
        }
    }
}

/// Every cipher table that a known cipher type selects is a permutation of
/// the byte values.
pub proof fn lemma_cipher_table_permutation(tp: u16, key1: Seq<u8>, key2: Seq<u8>, before: Seq<u8>)
    requires
        tp == 0 || tp == 1 || tp == 0x38,
    ensures
        is_permutation(cipher_table(tp, key1, key2, before)),
{
    lemma_identity_permutation();
    lemma_walk_permutation();
    lemma_keyed_permutation(key1, key2);
}

} // verus!
