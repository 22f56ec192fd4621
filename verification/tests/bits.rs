use gics::filetypes::bitreader::ClData;

#[test]
fn bit_reader() {
    let mut r = ClData::new(vec![0xAB, 0xCD, 0xEF, 0x12, 0x34], 5);
    assert_eq!(r.get_bit(12), 0xABC);
    assert_eq!(r.get_bit(4), 0xD);
    assert_eq!(r.get_bit(8), 0xEF);
}

#[test]
fn last_two_bytes_are_not_in_the_stream() {
    let mut r = ClData::new(vec![0xAB, 0xCD, 0xEF, 0x12, 0x34], 5);
    r.add_bit(24);
    assert_eq!(r.check_bit(1), 0);
    assert_eq!(r.get_bit(8), 0);
    r.add_bit(-9);
    assert_eq!(r.check_bit(1), 1);
    assert_eq!(r.check_bit(2), 0);
}

#[test]
fn peek_then_take_agree() {
    let data = vec![0x12, 0x34, 0x56, 0x78, 0x9A, 0xBC, 0xDE, 0xF0, 0x11, 0x22];
    let mut r = ClData::new(data, 10);
    let mut taken = 0;
    for n in [0u32, 1, 3, 7, 16, 5, 12, 2, 9, 16] {
        let peeked = r.check_bit(n);
        assert_eq!(r.check_bit(n), peeked);
        let took = r.get_bit(n);
        assert_eq!(peeked, took);
        taken += n;
    }
    // the cursor stands after exactly the bits taken
    assert_eq!(taken, 71);
    r.add_bit(-71);
    assert_eq!(r.get_bit(16), 0x1234);
}

#[test]
fn reads_across_byte_borders() {
    let mut r = ClData::new(vec![0b1010_1010, 0b1100_1100, 0b1111_0000, 0b0000_1111, 0, 0], 6);
    assert_eq!(r.get_bit(3), 0b101);
    assert_eq!(r.get_bit(16), 0b0_1010_1100_1100_111);
    assert_eq!(r.get_bit(0), 0);
    assert_eq!(r.get_bit(5), 0b1_0000);
    assert_eq!(r.get_bit(8), 0b0000_1111);
    assert_eq!(r.get_bit(1), 0);
}

#[test]
fn backward_moves() {
    let mut r = ClData::new(vec![0xF0, 0x0F, 0xAA, 0, 0], 5);
    assert_eq!(r.get_bit(8), 0xF0);
    r.add_bit(-4);
    assert_eq!(r.get_bit(8), 0x00);
    r.add_bit(-20);
    // before the start of the buffer nothing is read
    assert_eq!(r.check_bit(4), 0);
    r.add_bit(8);
    assert_eq!(r.get_bit(4), 0xF);
}

#[test]
fn short_buffer_reads_as_zero_padded() {
    // the size given is larger than the buffer: missing bytes count as zero
    let mut r = ClData::new(vec![0xFF], 8);
    assert_eq!(r.get_bit(12), 0xFF0);
    assert_eq!(r.get_bit(8), 0);
}
