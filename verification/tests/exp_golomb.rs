use flv_mp4::exp_golomb::{ExpGolomb, ExpGolombError};

#[test]
fn reads_bits_within_and_across_words() {
    let mut gb = ExpGolomb::new(vec![0x12, 0x34, 0x56, 0x78, 0x9A]);
    assert_eq!(gb.readBits(8), Ok(0x12));
    assert_eq!(gb.readBits(32), Ok(0x3456789A));
    assert_eq!(gb.readBits(1), Err(ExpGolombError::IllegalState));
}

#[test]
fn reads_nibbles_then_runs_out() {
    let mut gb = ExpGolomb::new(vec![0xAB]);
    assert_eq!(gb.readBits(4), Ok(0xA));
    assert_eq!(gb.readBits(4), Ok(0xB));
    assert_eq!(gb.readBits(4), Err(ExpGolombError::IllegalState));
}

#[test]
fn rejects_more_than_32_bits() {
    let mut gb = ExpGolomb::new(vec![0xFF; 8]);
    assert_eq!(gb.readBits(33), Err(ExpGolombError::InvalidArgument));
}

#[test]
fn reads_bool_and_byte() {
    let mut gb = ExpGolomb::new(vec![0x80, 0xC3]);
    assert_eq!(gb.readBool(), Ok(true));
    assert_eq!(gb.readBool(), Ok(false));
    assert_eq!(gb.readBits(6), Ok(0));
    assert_eq!(gb.readByte(), Ok(0xC3));
}

#[test]
fn reads_unsigned_golomb_codes() {
    // 1 | 010 | 011 | 00100
    let mut gb = ExpGolomb::new(vec![0xA6, 0x40]);
    assert_eq!(gb.readUEG(), Ok(0));
    assert_eq!(gb.readUEG(), Ok(1));
    assert_eq!(gb.readUEG(), Ok(2));
    assert_eq!(gb.readUEG(), Ok(3));
}

#[test]
fn reads_signed_golomb_codes() {
    // 010 | 011 | 00100 | 00101  ->  1, -1, 2, -2
    let mut gb = ExpGolomb::new(vec![0x4C, 0x85]);
    assert_eq!(gb.readSEG(), Ok(1));
    assert_eq!(gb.readSEG(), Ok(-1));
    assert_eq!(gb.readSEG(), Ok(2));
    assert_eq!(gb.readSEG(), Ok(-2));
}

#[test]
fn golomb_code_without_a_one_bit_fails() {
    let mut gb = ExpGolomb::new(vec![0x00, 0x00]);
    assert_eq!(gb.readUEG(), Err(ExpGolombError::IllegalState));
}
