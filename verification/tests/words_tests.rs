use lilygo_rs::words::{ls_byte, lsbits10, ms_byte, msbits6, nibble1, nibble2, nibble3, nibble4, signed_byte, signed_field};

#[test]
fn nibble_extraction() {
    let w: u16 = 0xABCD;
    assert_eq!(nibble1(w), 0xD);
    assert_eq!(nibble2(w), 0xC);
    assert_eq!(nibble3(w), 0xB);
    assert_eq!(nibble4(w), 0xA);
}

#[test]
fn nibble_mask_boundaries() {
    assert_eq!(nibble1(0xF), 0xF);
    assert_eq!(nibble1(0x10), 0x0);
    assert_eq!(nibble2(0xF0), 0xF);
    assert_eq!(nibble3(0xF00), 0xF);
    assert_eq!(nibble4(0xF000), 0xF);
}

#[test]
fn ms_ls_byte() {
    let w: u16 = 0xABCD;
    assert_eq!(ms_byte(w), 0xAB);
    assert_eq!(ls_byte(w), 0xCD);
}

#[test]
fn msbits6_lsbits10() {
    let w: u16 = 0xFC00 | 63;
    assert_eq!(msbits6(w), 63);
    assert_eq!(lsbits10(w), 63);

    let w2: u16 = (42 << 10) | 42;
    assert_eq!(msbits6(w2), 42);
    assert_eq!(lsbits10(w2), 42);
}

#[test]
fn fields_recompose_word() {
    let w: u16 = 0x9E37;
    assert_eq!(nibble1(w) + 16 * nibble2(w) + 256 * nibble3(w) + 4096 * nibble4(w), w);
    assert_eq!(256 * ms_byte(w) as u16 + ls_byte(w) as u16, w);
    assert_eq!(1024 * msbits6(w) + lsbits10(w), w);
}

#[test]
fn signed_fields() {
    assert_eq!(signed_byte(0x7F), 127);
    assert_eq!(signed_byte(0x80), -128);
    assert_eq!(signed_byte(0xFF), -1);
    assert_eq!(signed_field(31, 32), 31);
    assert_eq!(signed_field(32, 32), -32);
    assert_eq!(signed_field(63, 32), -1);
    assert_eq!(signed_field(511, 512), 511);
    assert_eq!(signed_field(1023, 512), -1);
    assert_eq!(signed_field(8, 8), -8);
}
