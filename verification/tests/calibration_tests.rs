use lilygo_rs::calibration::{check_adjacent_pixels, coefficients_scalable, extract_parameters, find_deviating_pixels, normalize_coefficients};
use lilygo_rs::types::Error;

#[test]
fn check_adjacent_same_pixel() {
    assert!(check_adjacent_pixels(0, 0));
}

#[test]
fn check_adjacent_neighbors() {
    assert!(check_adjacent_pixels(0, 33));
    assert!(check_adjacent_pixels(33, 32));
    assert!(check_adjacent_pixels(32, 1));
}

#[test]
fn check_adjacent_diagonal() {
    assert!(check_adjacent_pixels(0, 33));
    assert!(check_adjacent_pixels(33, 65));
}

#[test]
fn check_adjacent_distant() {
    assert!(!check_adjacent_pixels(0, 100));
    assert!(!check_adjacent_pixels(0, 96));
}

#[test]
fn check_adjacent_row_boundary() {
    assert!(!check_adjacent_pixels(0, 64));
}

#[test]
fn check_adjacent_is_symmetric_and_no_wraparound() {
    for &(a, b) in &[(0u16, 33u16), (31, 32), (100, 133), (767, 734), (5, 700)] {
        assert_eq!(check_adjacent_pixels(a, b), check_adjacent_pixels(b, a));
    }
    // Last pixel of a row and first of the next are not neighbours.
    assert!(!check_adjacent_pixels(31, 32));
}

/// An EEPROM image with known parameters and no bad pixels.
fn sample_eeprom() -> [u16; 832] {
    let mut ee = [0u16; 832];
    ee[10] = 0x0800;
    ee[16] = 0x4321;
    ee[17] = 100;
    ee[18] = 0x00F1;
    ee[24] = 0x0072;
    ee[32] = 0x2131;
    ee[33] = 5000;
    ee[34] = 0x0009;
    ee[40] = 0x0030;
    ee[48] = 0xFF00;
    ee[49] = 12345;
    ee[50] = (40 << 10) | 600;
    ee[51] = 0x9C64;
    ee[52] = 0x2F1E;
    ee[53] = 0x8A65;
    ee[54] = 0x0A05;
    ee[55] = 0xFEF0;
    ee[56] = 0x2345;
    ee[57] = (10 << 10) | 300;
    ee[58] = (60 << 10) | 700;
    ee[59] = 0x12F0;
    ee[60] = 0x40C8;
    ee[61] = 0x0102;
    ee[62] = 0xFE03;
    ee[63] = 0x1234;
    for p in 0..768usize {
        ee[64 + p] = ((0x1000u32 + p as u32 * 84) & 0xFFFE) as u16;
    }
    ee
}

#[test]
fn extract_scalar_parameters() {
    let ee = sample_eeprom();
    assert!(coefficients_scalable(&ee));
    let c = extract_parameters(&ee).ok().unwrap();
    assert_eq!(c.kvdd, -3200);
    assert_eq!(c.vdd25, -13184);
    assert_eq!(c.kvptat, -24);
    assert_eq!(c.ktptat, -424);
    assert_eq!(c.vptat25, 12345);
    assert_eq!(c.alpha_ptat, 0x4000);
    assert_eq!(c.gain_ee, -256);
    assert_eq!(c.tgc, -56);
    assert_eq!(c.resolution_ee, 2);
    assert_eq!(c.calibration_mode_ee, 0);
    assert_eq!(c.ks_ta, 64);
    assert_eq!(c.ct, vec![-40, 0, 30, 50, 400]);
    assert_eq!(c.ks_to_scale, 12);
    assert_eq!(c.ks_to, vec![2, 1, 3, -2]);
    assert_eq!(c.cp_offset, vec![-324, -328]);
    assert_eq!(c.cp_alpha, 300);
    assert_eq!(c.cp_alpha_exp, 29);
    assert_eq!(c.cp_alpha_ratio, 10);
    assert_eq!(c.cp_kta, -16);
    assert_eq!(c.cp_kta_exp, 12);
    assert_eq!(c.cp_kv, 18);
    assert_eq!(c.cp_kv_exp, 3);
    assert_eq!(c.il_chess, vec![-27, 9, -15]);
    assert_eq!(c.alpha_exp, 32);
}

#[test]
fn extract_pixel_tables() {
    let ee = sample_eeprom();
    let c = extract_parameters(&ee).ok().unwrap();
    assert_eq!(c.offset.len(), 768);
    assert_eq!((c.offset[0], c.offset[1], c.offset[33], c.offset[767]), (124, 144, 132, 104));
    assert_eq!((c.alpha[0], c.alpha[1], c.alpha[33], c.alpha[767]), (4986, 5020, 4986, 4988));
    assert_eq!(c.kta_scale, 12);
    assert_eq!(&c.kta[0..4], &[10, 62, -118, -66]);
    assert_eq!((c.kta[33], c.kta[100]), (48, 5));
    assert_eq!(c.kv_scale, 8);
    assert_eq!(&c.kv[0..4], &[64, 32, 64, 32]);
    assert_eq!((c.kv[32], c.kv[33]), (-32, -64));
    assert_eq!(c.broken_pixels, vec![0xFFFF; 5]);
    assert_eq!(c.outlier_pixels, vec![0xFFFF; 5]);
}

#[test]
fn offset_truncates_to_sixteen_bits() {
    let mut ee = sample_eeprom();
    // Reference offset near the top of the range, plus a large own offset.
    ee[17] = 0xFFFF;
    ee[16] = 0x000F; // remainder scale 15
    ee[64] = (31 << 10) | 0x0002;
    let c = extract_parameters(&ee).ok().unwrap();
    let v: i32 = 31 * 32768 + 0xFFFF + 1 * 1 + 2 * 1;
    assert_eq!(c.offset[0], v as i16);
}

#[test]
fn normalize_scales_and_rounds() {
    // Largest magnitude 3 / 2^8: the smallest scale reaching 63.4 is 2^13 (3 * 32 = 96).
    let (v, k) = normalize_coefficients(&vec![3, -1, 0, 2], 8);
    assert_eq!(k, 13);
    assert_eq!(v, vec![96, -32, 0, 64]);
    // Halves round away from zero: 1/2^1 scaled by 2^0 stays 0.5 -> 1; -0.5 -> -1.
    let (v, k) = normalize_coefficients(&vec![127, 1, -1], 1);
    assert_eq!(k, 0);
    assert_eq!(v, vec![64, 1, -1]);
    // Magnitudes beyond the byte range are held to it.
    let (v, k) = normalize_coefficients(&vec![1000, -1000, 10], 0);
    assert_eq!(k, 0);
    assert_eq!(v, vec![127, -128, 10]);
}

fn with_pixel_words(words: &[(usize, u16)]) -> [u16; 832] {
    let mut ee = sample_eeprom();
    for &(p, w) in words {
        ee[64 + p] = w;
    }
    ee
}

#[test]
fn deviating_pixels_accepted_and_listed() {
    let ee = with_pixel_words(&[(5, 0), (300, 0), (100, 0x0003), (700, 0x0101)]);
    let (broken, outliers) = find_deviating_pixels(&ee).ok().unwrap();
    assert_eq!(broken, vec![5, 300, 0xFFFF, 0xFFFF, 0xFFFF]);
    assert_eq!(outliers, vec![100, 700, 0xFFFF, 0xFFFF, 0xFFFF]);
    let c = extract_parameters(&ee).ok().unwrap();
    assert_eq!(c.broken_pixels, broken);
    assert_eq!(c.outlier_pixels, outliers);
}

#[test]
fn too_many_broken_pixels() {
    let ee = with_pixel_words(&[(0, 0), (10, 0), (20, 0), (200, 0), (400, 0)]);
    assert_eq!(find_deviating_pixels(&ee).err(), Some(Error::TooManyBrokenPixels));
    assert_eq!(extract_parameters(&ee).err(), Some(Error::TooManyBrokenPixels));
}

#[test]
fn too_many_outlier_pixels() {
    let ee = with_pixel_words(&[(0, 1), (10, 1), (20, 1), (200, 1), (400, 1)]);
    assert_eq!(extract_parameters(&ee).err(), Some(Error::TooManyOutlierPixels));
}

#[test]
fn too_many_bad_pixels() {
    let ee = with_pixel_words(&[(0, 0), (10, 0), (20, 0), (200, 1), (400, 1)]);
    assert_eq!(extract_parameters(&ee).err(), Some(Error::TooManyBadPixels));
}

#[test]
fn adjacent_bad_pixels() {
    // Broken next to broken.
    let ee = with_pixel_words(&[(40, 0), (41, 0)]);
    assert_eq!(extract_parameters(&ee).err(), Some(Error::AdjacentBadPixels));
    // Outlier diagonal to outlier.
    let ee = with_pixel_words(&[(40, 1), (73, 1)]);
    assert_eq!(extract_parameters(&ee).err(), Some(Error::AdjacentBadPixels));
    // Broken diagonal to outlier.
    let ee = with_pixel_words(&[(40, 0), (7, 1)]);
    assert_eq!(extract_parameters(&ee).err(), Some(Error::AdjacentBadPixels));
    // Two columns apart is fine.
    let ee = with_pixel_words(&[(40, 0), (42, 1)]);
    assert!(extract_parameters(&ee).is_ok());
}

#[test]
fn dead_sensor_refused() {
    // All pixel words zero: every pixel is broken, and the drift tables are all zero.
    let ee = [0u16; 832];
    assert!(!coefficients_scalable(&ee));
    assert_eq!(find_deviating_pixels(&ee).err(), Some(Error::TooManyBrokenPixels));
    assert_eq!(extract_parameters(&ee).err(), Some(Error::TooManyBrokenPixels));
}
