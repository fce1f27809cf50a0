use lilygo_rs::patterns::{chess_pattern, conversion_pattern, gen_patterns, il_pattern, pixel_in_subpage};

#[test]
fn patterns_match_formulas() {
    let (il, chess, conv) = gen_patterns();
    assert_eq!(il.len(), 768);
    for p in 0..768i32 {
        let il_f = p / 32 - (p / 64) * 2;
        let chess_f = il_f ^ (p - (p / 2) * 2);
        let conv_f = ((p + 2) / 4 - (p + 3) / 4 + (p + 1) / 4 - p / 4) * (1 - 2 * il_f);
        assert_eq!(il[p as usize] as i32, il_f);
        assert_eq!(chess[p as usize] as i32, chess_f);
        assert_eq!(conv[p as usize] as i32, conv_f);
        assert_eq!(il_pattern(p), il_f);
        assert_eq!(chess_pattern(p), chess_f);
        assert_eq!(conversion_pattern(p), conv_f);
    }
}

#[test]
fn pattern_values() {
    assert_eq!((il_pattern(0), il_pattern(31), il_pattern(32), il_pattern(64)), (0, 0, 1, 0));
    assert_eq!((chess_pattern(0), chess_pattern(1), chess_pattern(32), chess_pattern(33)), (0, 1, 1, 0));
    assert_eq!(
        (conversion_pattern(0), conversion_pattern(1), conversion_pattern(2), conversion_pattern(3)),
        (0, -1, 0, 1)
    );
    assert_eq!((conversion_pattern(33), conversion_pattern(35)), (1, -1));
}

#[test]
fn subpages_split_pixels() {
    for mode in [0u16, 0x80] {
        for p in 0..768u16 {
            assert_ne!(pixel_in_subpage(p, mode, 0), pixel_in_subpage(p, mode, 1));
        }
    }
    assert!(pixel_in_subpage(0, 0, 0));
    assert!(pixel_in_subpage(1, 0, 0));
    assert!(pixel_in_subpage(32, 0, 1));
    assert!(pixel_in_subpage(1, 0x80, 1));
    assert!(pixel_in_subpage(33, 0x80, 0));
}
