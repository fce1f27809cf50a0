use lilygo_rs::bad_pixels::{correct_bad_pixels, is_pixel_bad, repair_for, Repair, RepairStep};

const NONE5: [u16; 5] = [0xFFFF; 5];

#[test]
fn bad_pixel_lookup() {
    let broken = [5u16, 0xFFFF, 0xFFFF, 0xFFFF, 0xFFFF];
    let outliers = [0xFFFFu16, 0xFFFF, 0xFFFF, 0xFFFF, 90];
    assert!(is_pixel_bad(5, &broken, &outliers));
    assert!(is_pixel_bad(90, &broken, &outliers));
    assert!(!is_pixel_bad(6, &broken, &outliers));
}

#[test]
fn chess_repairs_use_diagonals() {
    assert_eq!(repair_for(0, 1, &NONE5, &NONE5), Repair::Copy(33));
    assert_eq!(repair_for(31, 1, &NONE5, &NONE5), Repair::Copy(62));
    assert_eq!(repair_for(736, 1, &NONE5, &NONE5), Repair::Copy(705));
    assert_eq!(repair_for(767, 1, &NONE5, &NONE5), Repair::Copy(734));
    assert_eq!(repair_for(5, 1, &NONE5, &NONE5), Repair::Mean(36, 38));
    assert_eq!(repair_for(740, 1, &NONE5, &NONE5), Repair::Mean(707, 709));
    assert_eq!(repair_for(64, 1, &NONE5, &NONE5), Repair::Mean(33, 97));
    assert_eq!(repair_for(95, 1, &NONE5, &NONE5), Repair::Mean(62, 126));
    assert_eq!(repair_for(100, 1, &NONE5, &NONE5), Repair::Median(67, 69, 131, 133));
}

#[test]
fn interleave_repairs_use_the_row() {
    assert_eq!(repair_for(64, 0, &NONE5, &NONE5), Repair::Copy(65));
    assert_eq!(repair_for(95, 0, &NONE5, &NONE5), Repair::Copy(94));
    assert_eq!(repair_for(65, 0, &NONE5, &NONE5), Repair::Mean(64, 66));
    assert_eq!(repair_for(94, 0, &NONE5, &NONE5), Repair::Mean(93, 95));
    assert_eq!(
        repair_for(100, 0, &NONE5, &NONE5),
        Repair::Gradient { l1: 99, l2: 98, r1: 101, r2: 102 }
    );
    // A bad pixel two steps away falls back to the mean.
    let broken = [102u16, 0xFFFF, 0xFFFF, 0xFFFF, 0xFFFF];
    assert_eq!(repair_for(100, 0, &broken, &NONE5), Repair::Mean(99, 101));
    let outliers = [98u16, 0xFFFF, 0xFFFF, 0xFFFF, 0xFFFF];
    assert_eq!(repair_for(100, 2, &NONE5, &outliers), Repair::Mean(99, 101));
}

#[test]
fn repair_plan_skips_unused_entries() {
    let list = [0xFFFFu16, 100, 0xFFFF, 0, 0xFFFF];
    let plan = correct_bad_pixels(&list, 1, &list, &NONE5);
    assert_eq!(
        plan,
        vec![
            RepairStep { pixel: 100, rule: Repair::Median(67, 69, 131, 133) },
            RepairStep { pixel: 0, rule: Repair::Copy(33) },
        ]
    );
    assert!(correct_bad_pixels(&NONE5, 0, &NONE5, &NONE5).is_empty());
}
