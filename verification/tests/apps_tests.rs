use lilygo_rs::apps::{thermal_step, ColormapKind, ThermalStep,
    checker_is_white, level_index, levels, menu_step, screen_test_step, screen_to_sensor, AppKind, MenuStep,
    ScreenTestStep,
};
use lilygo_rs::colormap::{gradient_color, ironbow_rgb, lava_rgb, make_ironbow, make_lava};
use lilygo_rs::fmt_buf::FmtBuf;
use lilygo_rs::hw::{delay_us_for_ns, wait_for_event_step, wait_for_release_step, ButtonEvent, EventWait, WaitAction};
use lilygo_rs::i2c_compat::I2cCompat;

#[test]
fn app_names_and_menu_entries() {
    assert_eq!(AppKind::Menu.name(), "Main Menu");
    assert_eq!(AppKind::ScreenTest.name(), "Screen Test");
    assert_eq!(AppKind::ThermalCamera.name(), "Thermal Camera");
    assert_eq!(AppKind::selectable(), &[AppKind::ScreenTest, AppKind::ThermalCamera]);
}

#[test]
fn menu_cycles_and_launches() {
    assert_eq!(menu_step(0, ButtonEvent::ShortPress), MenuStep::Move(1));
    assert_eq!(menu_step(1, ButtonEvent::ShortPress), MenuStep::Move(0));
    assert_eq!(menu_step(1, ButtonEvent::LongPress), MenuStep::Launch(AppKind::ThermalCamera));
    assert_eq!(menu_step(0, ButtonEvent::LongPress), MenuStep::Launch(AppKind::ScreenTest));
    assert_eq!(menu_step(0, ButtonEvent::NoPress), MenuStep::Stay);
}

#[test]
fn screen_test_levels() {
    assert_eq!(levels(), [0, 25, 50, 75, 100]);
    assert_eq!(level_index(50), 2);
    assert_eq!(level_index(100), 4);
    assert_eq!(level_index(0), 0);
    assert_eq!(level_index(33), 2);
    assert_eq!(screen_test_step(2, ButtonEvent::ShortPress), ScreenTestStep::SetLevel(3, 75));
    assert_eq!(screen_test_step(4, ButtonEvent::ShortPress), ScreenTestStep::SetLevel(0, 0));
    assert_eq!(screen_test_step(4, ButtonEvent::LongPress), ScreenTestStep::Exit);
    assert_eq!(screen_test_step(1, ButtonEvent::NoPress), ScreenTestStep::Stay);
    assert!(checker_is_white(0, 0));
    assert!(!checker_is_white(0, 1));
    assert!(checker_is_white(1, 1));
}

#[test]
fn button_event_steps() {
    assert_eq!(
        wait_for_event_step(EventWait::Start, false, 0),
        (EventWait::Start, WaitAction::Finish(20, ButtonEvent::NoPress))
    );
    assert_eq!(wait_for_event_step(EventWait::Start, true, 0), (EventWait::Held, WaitAction::StartTimer));
    assert_eq!(wait_for_event_step(EventWait::Held, true, 499), (EventWait::Held, WaitAction::Sleep(20)));
    assert_eq!(
        wait_for_event_step(EventWait::Held, true, 500),
        (EventWait::Held, WaitAction::Finish(0, ButtonEvent::LongPress))
    );
    assert_eq!(
        wait_for_event_step(EventWait::Held, false, 900),
        (EventWait::Held, WaitAction::Finish(0, ButtonEvent::ShortPress))
    );
    assert_eq!(wait_for_release_step(true), Some(20));
    assert_eq!(wait_for_release_step(false), None);
}

#[test]
fn ironbow_map() {
    let map = make_ironbow();
    assert_eq!(map.len(), 256);
    assert_eq!(ironbow_rgb(0), (0, 0, 0));
    assert_eq!(ironbow_rgb(31), (0, 0, 248));
    assert_eq!(ironbow_rgb(40), (0, 64, 255));
    assert_eq!(ironbow_rgb(70), (48, 255, 255));
    assert_eq!(ironbow_rgb(100), (255, 223, 0));
    assert_eq!(ironbow_rgb(130), (255, 239, 0));
    assert_eq!(ironbow_rgb(170), (255, 94, 0));
    assert_eq!(ironbow_rgb(255), (255, 255, 220));
    // Channels masked to 5, 6 and 5 bits and packed red, green, blue.
    assert_eq!(map[0], 0x0000);
    assert_eq!(map[31], 248 & 31);
    assert_eq!(map[40], (64 & 63) << 5 | (255 & 31));
    assert_eq!(map[255], (31 << 11) | (63 << 5) | (220 & 31));
}

#[test]
fn gradient_colors() {
    // x = 0: t = 0 -> (128, 0, 0).
    assert_eq!(gradient_color(0), ((128 & 31) << 11) as u16);
    // x = 10: t = 20 -> (108, 20, 0).
    assert_eq!(gradient_color(10), ((108 & 31) << 11 | (20 & 63) << 5) as u16);
    // x = 100: t = 200 -> (0, 55, 72).
    assert_eq!(gradient_color(100), ((55 & 63) << 5 | (72 & 31)) as u16);
    // x = 130: t wraps to 4 -> (124, 4, 0).
    assert_eq!(gradient_color(130), ((124 & 31) << 11 | (4 & 63) << 5) as u16);
}

#[test]
fn thermal_image_placement() {
    assert_eq!(screen_to_sensor(0, 0), (0, 31));
    assert_eq!(screen_to_sensor(119, 159), (23, 0));
    assert_eq!(screen_to_sensor(7, 12), (1, 29));
}

#[test]
fn fmt_buf_keeps_what_fits() {
    let mut b = FmtBuf::new();
    assert_eq!(b.write_bytes(b"12.3 - 45.6C"), Ok(()));
    assert_eq!(b.as_bytes(), b"12.3 - 45.6C".to_vec());
    assert_eq!(b.write_bytes(b"abcdefghijklmnopqrstuvwxyz"), Err(()));
    assert_eq!(b.as_bytes().len(), 32);
    assert_eq!(&b.as_bytes()[..12], b"12.3 - 45.6C");
    assert_eq!(&b.as_bytes()[12..], b"abcdefghijklmnopqrst");
    assert_eq!(b.write_bytes(b""), Ok(()));
    assert_eq!(b.write_bytes(b"x"), Err(()));
}

#[test]
fn i2c_compat_holds_bus() {
    let mut c = I2cCompat::new(7u32);
    *c.inner_mut() += 1;
    assert_eq!(c.into_inner(), 8);
}

#[test]
fn delay_rounds_up_to_microseconds() {
    assert_eq!(delay_us_for_ns(0), 0);
    assert_eq!(delay_us_for_ns(1), 1);
    assert_eq!(delay_us_for_ns(1000), 1);
    assert_eq!(delay_us_for_ns(1001), 2);
    assert_eq!(delay_us_for_ns(u32::MAX), 4_294_968);
}

#[test]
fn lava_map() {
    let map = make_lava();
    assert_eq!(map.len(), 256);
    assert_eq!(lava_rgb(0), (0, 0, 0));
    assert_eq!(lava_rgb(63), (252, 0, 0));
    assert_eq!(lava_rgb(100), (255, 72, 0));
    assert_eq!(lava_rgb(150), (255, 172, 0));
    assert_eq!(lava_rgb(255), (255, 255, 252));
    assert_eq!(map[0], 0);
    assert_eq!(map[63], (252 / 8) << 11);
    assert_eq!(map[100], (31 << 11) | ((72 / 4) << 5));
    assert_eq!(map[255], (31 << 11) | (63 << 5) | (252 / 8));
}

#[test]
fn thermal_view_toggles_colormap() {
    assert_eq!(ColormapKind::Ironbow.name(), "iron");
    assert_eq!(ColormapKind::Lava.name(), "lava");
    assert_eq!(thermal_step(ColormapKind::Ironbow, ButtonEvent::ShortPress), ThermalStep::UseMap(ColormapKind::Lava));
    assert_eq!(thermal_step(ColormapKind::Lava, ButtonEvent::ShortPress), ThermalStep::UseMap(ColormapKind::Ironbow));
    assert_eq!(thermal_step(ColormapKind::Lava, ButtonEvent::LongPress), ThermalStep::Exit);
    assert_eq!(thermal_step(ColormapKind::Ironbow, ButtonEvent::NoPress), ThermalStep::Stay);
}
