//! The firmware's applications: the menu, the screen test and the placement
//! of the thermal image, as decisions on button events.

use vstd::prelude::*;
use crate::hw::ButtonEvent;

verus! {

/// The applications of the firmware.
#[derive(Clone, Copy, Debug, PartialEq, Eq, Structural)]
pub enum AppKind {
    Menu,
    ScreenTest,
    ThermalCamera,
}

/// Title of an application.
pub open spec fn app_title(app: AppKind) -> Seq<char> {
    match app {
        AppKind::Menu => "Main Menu"@,
        AppKind::ScreenTest => "Screen Test"@,
        AppKind::ThermalCamera => "Thermal Camera"@,
    }
}

/// The applications the menu offers, in menu order.
pub open spec fn selectable_apps() -> Seq<AppKind> {
    seq![AppKind::ScreenTest, AppKind::ThermalCamera]
}

impl AppKind {
    /// Title shown for the application.
    pub fn name(&self) -> (r: &'static str)
        ensures
            r@ == app_title(*self),
    {
        match self {
            AppKind::Menu => "Main Menu",
            AppKind::ScreenTest => "Screen Test",
            AppKind::ThermalCamera => "Thermal Camera",
        }
    }

    /// The applications the menu offers, in menu order.
    pub fn selectable() -> (r: &'static [AppKind])
        ensures
            r@ == selectable_apps(),
    {
        let r: &'static [AppKind] = &[AppKind::ScreenTest, AppKind::ThermalCamera];
        assert(r@ =~= selectable_apps());
        r
    }
}

/// What the menu does on a button event.
#[derive(Clone, Copy, Debug, PartialEq, Eq, Structural)]
pub enum MenuStep {
    /// Nothing to do.
    Stay,
    /// Move the cursor to this entry and redraw.
    Move(usize),
    /// Wait for the button to be released, then start this application.
    Launch(AppKind),
}

/// The menu's answer to an event with the cursor on entry `selection`: a short
/// press moves the cursor to the next entry (wrapping around), a long press
/// starts the entry, no event leaves it be.
pub open spec fn spec_menu_step(selection: int, event: ButtonEvent) -> MenuStep {
    match event {
        ButtonEvent::ShortPress => MenuStep::Move(((selection + 1) % selectable_apps().len() as int) as usize),
        ButtonEvent::LongPress => MenuStep::Launch(selectable_apps()[selection]),
        ButtonEvent::NoPress => MenuStep::Stay,
    }
}

/// The menu's answer to a button event.
pub fn menu_step(selection: usize, event: ButtonEvent) -> (r: MenuStep)
    requires
        selection < selectable_apps().len(),
    ensures
        r == spec_menu_step(selection as int, event),
        r matches MenuStep::Move(s) ==> s < selectable_apps().len(),
{
    let items = AppKind::selectable();
    match event {
        ButtonEvent::ShortPress => MenuStep::Move((selection + 1) % items.len()),
        ButtonEvent::LongPress => MenuStep::Launch(items[selection]),
        ButtonEvent::NoPress => MenuStep::Stay,
    }
}

/// Short presses cycle the cursor through all entries: as many presses as
/// there are entries bring it back where it started.
pub proof fn lemma_menu_cycles(selection: int)
    requires
        0 <= selection < selectable_apps().len(),
    ensures
        spec_menu_step(selection, ButtonEvent::ShortPress) matches MenuStep::Move(s1)
            && spec_menu_step(s1 as int, ButtonEvent::ShortPress) matches MenuStep::Move(s2) && s2
            == selection && s1 != selection,
{
}

/// The backlight levels of the screen test, in percent.
pub open spec fn backlight_levels() -> Seq<u8> {
    seq![0u8, 25u8, 50u8, 75u8, 100u8]
}

/// The backlight levels of the screen test, in percent.
pub fn levels() -> (r: [u8; 5])
    ensures
        r@ == backlight_levels(),
{
    let r: [u8; 5] = [0, 25, 50, 75, 100];
    assert(r@ =~= backlight_levels());
    r
}

/// Position of `level` among the backlight levels, or the middle one (50 %)
/// for a level that is not among them.
pub open spec fn spec_level_index(level: u8) -> int {
    if level == 0 {
        0
    } else if level == 25 {
        1
    } else if level == 50 {
        2
    } else if level == 75 {
        3
    } else if level == 100 {
        4
    } else {
        2
    }
}

/// Where the screen test starts in the list of backlight levels.
pub fn level_index(level: u8) -> (r: usize)
    ensures
        r == spec_level_index(level),
        r < 5,
        forall|i: int| 0 <= i < 5 && backlight_levels()[i] == level ==> r == i,
        (forall|i: int| 0 <= i < 5 ==> backlight_levels()[i] != level) ==> r == 2,
{
    let lv = levels();
    let mut i: usize = 0;
    while i < 5
        invariant
            i <= 5,
            lv@ == backlight_levels(),
            forall|k: int| 0 <= k < i ==> lv@[k] != level,
        decreases 5 - i,
    {
        if lv[i] == level {
            return i;
        }
        i += 1;
    }
    2
}

/// A listed backlight level is found at its own position, and the middle
/// position (50 %) stands only for a level that is not listed.
pub proof fn lemma_level_index_position(level: u8)
    ensures
        forall|i: int| 0 <= i < 5 ==> spec_level_index(#[trigger] backlight_levels()[i]) == i,
        (forall|i: int| 0 <= i < 5 ==> backlight_levels()[i] != level) ==> spec_level_index(level)
            == 2,
        spec_level_index(level) != 2 ==> backlight_levels()[spec_level_index(level)] == level,
        spec_level_index(level) == 2 && level != 50 ==> forall|i: int|
            0 <= i < 5 ==> backlight_levels()[i] != level,
{
    assert(backlight_levels()[0] == 0 && backlight_levels()[1] == 25 && backlight_levels()[2] == 50
        && backlight_levels()[3] == 75 && backlight_levels()[4] == 100);
}

/// What the screen test does on a button event.
#[derive(Clone, Copy, Debug, PartialEq, Eq, Structural)]
pub enum ScreenTestStep {
    /// Nothing to do.
    Stay,
    /// Go to this level index and set the backlight to this many percent.
    SetLevel(usize, u8),
    /// Go back to the menu.
    Exit,
}

/// The screen test's answer to an event at level index `idx`: a short press
/// goes to the next backlight level (after 100 % back to 0 %), a long press
/// returns to the menu.
pub open spec fn spec_screen_test_step(idx: int, event: ButtonEvent) -> ScreenTestStep {
    match event {
        ButtonEvent::ShortPress => ScreenTestStep::SetLevel(
            ((idx + 1) % 5) as usize,
            backlight_levels()[(idx + 1) % 5],
        ),
        ButtonEvent::LongPress => ScreenTestStep::Exit,
        ButtonEvent::NoPress => ScreenTestStep::Stay,
    }
}

/// The screen test's answer to a button event.
pub fn screen_test_step(idx: usize, event: ButtonEvent) -> (r: ScreenTestStep)
    requires
        idx < 5,
    ensures
        r == spec_screen_test_step(idx as int, event),
{
    let lv = levels();
    match event {
        ButtonEvent::ShortPress => {
            let next = (idx + 1) % 5;
            ScreenTestStep::SetLevel(next, lv[next])
        },
        ButtonEvent::LongPress => ScreenTestStep::Exit,
        ButtonEvent::NoPress => ScreenTestStep::Stay,
    }
}

/// Short presses walk through 0 %, 25 %, 50 %, 75 %, 100 % and back to 0 %.
pub proof fn lemma_levels_cycle(idx: int)
    requires
        0 <= idx < 5,
    ensures
        spec_screen_test_step(idx, ButtonEvent::ShortPress) matches ScreenTestStep::SetLevel(n, pct)
            && pct == backlight_levels()[n as int] && n == (idx + 1) % 5,
        spec_screen_test_step(4, ButtonEvent::ShortPress) == ScreenTestStep::SetLevel(0, 0),
{
}

/// The checkerboard square in row `r`, column `c` of the screen test is white.
pub fn checker_is_white(r: i32, c: i32) -> (w: bool)
    requires
        i32::MIN <= r + c <= i32::MAX,
    ensures
        w == ((r + c) % 2 == 0),
{
    (r + c) % 2 == 0
}

/// Width of the display in pixels.
pub const SCREEN_W: i32 = 135;

/// Height of the display in pixels.
pub const SCREEN_H: i32 = 240;

/// Width of the thermal image on the display.
pub const IMG_W: i32 = 120;

/// Height of the thermal image on the display.
pub const IMG_H: i32 = 160;

/// Left margin of the thermal image on the display.
pub const X_OFF: i32 = 7;

/// The sensor cell (row, column) shown at display point (`x`, `y`) of the
/// thermal image: each cell covers 5×5 display pixels, and the sensor image
/// is turned a quarter so that its columns run down the display, last first.
pub open spec fn spec_screen_to_sensor(x: int, y: int) -> (int, int) {
    (x / 5, 31 - y / 5)
}

/// The sensor cell shown at a point of the thermal image.
pub fn screen_to_sensor(x: i32, y: i32) -> (r: (usize, usize))
    requires
        0 <= x < IMG_W,
        0 <= y < IMG_H,
    ensures
        r.0 == spec_screen_to_sensor(x as int, y as int).0,
        r.1 == spec_screen_to_sensor(x as int, y as int).1,
        r.0 < 24 && r.1 < 32,
{
    let sensor_col = 32 - 1 - y as usize / 5;
    let sensor_row = x as usize / 5;
    (sensor_row, sensor_col)
}


/// Each sensor cell (row `r`, column `c`) is shown on exactly one 5×5 block of
/// the thermal image: the display columns `5r` to `5r + 4` and the display rows
/// `5(31 - c)` to `5(31 - c) + 4`.
pub proof fn lemma_sensor_cell_block(x: int, y: int, r: int, c: int)
    requires
        0 <= x < 120,
        0 <= y < 160,
        0 <= r < 24,
        0 <= c < 32,
    ensures
        spec_screen_to_sensor(x, y) == (r, c) <==> 5 * r <= x < 5 * r + 5 && 5 * (31 - c) <= y < 5
            * (31 - c) + 5,
{
}

/// The colour maps of the thermal view.
#[derive(Clone, Copy, Debug, PartialEq, Eq, Structural)]
pub enum ColormapKind {
    Ironbow,
    Lava,
}

/// Short name of a colour map, as the thermal view's overlay shows it.
pub open spec fn colormap_title(map: ColormapKind) -> Seq<char> {
    match map {
        ColormapKind::Ironbow => "iron"@,
        ColormapKind::Lava => "lava"@,
    }
}

impl ColormapKind {
    /// Short name shown in the overlay.
    pub fn name(&self) -> (r: &'static str)
        ensures
            r@ == colormap_title(*self),
    {
        match self {
            ColormapKind::Ironbow => "iron",
            ColormapKind::Lava => "lava",
        }
    }
}

/// What the thermal view does on a button event.
#[derive(Clone, Copy, Debug, PartialEq, Eq, Structural)]
pub enum ThermalStep {
    /// Nothing to do.
    Stay,
    /// Switch to this colour map.
    UseMap(ColormapKind),
    /// Go back to the menu.
    Exit,
}

/// The thermal view's answer to an event while showing `map`: a short press
/// switches between the ironbow and the lava map, a long press returns to the
/// menu.
pub open spec fn spec_thermal_step(map: ColormapKind, event: ButtonEvent) -> ThermalStep {
    match event {
        ButtonEvent::ShortPress => ThermalStep::UseMap(
            match map {
                ColormapKind::Ironbow => ColormapKind::Lava,
                ColormapKind::Lava => ColormapKind::Ironbow,
            },
        ),
        ButtonEvent::LongPress => ThermalStep::Exit,
        ButtonEvent::NoPress => ThermalStep::Stay,
    }
}

/// The thermal view's answer to a button event.
pub fn thermal_step(map: ColormapKind, event: ButtonEvent) -> (r: ThermalStep)
    ensures
        r == spec_thermal_step(map, event),
{
    match event {
        ButtonEvent::ShortPress => match map {
            ColormapKind::Ironbow => ThermalStep::UseMap(ColormapKind::Lava),
            ColormapKind::Lava => ThermalStep::UseMap(ColormapKind::Ironbow),
        },
        ButtonEvent::LongPress => ThermalStep::Exit,
        ButtonEvent::NoPress => ThermalStep::Stay,
    }
}

/// Two short presses bring the thermal view back to the map it started with,
/// and one short press always changes the map.
pub proof fn lemma_colormap_toggles(map: ColormapKind)
    ensures
        spec_thermal_step(map, ButtonEvent::ShortPress) matches ThermalStep::UseMap(m1)
            && m1 != map && spec_thermal_step(m1, ButtonEvent::ShortPress) == ThermalStep::UseMap(
            map,
        ),
{
}

} // verus!
