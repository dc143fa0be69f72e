//! Tablet report classification and the decisions that turn a processed
//! report into OS input events.

use vstd::prelude::*;
use crate::protocol::DriverMode;

verus! {

/// Kind of report a tablet produced, in the order of its published
/// discriminant (`Disconnected` is 0, `Mouse` is 11).
#[derive(Clone, Copy, Debug, PartialEq, Eq, Structural)]
pub enum TabletStatus {
    Disconnected,
    OutOfRange,
    Hover,
    Contact,
    Active,
    Eraser,
    Pen,
    Touch,
    Aux,
    Rotation,
    Tool,
    Mouse,
}

/// Published discriminant of a status.
pub open spec fn discriminant(s: TabletStatus) -> u8 {
    match s {
        TabletStatus::Disconnected => 0,
        TabletStatus::OutOfRange => 1,
        TabletStatus::Hover => 2,
        TabletStatus::Contact => 3,
        TabletStatus::Active => 4,
        TabletStatus::Eraser => 5,
        TabletStatus::Pen => 6,
        TabletStatus::Touch => 7,
        TabletStatus::Aux => 8,
        TabletStatus::Rotation => 9,
        TabletStatus::Tool => 10,
        TabletStatus::Mouse => 11,
    }
}

/// Status carried by a published byte: the status with that discriminant,
/// and `Disconnected` for every byte above 11.
pub open spec fn status_of(byte: u8) -> TabletStatus {
    if byte == 1 {
        TabletStatus::OutOfRange
    } else if byte == 2 {
        TabletStatus::Hover
    } else if byte == 3 {
        TabletStatus::Contact
    } else if byte == 4 {
        TabletStatus::Active
    } else if byte == 5 {
        TabletStatus::Eraser
    } else if byte == 6 {
        TabletStatus::Pen
    } else if byte == 7 {
        TabletStatus::Touch
    } else if byte == 8 {
        TabletStatus::Aux
    } else if byte == 9 {
        TabletStatus::Rotation
    } else if byte == 10 {
        TabletStatus::Tool
    } else if byte == 11 {
        TabletStatus::Mouse
    } else {
        TabletStatus::Disconnected
    }
}

/// Whether a status is a positional report (pen touching, hovering, or active).
pub open spec fn positional(s: TabletStatus) -> bool {
    s is Contact || s is Hover || s is Active
}

/// Discriminant under which a status is published to other processes.
pub fn status_discriminant(status: TabletStatus) -> (byte: u8)
    ensures
        byte == discriminant(status),
{
    match status {
        TabletStatus::Disconnected => 0,
        TabletStatus::OutOfRange => 1,
        TabletStatus::Hover => 2,
        TabletStatus::Contact => 3,
        TabletStatus::Active => 4,
        TabletStatus::Eraser => 5,
        TabletStatus::Pen => 6,
        TabletStatus::Touch => 7,
        TabletStatus::Aux => 8,
        TabletStatus::Rotation => 9,
        TabletStatus::Tool => 10,
        TabletStatus::Mouse => 11,
    }
}

/// Maps a published status byte back to a status; unknown bytes read as
/// `Disconnected`.
pub fn status_from_discriminant(byte: u8) -> (status: TabletStatus)
    ensures
        status == status_of(byte),
{
    match byte {
        1 => TabletStatus::OutOfRange,
        2 => TabletStatus::Hover,
        3 => TabletStatus::Contact,
        4 => TabletStatus::Active,
        5 => TabletStatus::Eraser,
        6 => TabletStatus::Pen,
        7 => TabletStatus::Touch,
        8 => TabletStatus::Aux,
        9 => TabletStatus::Rotation,
        10 => TabletStatus::Tool,
        11 => TabletStatus::Mouse,
        _ => TabletStatus::Disconnected,
    }
}

/// A status published by the owner reads back as the same status, and the
/// published bytes are exactly 0 through 11.
pub proof fn lemma_status_round_trip(s: TabletStatus, b: u8)
    ensures
        status_of(discriminant(s)) == s,
        discriminant(s) <= 11,
        b <= 11 ==> discriminant(status_of(b)) == b,
        b > 11 ==> status_of(b) == TabletStatus::Disconnected,
{
}

/// Whether a report carries a pen position the pipeline should map:
/// contact, hover or active. Every other report is skipped.
pub fn is_positional(status: TabletStatus) -> (b: bool)
    ensures
        b == positional(status),
{
    match status {
        TabletStatus::Contact | TabletStatus::Hover | TabletStatus::Active => true,
        _ => false,
    }
}

/// Whether a report counts as pen activity when timing the gap between
/// consecutive reports: anything but `Disconnected` and `OutOfRange`.
pub fn is_active_report(status: TabletStatus) -> (b: bool)
    ensures
        b == !(status is Disconnected || status is OutOfRange),
{
    match status {
        TabletStatus::Disconnected | TabletStatus::OutOfRange => false,
        _ => true,
    }
}

/// What the injector must do for one processed report.
#[derive(Clone, Copy, Debug, PartialEq, Eq, Structural)]
pub enum InjectionPlan {
    /// The pen is gone: release the button and leave proximity.
    ReleaseAndLeave,
    /// A non-positional report: leave proximity only.
    Leave,
    /// Move the cursor to the frame's screen position, then sync the button.
    MoveAbsolute,
    /// Move the cursor by the frame's delta, then sync the button.
    MoveRelative,
}

/// The injection owed to a report.
pub open spec fn plan_for(is_connected: bool, status: TabletStatus, mode: DriverMode) -> InjectionPlan {
    if !is_connected {
        InjectionPlan::ReleaseAndLeave
    } else if !positional(status) {
        InjectionPlan::Leave
    } else {
        match mode {
            DriverMode::Absolute => InjectionPlan::MoveAbsolute,
            DriverMode::Relative => InjectionPlan::MoveRelative,
        }
    }
}

/// Decides how a processed report drives OS input: a disconnected pen
/// releases the button and drops proximity, a non-positional report only
/// drops proximity, and a positional report moves the cursor (absolutely or
/// relatively, per the driver mode) before the button is synced.
pub fn plan_injection(is_connected: bool, status: TabletStatus, mode: DriverMode) -> (plan: InjectionPlan)
    ensures
        plan == plan_for(is_connected, status, mode),
{
    if !is_connected {
        return InjectionPlan::ReleaseAndLeave;
    }
    if !is_positional(status) {
        return InjectionPlan::Leave;
    }
    match mode {
        DriverMode::Absolute => InjectionPlan::MoveAbsolute,
        DriverMode::Relative => InjectionPlan::MoveRelative,
    }
}

/// For a connected pen, every positional report (hover, contact or active)
/// moves the cursor, and how depends on the driver mode alone: to the
/// mapped point in absolute mode, by the pen's motion in relative mode.
/// Other reports of a connected pen only leave proximity, and a
/// disconnected pen always releases the button and leaves.
pub proof fn lemma_plan_follows_mode(status: TabletStatus, mode: DriverMode)
    ensures
        (status is Hover || status is Contact || status is Active) && mode is Absolute
            ==> plan_for(true, status, mode) == InjectionPlan::MoveAbsolute,
        (status is Hover || status is Contact || status is Active) && mode is Relative
            ==> plan_for(true, status, mode) == InjectionPlan::MoveRelative,
        !(status is Hover || status is Contact || status is Active)
            ==> plan_for(true, status, mode) == InjectionPlan::Leave,
        plan_for(false, status, mode) == InjectionPlan::ReleaseAndLeave,
{
}

/// Edge of the primary button the OS must be told about.
#[derive(Clone, Copy, Debug, PartialEq, Eq, Structural)]
pub enum ButtonEvent {
    Press,
    Release,
}

/// The OS event owed when the tip goes from `last_down` to `is_down`.
pub open spec fn button_edge(last_down: bool, is_down: bool) -> Option<ButtonEvent> {
    if is_down == last_down {
        None
    } else if is_down {
        Some(ButtonEvent::Press)
    } else {
        Some(ButtonEvent::Release)
    }
}

/// Tracks the tip state last sent to the OS so that a held button is
/// reported once, not on every frame.
pub fn button_event(last_down: &mut bool, is_down: bool) -> (ev: Option<ButtonEvent>)
    ensures
        *final(last_down) == is_down,
        ev == button_edge(*old(last_down), is_down),
{
    if is_down == *last_down {
        return None;
    }
    *last_down = is_down;
    if is_down {
        Some(ButtonEvent::Press)
    } else {
        Some(ButtonEvent::Release)
    }
}

/// Once a tip state has been reported, reporting it again sends nothing;
/// a change of state always sends exactly the matching press or release.
pub proof fn lemma_button_reported_once(last_down: bool, is_down: bool)
    ensures
        button_edge(is_down, is_down) is None,
        button_edge(last_down, is_down) is Some <==> last_down != is_down,
        button_edge(last_down, is_down) == Some(ButtonEvent::Press) ==> is_down,
        button_edge(last_down, is_down) == Some(ButtonEvent::Release) ==> !is_down,
{
}

/// Full scale of the OS absolute-move range (0..=65535).
pub const ABSOLUTE_RANGE: i64 = 65535;

/// Integer division rounding toward zero, as Rust's `/` on signed integers does.
pub open spec fn div_toward_zero(a: int, b: int) -> int {
    if a >= 0 {
        a / b
    } else {
        -((-a) / b)
    }
}

/// Sign of an integer: -1, 0 or 1.
pub open spec fn sign(x: int) -> int {
    if x > 0 {
        1
    } else if x < 0 {
        -1
    } else {
        0
    }
}

/// A pixel coordinate scaled to the 0..=65535 absolute range of a screen
/// axis of `extent` pixels, rounded to the nearest unit (half away from
/// zero) rather than truncated.
pub open spec fn scaled(p: int, extent: int) -> int {
    div_toward_zero(p * 65535 + (extent - 1) / 2 * sign(p), extent - 1)
}

/// Whether scaling `p` on an axis of `extent` pixels stays within `i64`.
pub open spec fn scale_fits(p: int, extent: int) -> bool {
    &&& i64::MIN <= p * 65535 <= i64::MAX
    &&& i64::MIN <= p * 65535 + (extent - 1) / 2 * sign(p) <= i64::MAX
}

fn scale_axis(p: i64, extent: i32) -> (n: i64)
    requires
        extent > 1,
        scale_fits(p as int, extent as int),
    ensures
        n == scaled(p as int, extent as int),
{
    let e = extent as i64 - 1;
    let s: i64 = if p > 0 { 1 } else if p < 0 { -1 } else { 0 };
    assert(0 <= e / 2 <= e);
    assert((e / 2) * s == (extent as int - 1) / 2 * sign(p as int));
    let num = p * 65535 + e / 2 * s;
    num / e
}

/// Converts a target pixel position to the units of an absolute OS mouse
/// move on a `screen_w` by `screen_h` screen. No move is made (`None`)
/// when either screen dimension is at most one pixel. Each axis is scaled
/// by 65535 / (extent - 1), rounded to the nearest unit, then narrowed to
/// `i32` (wrapping, as an `as` cast does).
pub fn absolute_move_units(x: i64, y: i64, screen_w: i32, screen_h: i32) -> (units: Option<(i32, i32)>)
    requires
        screen_w > 1 && screen_h > 1 ==> scale_fits(x as int, screen_w as int) && scale_fits(
            y as int,
            screen_h as int,
        ),
    ensures
        screen_w <= 1 || screen_h <= 1 ==> units is None,
        screen_w > 1 && screen_h > 1 ==> units == Some(
            (
                scaled(x as int, screen_w as int) as i32,
                scaled(y as int, screen_h as int) as i32,
            ),
        ),
{
    if screen_w <= 1 || screen_h <= 1 {
        return None;
    }
    let nx = scale_axis(x, screen_w);
    let ny = scale_axis(y, screen_h);
    Some((nx as i32, ny as i32))
}

/// Every on-screen pixel maps into the absolute range: the left/top edge to
/// 0, the right/bottom edge to 65535, and everything between within 0..=65535.
pub proof fn lemma_absolute_units_on_screen(p: int, extent: int)
    requires
        extent > 1,
        0 <= p < extent,
    ensures
        0 <= scaled(p, extent) <= 65535,
        p == 0 ==> scaled(p, extent) == 0,
        p == extent - 1 ==> scaled(p, extent) == 65535,
{
    let e = extent - 1;
    let h = e / 2;
    assert(0 <= h < e) by (nonlinear_arith)
        requires
            e >= 1,
            h == e / 2,
    ;
    if p > 0 {
        let n = p * 65535 + h;
        assert(n >= 0) by (nonlinear_arith)
            requires
                p > 0,
                h >= 0,
                n == p * 65535 + h,
        ;
        assert(n / e <= 65535) by (nonlinear_arith)
            requires
                0 < p <= e,
                0 <= h < e,
                n == p * 65535 + h,
        ;
        assert(n / e >= 0) by (nonlinear_arith)
            requires
                n >= 0,
                e >= 1,
        ;
        if p == e {
            assert(n / e == 65535) by (nonlinear_arith)
                requires
                    p == e,
                    e >= 1,
                    0 <= h < e,
                    n == p * 65535 + h,
            ;
        }
        assert(scaled(p, extent) == n / e);
    } else {
        assert(scaled(p, extent) == 0int / e);
    }
}

/// Health of the background engine.
#[derive(Clone, Debug, PartialEq, Eq)]
pub enum EngineStatus {
    Running,
    Failed(String),
}

impl Default for EngineStatus {
    fn default() -> (s: Self)
        ensures
            s is Running,
    {
        EngineStatus::Running
    }
}

} // verus!
