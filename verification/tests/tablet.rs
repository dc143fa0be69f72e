use next_tablet_driver::engine::{ActivityMonitor, ConfigReload, DrainWindow, Throttle, DRAIN_WINDOW_US};
use next_tablet_driver::protocol::DriverMode;
use next_tablet_driver::tablet::{
    absolute_move_units, button_event, is_active_report, is_positional, plan_injection,
    status_discriminant, status_from_discriminant, ButtonEvent, EngineStatus, InjectionPlan,
    TabletStatus,
};

const ALL: [TabletStatus; 12] = [
    TabletStatus::Disconnected,
    TabletStatus::OutOfRange,
    TabletStatus::Hover,
    TabletStatus::Contact,
    TabletStatus::Active,
    TabletStatus::Eraser,
    TabletStatus::Pen,
    TabletStatus::Touch,
    TabletStatus::Aux,
    TabletStatus::Rotation,
    TabletStatus::Tool,
    TabletStatus::Mouse,
];

#[test]
fn status_discriminants_round_trip() {
    for (i, s) in ALL.iter().enumerate() {
        assert_eq!(status_discriminant(*s), i as u8);
        assert_eq!(status_from_discriminant(i as u8), *s);
    }
    assert_eq!(status_from_discriminant(12), TabletStatus::Disconnected);
    assert_eq!(status_from_discriminant(255), TabletStatus::Disconnected);
}

#[test]
fn positional_and_active_reports() {
    let positional: Vec<_> = ALL.iter().filter(|s| is_positional(**s)).collect();
    assert_eq!(positional, vec![&TabletStatus::Hover, &TabletStatus::Contact, &TabletStatus::Active]);
    assert!(!is_active_report(TabletStatus::Disconnected));
    assert!(!is_active_report(TabletStatus::OutOfRange));
    assert!(is_active_report(TabletStatus::Aux));
}

#[test]
fn injection_plans() {
    assert_eq!(
        plan_injection(false, TabletStatus::Contact, DriverMode::Absolute),
        InjectionPlan::ReleaseAndLeave
    );
    assert_eq!(plan_injection(true, TabletStatus::Aux, DriverMode::Absolute), InjectionPlan::Leave);
    assert_eq!(plan_injection(true, TabletStatus::OutOfRange, DriverMode::Relative), InjectionPlan::Leave);
    assert_eq!(plan_injection(true, TabletStatus::Hover, DriverMode::Absolute), InjectionPlan::MoveAbsolute);
    assert_eq!(plan_injection(true, TabletStatus::Contact, DriverMode::Relative), InjectionPlan::MoveRelative);
}

#[test]
fn button_is_reported_once_per_change() {
    let mut last = false;
    assert_eq!(button_event(&mut last, true), Some(ButtonEvent::Press));
    assert!(last);
    assert_eq!(button_event(&mut last, true), None);
    assert_eq!(button_event(&mut last, false), Some(ButtonEvent::Release));
    assert_eq!(button_event(&mut last, false), None);
    assert!(!last);
}

#[test]
fn absolute_units_round_to_nearest() {
    // 1920x1080 screen: extents 1919 and 1079.
    assert_eq!(absolute_move_units(0, 0, 1920, 1080), Some((0, 0)));
    assert_eq!(absolute_move_units(1919, 1079, 1920, 1080), Some((65535, 65535)));
    // (960 * 65535 + 959) / 1919 and (540 * 65535 + 539) / 1079
    assert_eq!(absolute_move_units(960, 540, 1920, 1080), Some((32785, 32798)));
    // negative positions round symmetrically, toward zero after adding half
    assert_eq!(absolute_move_units(-1, -1, 1920, 1080), Some((-34, -61)));
    assert_eq!(absolute_move_units(10, 10, 1, 1080), None);
    assert_eq!(absolute_move_units(10, 10, 1920, 0), None);
}

#[test]
fn engine_status_defaults_to_running() {
    assert_eq!(EngineStatus::default(), EngineStatus::Running);
    assert_ne!(EngineStatus::Failed("x".to_string()), EngineStatus::Running);
}

#[test]
fn throttles_run_at_most_once_per_interval() {
    use_throttles();
}

fn use_throttles() {
    // strict 16 ms stats throttle
    let mut stats = Throttle::new(16_000, false, 0);
    assert!(!stats.fire(16_000));
    assert!(stats.fire(16_001));
    assert!(!stats.fire(20_000));
    assert!(stats.fire(40_000));
    // inclusive 3 s promotion retry
    let mut promo = Throttle::new(3_000_000, true, 1_000);
    assert!(!promo.fire(2_999_999));
    assert!(promo.fire(3_001_000));
    // a clock reading earlier than the last run counts as no time passed
    assert!(!promo.fire(5));
}

#[test]
fn stalls_are_gaps_between_active_reports() {
    let mut m = ActivityMonitor::new();
    assert!(!m.record(0, TabletStatus::Contact));
    assert!(!m.record(25_000, TabletStatus::Contact));
    assert!(m.record(50_001, TabletStatus::Hover));
    assert!(!m.record(200_000, TabletStatus::OutOfRange));
    assert!(!m.record(400_000, TabletStatus::Contact));
    assert!(!m.record(401_000, TabletStatus::Contact));
}

#[test]
fn config_reload_checks_every_50ms_and_only_on_new_versions() {
    let mut c = ConfigReload::new(1, 0);
    assert!(!c.poll(10_000, 2));
    assert!(c.poll(50_000, 2));
    assert!(!c.poll(120_000, 2));
    assert!(!c.poll(130_000, 3));
    assert!(c.poll(170_000, 3));
}

#[test]
fn drain_window_closes_after_its_length() {
    let w = DrainWindow::new(1_000);
    assert_eq!(DRAIN_WINDOW_US, 100_000);
    assert!(w.continues(1_000, false));
    assert!(w.continues(100_999, false));
    assert!(!w.continues(101_000, false));
    assert!(!w.continues(5_000, true));
}
