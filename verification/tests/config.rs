use monmon::dbg::config::{Config, ConfigKind, RaceCondition};
use monmon::debug::config as basic;

#[test]
fn presets_have_expected_sizes() {
    let c = Config::new(ConfigKind::Fast);
    assert_eq!((c.num_producer, c.per_producer), (4, 50));
    let c = Config::new(ConfigKind::Medium);
    assert_eq!((c.num_producer, c.per_producer), (64, 50));
    let c = Config::new(ConfigKind::Slow);
    assert_eq!((c.num_producer, c.per_producer), (1024, 50));
    assert_eq!(c._mode, ConfigKind::Slow);

    let c = basic::Config::new(basic::ConfigKind::Medium);
    assert_eq!((c.num_producer, c.per_producer), (64, 50));
}

#[test]
fn race_report_counts_missing_items() {
    let r = RaceCondition::new(200usize, 150usize);
    assert!(r.is_race());
    assert_eq!(r.missing_items(), 50);
    let r = RaceCondition::new(200usize, 250usize);
    assert_eq!(r.missing_items(), 0);
    let r = RaceCondition::new(200usize, 200usize);
    assert!(!r.is_race());

    let r = RaceCondition::new(0i64, -7i64);
    assert!(r.is_race());
    assert_eq!(r.missing_items(), 7);
    let r = RaceCondition::new(0i64, 7i64);
    assert_eq!(r.missing_items(), -7);
    let r = RaceCondition::new(i64::MAX, -1i64);
    assert_eq!(r.missing_items(), i64::MAX);
    let r = RaceCondition::new(i64::MIN, 1i64);
    assert_eq!(r.missing_items(), i64::MIN);

    let r = basic::RaceCondition::new(10, 3);
    assert!(r.is_race());
    assert_eq!(r.missing_items(), 7);
}

#[test]
fn race_report_text() {
    assert_eq!(RaceCondition::new(200usize, 200usize).report(), "[NO RACE]\n");
    assert_eq!(
        RaceCondition::new(200usize, 150usize).report(),
        "[RACE CONDITION]\nExpected: 200, Actual: 150\nMissing items: 50\n"
    );
    assert_eq!(
        RaceCondition::new(0i64, 7i64).report(),
        "[RACE CONDITION]\nExpected: 0, Actual: 7\nMissing items: -7\n"
    );
    assert_eq!(
        basic::RaceCondition::new(10, 13).report(),
        "[RACE CONDITION]\nExpected: 10, Actual: 13\nMissing items: 0\n"
    );
}
