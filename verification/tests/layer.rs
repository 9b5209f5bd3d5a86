use std::time::Duration;
use wenmeng::layer::{period_text, spend, Spend};
use wenmeng::{ProtError, Rate, TimeoutLayer};

#[test]
fn timeout_layer_starts_without_limits() {
    let t = TimeoutLayer::new();
    assert!(t.read_timeout.is_none() && t.write_timeout.is_none() && t.timeout.is_none());
    assert!(t.check(Duration::from_secs(3600), false, false).is_ok());
}

#[test]
fn setters_change_one_limit_each() {
    let mut t = TimeoutLayer::new();
    t.set_read_timeout(Some(Duration::from_secs(1)));
    t.set_write_timeout(Some(Duration::from_secs(2)));
    t.set_timeout(Some(Duration::from_secs(3)));
    assert_eq!(t.read_timeout, Some(Duration::from_secs(1)));
    assert_eq!(t.write_timeout, Some(Duration::from_secs(2)));
    assert_eq!(t.timeout, Some(Duration::from_secs(3)));
    t.set_read_timeout(None);
    assert_eq!(t.read_timeout, None);
    assert_eq!(t.write_timeout, Some(Duration::from_secs(2)));
}

#[test]
fn the_first_limit_passed_is_reported() {
    let mut t = TimeoutLayer::new();
    t.set_read_timeout(Some(Duration::from_secs(1)));
    t.set_write_timeout(Some(Duration::from_secs(2)));
    t.set_timeout(Some(Duration::from_secs(3)));
    assert!(t.check(Duration::from_millis(500), false, false).is_ok());
    assert!(t.check(Duration::from_secs(1), false, false).is_ok());
    assert!(matches!(t.check(Duration::from_millis(1500), false, false), Err(ProtError::Extension("read timeout"))));
    assert!(matches!(t.check(Duration::from_millis(2500), true, false), Err(ProtError::Extension("write timeout"))));
    assert!(t.check(Duration::from_secs(10), true, true).is_ok());
    let mut total = TimeoutLayer::new();
    total.set_timeout(Some(Duration::from_secs(3)));
    assert!(matches!(total.check(Duration::from_secs(4), false, false), Err(ProtError::Extension("timeout"))));
    assert!(total.check(Duration::from_secs(4), true, false).is_ok());
}

#[test]
fn periods_are_written_in_their_largest_unit() {
    assert_eq!(period_text(7200, 0), b"2h".to_vec());
    assert_eq!(period_text(180, 0), b"3min".to_vec());
    assert_eq!(period_text(45, 0), b"45s".to_vec());
    assert_eq!(period_text(90, 0), b"90s".to_vec());
    assert_eq!(period_text(1, 500), b"1500ms".to_vec());
    assert_eq!(period_text(0, 0), b"0s".to_vec());
}

#[test]
fn rates_show_their_period() {
    assert_eq!(Rate::new(10, Duration::from_secs(3600)).to_string(), "1h");
    assert_eq!(Rate::new(10, Duration::from_millis(250)).to_string(), "250ms");
    assert_eq!(Rate::new(10, Duration::from_secs(120)).to_string(), "2min");
    let r = Rate::new(5, Duration::from_secs(1));
    assert_eq!(r.nums, 5);
    assert_eq!(r.per, Duration::from_secs(1));
}

#[test]
fn budget_is_spent_or_exhausted() {
    assert_eq!(spend(0, 5), Spend::Waiting);
    assert_eq!(spend(10, 3), Spend::Left(7));
    assert_eq!(spend(10, 10), Spend::Exhausted(0));
    assert_eq!(spend(10, 25), Spend::Exhausted(15));
}
