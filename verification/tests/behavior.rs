use auth_service::ids::{DeviceId, IpAddress, UserId};
use auth_service::risk::behavioral::{UserBehavior, Weekday};

const SEC: i64 = 1_000_000;
/// Tuesday 2023-11-14 22:13:20 UTC.
const T0: i64 = 1_700_000_000 * SEC;

fn profile() -> UserBehavior {
    let mut b = UserBehavior::new_at(UserId(1), 0);
    b.record_login(T0, IpAddress::V4(0xC0A8_0101), DeviceId(4), Some("US".to_string()));
    b.record_login(T0 + 3600 * SEC, IpAddress::V4(0xC0A8_0101), DeviceId(4), Some("US".to_string()));
    b
}

#[test]
fn empty_profile_finds_nothing_unusual() {
    let b = UserBehavior::new_at(UserId(1), 0);
    assert!(b.is_typical_login(T0, &IpAddress::V4(1), &DeviceId(1)));
    assert!(b.unusual_in_login(T0, &IpAddress::V4(1), "0.0.0.1", &DeviceId(1), Some("FR")).is_empty());
}

#[test]
fn recorded_profile_keeps_average_interval() {
    let b = profile();
    assert_eq!(b.avg_login_interval_secs, Some(3600));
    assert_eq!(b.typical_login_hours, vec![22, 23]);
    assert_eq!(b.typical_login_days, vec![Weekday::Tue]);
}

#[test]
fn quick_login_from_new_place_is_reported_in_order() {
    let b = profile();
    let t = T0 + 3700 * SEC;
    let found = b.unusual_in_login(t, &IpAddress::V4(0x0A00_0001), "10.0.0.1", &DeviceId(5), Some("FR"));
    assert_eq!(
        found,
        vec![
            "Unknown IP address: 10.0.0.1".to_string(),
            "Unknown device: 00000000-0000-0000-0000-000000000005".to_string(),
            "Unusual country: FR".to_string(),
            "Login too soon (100s vs avg 3600s)".to_string(),
        ]
    );
    assert!(b.is_typical_login(t, &IpAddress::V4(0x0A00_0001), &DeviceId(5)));
}

#[test]
fn login_at_unusual_hour_and_day() {
    let b = profile();
    // Wednesday 2023-11-15 10:00:00 UTC.
    let t = 1_700_042_400 * SEC;
    assert_eq!(auth_service::risk::behavioral::hour(t), 10);
    let found = b.unusual_in_login(t, &IpAddress::V4(0xC0A8_0101), "192.168.1.1", &DeviceId(4), None);
    assert_eq!(found, vec!["Unusual login hour: 10".to_string(), "Unusual login day: Wed".to_string()]);
    assert!(!b.is_typical_login(t, &IpAddress::V4(0xC0A8_0101), &DeviceId(4)));
}

#[test]
fn interval_within_tolerance() {
    let b = profile();
    let last = T0 + 3600 * SEC;
    assert!(b.interval_within(last + 3600 * SEC, 0));
    assert!(!b.interval_within(last + 100 * SEC, 360));
    assert!(b.interval_within(last + 100 * SEC, 3600));
    assert!(UserBehavior::new_at(UserId(2), 0).interval_within(last, 0));
}

#[test]
fn weekday_names() {
    assert_eq!(Weekday::Mon.name(), "Mon");
    assert_eq!(Weekday::Sun.name(), "Sun");
}
