use spotlyt::error::AppError;
use spotlyt::time::{Timestamp, MAX_UNIX_SECS, MIN_UNIX_SECS};

#[test]
fn app_error_status_codes() {
    let (s, m) = AppError::Unauthorized("no".to_string()).into_status_and_message();
    assert_eq!((s, m.as_str()), (401, "no"));
    let (s, m) = AppError::BadRequest("bad".to_string()).into_status_and_message();
    assert_eq!((s, m.as_str()), (400, "bad"));
    let (s, m) = AppError::Conflict("taken".to_string()).into_status_and_message();
    assert_eq!((s, m.as_str()), (409, "taken"));
    let (s, m) = AppError::Internal("boom".to_string()).into_status_and_message();
    assert_eq!((s, m.as_str()), (500, "boom"));
}

#[test]
fn timestamp_from_unix_range() {
    assert!(Timestamp::from_unix(0, 0).is_some());
    assert!(Timestamp::from_unix(0, 1_000_000_000).is_none());
    assert!(Timestamp::from_unix(MAX_UNIX_SECS, 999_999_999).is_some());
    assert!(Timestamp::from_unix(MAX_UNIX_SECS + 1, 0).is_none());
    assert!(Timestamp::from_unix(MIN_UNIX_SECS, 0).is_some());
    assert!(Timestamp::from_unix(MIN_UNIX_SECS - 1, 0).is_none());
}

#[test]
fn timestamp_plus_carries_nanos() {
    let t = Timestamp::from_unix(100, 900_000_000).unwrap();
    let u = t.plus(5, 200_000_000);
    assert_eq!((u.secs, u.nanos), (106, 100_000_000));
    let v = t.plus(-3600, 0);
    assert_eq!((v.secs, v.nanos), (100 - 3600, 900_000_000));
}

#[test]
fn timestamp_nanos_since() {
    let a = Timestamp::from_unix(10, 0).unwrap();
    let b = Timestamp::from_unix(8, 500_000_000).unwrap();
    assert_eq!(a.nanos_since(b), 1_500_000_000);
    assert_eq!(b.nanos_since(a), -1_500_000_000);
}

#[test]
fn timestamp_checked_plus_stays_in_range() {
    let t = Timestamp::from_unix(100, 900_000_000).unwrap();
    let u = t.checked_plus(5, 200_000_000).unwrap();
    assert_eq!((u.secs, u.nanos), (106, 100_000_000));
    let top = Timestamp::from_unix(MAX_UNIX_SECS, 999_999_999).unwrap();
    assert!(top.checked_plus(0, 0).is_some());
    assert!(top.checked_plus(0, 1).is_none());
    let bottom = Timestamp::from_unix(MIN_UNIX_SECS, 0).unwrap();
    assert!(bottom.checked_plus(-1, 999_999_999).is_none());
    assert!(bottom.checked_plus(i64::MAX, 0).is_none());
    assert!(t.checked_plus(i64::MIN, 0).is_none());
}
