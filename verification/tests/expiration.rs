use cosmons::expiration::{BlockInfo, Expiration};

#[test]
fn never_does_not_expire() {
    let block = BlockInfo { height: u64::MAX, time: u64::MAX };
    assert!(!Expiration::Never.is_expired(&block));
    assert_eq!(Expiration::default(), Expiration::Never);
}

#[test]
fn height_expires_at_the_boundary() {
    let e = Expiration::AtHeight(100);
    assert!(!e.is_expired(&BlockInfo { height: 99, time: 0 }));
    assert!(e.is_expired(&BlockInfo { height: 100, time: 0 }));
    assert!(e.is_expired(&BlockInfo { height: 101, time: 0 }));
}

#[test]
fn time_expires_at_the_boundary() {
    let e = Expiration::AtTime(5000);
    assert!(!e.is_expired(&BlockInfo { height: 1_000_000, time: 4999 }));
    assert!(e.is_expired(&BlockInfo { height: 0, time: 5000 }));
    assert!(e.is_expired(&BlockInfo { height: 0, time: 5001 }));
}
