use oxiduct::addr::{IpAddr, Ipv4Addr, Ipv6Addr};
use oxiduct::limits::{reached_90pct, ConnLimits, Reject, Usage};

fn ip(a: u8, b: u8, c: u8, d: u8) -> IpAddr {
    IpAddr::V4(Ipv4Addr::new(a, b, c, d))
}

#[test]
fn unlimited_when_zero() {
    let mut l = ConnLimits::new(0, 0);
    for _ in 0..1000 {
        l.try_acquire(ip(10, 0, 0, 1)).unwrap();
    }
}

#[test]
fn enforces_total_cap() {
    let mut l = ConnLimits::new(3, 0);
    let _g1 = l.try_acquire(ip(10, 0, 0, 1)).unwrap();
    let _g2 = l.try_acquire(ip(10, 0, 0, 2)).unwrap();
    let _g3 = l.try_acquire(ip(10, 0, 0, 3)).unwrap();
    assert_eq!(l.try_acquire(ip(10, 0, 0, 4)).err(), Some(Reject::Total));
}

#[test]
fn enforces_per_ip_cap() {
    let mut l = ConnLimits::new(0, 2);
    let _g1 = l.try_acquire(ip(10, 0, 0, 1)).unwrap();
    let _g2 = l.try_acquire(ip(10, 0, 0, 1)).unwrap();
    assert_eq!(l.try_acquire(ip(10, 0, 0, 1)).err(), Some(Reject::PerIp));
    // A different IP is still admitted.
    let _g3 = l.try_acquire(ip(10, 0, 0, 2)).unwrap();
}

#[test]
fn slot_released_on_guard_drop() {
    let mut l = ConnLimits::new(1, 0);
    let g = l.try_acquire(ip(10, 0, 0, 1)).unwrap();
    assert_eq!(l.try_acquire(ip(10, 0, 0, 1)).err(), Some(Reject::Total));
    l.release(g);
    // Now there's room again.
    let _g2 = l.try_acquire(ip(10, 0, 0, 1)).unwrap();
}

#[test]
fn per_ip_entry_cleaned_on_release() {
    let mut l = ConnLimits::new(0, 5);
    {
        let g = l.try_acquire(ip(10, 0, 0, 1)).unwrap();
        assert_eq!(l.per_ip(ip(10, 0, 0, 1)), 1);
        l.release(g);
    }
    assert_eq!(l.per_ip(ip(10, 0, 0, 1)), 0);
}

#[test]
fn total_count_correct() {
    let mut l = ConnLimits::new(0, 0);
    let g1 = l.try_acquire(ip(10, 0, 0, 1)).unwrap();
    let g2 = l.try_acquire(ip(10, 0, 0, 2)).unwrap();
    let g3 = l.try_acquire(ip(10, 0, 0, 2)).unwrap();
    assert_eq!(l.total(), 3);
    l.release(g2);
    assert_eq!(l.total(), 2);
    l.release(g1);
    l.release(g3);
    assert_eq!(l.total(), 0);
}

#[test]
fn reached_90pct_threshold() {
    assert!(!reached_90pct(89, 100));
    assert!(reached_90pct(90, 100));
    assert!(reached_90pct(100, 100));
    assert!(!reached_90pct(8, 10));
    assert!(reached_90pct(9, 10));
    // Edge: large numbers don't overflow.
    assert!(reached_90pct(u32::MAX / 10 * 9, u32::MAX / 10 * 10));
}

#[test]
fn total_limit_is_checked_first() {
    let mut l = ConnLimits::new(1, 1);
    let _g = l.try_acquire(ip(10, 0, 0, 1)).unwrap();
    assert_eq!(l.try_acquire(ip(10, 0, 0, 1)).err(), Some(Reject::Total));
}

#[test]
fn a_rejection_takes_no_slot() {
    let mut l = ConnLimits::new(0, 1);
    let _g = l.try_acquire(ip(10, 0, 0, 1)).unwrap();
    assert!(l.try_acquire(ip(10, 0, 0, 1)).is_err());
    assert_eq!(l.total(), 1);
    assert_eq!(l.per_ip(ip(10, 0, 0, 1)), 1);
}

#[test]
fn notices_come_once_at_90_percent() {
    let mut l = ConnLimits::new(10, 0);
    let mut raised = Vec::new();
    let mut guards = Vec::new();
    for i in 0..10 {
        let g = l.try_acquire(ip(10, 0, 0, i)).unwrap();
        assert_eq!(g.src_ip(), ip(10, 0, 0, i));
        assert_eq!(g.per_ip_notice(), None);
        raised.push(g.total_notice());
        guards.push(g);
    }
    let mut expected = vec![None; 10];
    expected[8] = Some(Usage { used: 9, limit: 10 });
    assert_eq!(raised, expected);
    // Not again after the usage fell and rose.
    for _ in 0..5 {
        l.release(guards.pop().unwrap());
    }
    for i in 5..10 {
        assert_eq!(l.try_acquire(ip(10, 0, 0, i)).unwrap().total_notice(), None);
    }
}

#[test]
fn per_ip_notice_comes_once_also_where_the_address_comes_back() {
    let mut l = ConnLimits::new(0, 10);
    let a = ip(10, 0, 0, 1);
    let mut raised = Vec::new();
    for _ in 0..2 {
        let guards: Vec<_> = (0..9).map(|_| l.try_acquire(a).unwrap()).collect();
        raised.extend(guards.iter().map(|g| g.per_ip_notice()));
        assert!(guards.iter().all(|g| g.total_notice().is_none()));
        for g in guards {
            l.release(g);
        }
        assert_eq!(l.per_ip(a), 0);
    }
    let mut expected = vec![None; 18];
    expected[8] = Some(Usage { used: 9, limit: 10 });
    assert_eq!(raised, expected);
    // Another address has a notice of its own.
    let others: Vec<_> = (0..9).map(|_| l.try_acquire(ip(10, 0, 0, 2)).unwrap()).collect();
    assert_eq!(others[8].per_ip_notice(), Some(Usage { used: 9, limit: 10 }));
}

#[test]
fn counter_room_is_known_beforehand() {
    let mut l = ConnLimits::new(1, 0);
    assert_eq!((l.max_total(), l.max_per_ip()), (1, 0));
    assert!(!l.would_reject(ip(10, 0, 0, 1)));
    let _g = l.try_acquire(ip(10, 0, 0, 1)).unwrap();
    assert!(l.would_reject(ip(10, 0, 0, 1)));
    assert!(l.can_acquire(ip(10, 0, 0, 1)));
}

#[test]
fn families_are_counted_apart() {
    let mut l = ConnLimits::new(0, 1);
    let v4 = ip(0, 0, 0, 1);
    let v6 = IpAddr::V6(Ipv6Addr::new(0, 0, 0, 0, 0, 0, 0, 1));
    let _g1 = l.try_acquire(v4).unwrap();
    let _g2 = l.try_acquire(v6).unwrap();
    assert_eq!(l.per_ip(v4), 1);
    assert_eq!(l.per_ip(v6), 1);
    assert_eq!(l.try_acquire(v6).err(), Some(Reject::PerIp));
}
