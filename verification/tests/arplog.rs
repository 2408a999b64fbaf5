use arproxy_macfilter_agent::address::{Ipv4Address, MacAddress};
use arproxy_macfilter_agent::repositories::arplog::{
    ArpLog, ArpLogRepository, ArpLogRepositoryForMemory,
};

const SECOND: u64 = 1_000_000_000;

fn sender_x() -> MacAddress {
    MacAddress::new(0x02, 0x00, 0x00, 0x00, 0x00, 0xaa)
}

fn sender_y() -> MacAddress {
    MacAddress::new(0x02, 0x00, 0x00, 0x00, 0x00, 0xbb)
}

fn sorted(mut logs: Vec<ArpLog>) -> Vec<(MacAddress, Ipv4Address, Ipv4Address, u64)> {
    let mut out: Vec<(MacAddress, Ipv4Address, Ipv4Address, u64)> = logs
        .drain(..)
        .map(|l| (l.sender_mac, l.sender_ip, l.target_ip, l.last_seen))
        .collect();
    out.sort();
    out
}

#[test]
fn eviction_scenario() {
    let mut repo = ArpLogRepositoryForMemory::new();
    let x = sender_x();
    let sip = Ipv4Address::new(10, 0, 0, 5);
    repo.put(ArpLog::new(x, sip, Ipv4Address::new(10, 0, 0, 1), 0)).unwrap();
    repo.put(ArpLog::new(x, sip, Ipv4Address::new(10, 0, 0, 2), 0)).unwrap();
    let at_one = repo.getall_autoclear(3 * SECOND, SECOND).unwrap();
    assert_eq!(
        sorted(at_one),
        vec![
            (x, sip, Ipv4Address::new(10, 0, 0, 1), 0),
            (x, sip, Ipv4Address::new(10, 0, 0, 2), 0),
        ]
    );
    let at_four = repo.getall_autoclear(3 * SECOND, 4 * SECOND).unwrap();
    assert_eq!(at_four, Vec::new());
    assert_eq!(repo.getall_without_autoclear().unwrap(), Vec::new());
}

#[test]
fn entry_lives_up_to_and_including_its_last_moment() {
    let t: u64 = 10 * SECOND;
    let d: u64 = 3 * SECOND;
    for now in [0, t, t + 1, t + d - 1, t + d] {
        let mut repo = ArpLogRepositoryForMemory::new();
        let log = ArpLog::new(
            sender_x(),
            Ipv4Address::new(10, 0, 0, 5),
            Ipv4Address::new(10, 0, 0, 1),
            t,
        );
        repo.put(log).unwrap();
        assert_eq!(repo.getall_autoclear(d, now).unwrap(), vec![log]);
        assert_eq!(repo.getall_without_autoclear().unwrap(), vec![log]);
    }
    for now in [t + d + 1, t + d + SECOND, u64::MAX] {
        let mut repo = ArpLogRepositoryForMemory::new();
        let log = ArpLog::new(
            sender_x(),
            Ipv4Address::new(10, 0, 0, 5),
            Ipv4Address::new(10, 0, 0, 1),
            t,
        );
        repo.put(log).unwrap();
        assert_eq!(repo.getall_autoclear(d, now).unwrap(), Vec::new());
        assert_eq!(repo.getall_without_autoclear().unwrap(), Vec::new());
    }
}

#[test]
fn earlier_evictions_take_nothing_from_later_ones() {
    let d: u64 = 3 * SECOND;
    let x = sender_x();
    let sip = Ipv4Address::new(10, 0, 0, 5);
    let old = ArpLog::new(x, sip, Ipv4Address::new(10, 0, 0, 1), 0);
    let new = ArpLog::new(x, sip, Ipv4Address::new(10, 0, 0, 2), 2 * SECOND);

    let mut stepwise = ArpLogRepositoryForMemory::new();
    stepwise.put(old).unwrap();
    stepwise.put(new).unwrap();
    assert_eq!(sorted(stepwise.getall_autoclear(d, 3 * SECOND).unwrap()).len(), 2);
    let late = stepwise.getall_autoclear(d, 4 * SECOND).unwrap();

    let mut direct = ArpLogRepositoryForMemory::new();
    direct.put(old).unwrap();
    direct.put(new).unwrap();
    assert_eq!(direct.getall_autoclear(d, 4 * SECOND).unwrap(), late);
    assert_eq!(late, vec![new]);
}

#[test]
fn repeated_put_only_moves_the_time() {
    let mut repo = ArpLogRepositoryForMemory::new();
    let x = sender_x();
    let sip = Ipv4Address::new(10, 0, 0, 5);
    let tip = Ipv4Address::new(10, 0, 0, 1);
    repo.put(ArpLog::new(x, sip, tip, 1)).unwrap();
    repo.put(ArpLog::new(x, sip, tip, 2)).unwrap();
    repo.put(ArpLog::new(x, sip, tip, 7)).unwrap();
    assert_eq!(
        repo.getall_without_autoclear().unwrap(),
        vec![ArpLog::new(x, sip, tip, 7)]
    );
    assert_eq!(
        repo.getall_autoclear(10, 8).unwrap(),
        vec![ArpLog::new(x, sip, tip, 7)]
    );
}

#[test]
fn first_protocol_address_of_a_sender_wins() {
    let mut repo = ArpLogRepositoryForMemory::new();
    let x = sender_x();
    let first = Ipv4Address::new(10, 0, 0, 5);
    let second = Ipv4Address::new(10, 0, 0, 6);
    repo.put(ArpLog::new(x, first, Ipv4Address::new(10, 0, 0, 1), 1)).unwrap();
    repo.put(ArpLog::new(x, second, Ipv4Address::new(10, 0, 0, 2), 2)).unwrap();
    assert_eq!(
        sorted(repo.getall_without_autoclear().unwrap()),
        vec![
            (x, first, Ipv4Address::new(10, 0, 0, 1), 1),
            (x, first, Ipv4Address::new(10, 0, 0, 2), 2),
        ]
    );
}

#[test]
fn expired_targets_go_while_their_sender_stays() {
    let mut repo = ArpLogRepositoryForMemory::new();
    let x = sender_x();
    let y = sender_y();
    let sip = Ipv4Address::new(10, 0, 0, 5);
    repo.put(ArpLog::new(x, sip, Ipv4Address::new(10, 0, 0, 1), 0)).unwrap();
    repo.put(ArpLog::new(x, sip, Ipv4Address::new(10, 0, 0, 2), 5)).unwrap();
    repo.put(ArpLog::new(y, Ipv4Address::new(10, 0, 0, 9), Ipv4Address::new(10, 0, 0, 1), 1))
        .unwrap();
    let live = repo.getall_autoclear(3, 6).unwrap();
    assert_eq!(live, vec![ArpLog::new(x, sip, Ipv4Address::new(10, 0, 0, 2), 5)]);
    assert_eq!(repo.getall_without_autoclear().unwrap(), live);
    // the sender record of x is still the old one: its protocol address stays
    repo.put(ArpLog::new(x, Ipv4Address::new(10, 0, 0, 77), Ipv4Address::new(10, 0, 0, 3), 6))
        .unwrap();
    // the record of y is gone: a new query makes a new record
    repo.put(ArpLog::new(y, Ipv4Address::new(10, 0, 0, 99), Ipv4Address::new(10, 0, 0, 1), 6))
        .unwrap();
    assert_eq!(
        sorted(repo.getall_without_autoclear().unwrap()),
        vec![
            (x, sip, Ipv4Address::new(10, 0, 0, 2), 5),
            (x, sip, Ipv4Address::new(10, 0, 0, 3), 6),
            (y, Ipv4Address::new(10, 0, 0, 99), Ipv4Address::new(10, 0, 0, 1), 6),
        ]
    );
}

#[test]
fn sender_seen_too_long_ago_goes_with_all_its_targets() {
    let mut repo = ArpLogRepositoryForMemory::new();
    let x = sender_x();
    let sip = Ipv4Address::new(10, 0, 0, 5);
    // the later query carries the earlier time: the sender's own time is 1
    repo.put(ArpLog::new(x, sip, Ipv4Address::new(10, 0, 0, 1), 9)).unwrap();
    repo.put(ArpLog::new(x, sip, Ipv4Address::new(10, 0, 0, 2), 1)).unwrap();
    assert_eq!(repo.getall_autoclear(3, 10).unwrap(), Vec::new());
    assert_eq!(repo.getall_without_autoclear().unwrap(), Vec::new());
}

#[test]
fn a_clock_that_went_back_expires_nothing() {
    let mut repo = ArpLogRepositoryForMemory::new();
    let log = ArpLog::new(
        sender_x(),
        Ipv4Address::new(10, 0, 0, 5),
        Ipv4Address::new(10, 0, 0, 1),
        100,
    );
    repo.put(log).unwrap();
    assert_eq!(repo.getall_autoclear(0, 50).unwrap(), vec![log]);
    assert_eq!(repo.getall_autoclear(0, 100).unwrap(), vec![log]);
    assert_eq!(repo.getall_autoclear(0, 101).unwrap(), Vec::new());
}

#[test]
fn listing_does_not_evict() {
    let mut repo = ArpLogRepositoryForMemory::new();
    let log = ArpLog::new(
        sender_x(),
        Ipv4Address::new(10, 0, 0, 5),
        Ipv4Address::new(10, 0, 0, 1),
        0,
    );
    repo.put(log).unwrap();
    assert_eq!(repo.getall_without_autoclear().unwrap(), vec![log]);
    assert_eq!(repo.getall_without_autoclear().unwrap(), vec![log]);
    assert_eq!(repo.getall_autoclear(1, 1).unwrap(), vec![log]);
}

#[test]
fn clear_drops_everything() {
    let mut repo = ArpLogRepositoryForMemory::new();
    repo.put(ArpLog::new(sender_x(), Ipv4Address::new(10, 0, 0, 5), Ipv4Address::new(10, 0, 0, 1), 0))
        .unwrap();
    repo.put(ArpLog::new(sender_y(), Ipv4Address::new(10, 0, 0, 6), Ipv4Address::new(10, 0, 0, 1), 0))
        .unwrap();
    assert_eq!(repo.clear(), Ok(()));
    assert_eq!(repo.getall_without_autoclear().unwrap(), Vec::new());
    assert_eq!(repo.clear(), Ok(()));
}

#[test]
fn many_senders_and_targets_are_listed_once_each() {
    let mut repo = ArpLogRepositoryForMemory::new();
    let mut want = Vec::new();
    for s in 0..20u8 {
        for t in 0..10u8 {
            let log = ArpLog::new(
                MacAddress::new(2, 0, 0, 0, s, 0xff - s),
                Ipv4Address::new(10, 0, s, 1),
                Ipv4Address::new(192, 168, t, 255 - t),
                u64::from(s) * 100 + u64::from(t),
            );
            repo.put(log).unwrap();
            want.push((log.sender_mac, log.sender_ip, log.target_ip, log.last_seen));
        }
    }
    want.sort();
    assert_eq!(sorted(repo.getall_without_autoclear().unwrap()), want);
    // at time 1000 with ttl 500: senders seen at or after 500 stay (s >= 5),
    // with the targets seen at or after 500
    let live = sorted(repo.getall_autoclear(500, 1000).unwrap());
    let want_live: Vec<_> = want.iter().copied().filter(|e| e.3 >= 500).collect();
    assert_eq!(live, want_live);
    assert_eq!(sorted(repo.getall_without_autoclear().unwrap()), want_live);
}

#[test]
fn ip_keys_round_trip() {
    let a = Ipv4Address::new(192, 168, 1, 254);
    assert_eq!(a.to_key(), 0xc0a8_01fe);
    assert_eq!(Ipv4Address::from_key(0xc0a8_01fe), a);
    assert_eq!(Ipv4Address::from_key(u32::MAX), Ipv4Address::new(255, 255, 255, 255));
    assert_eq!(a.octets(), [192, 168, 1, 254]);
    assert!(Ipv4Address::new(127, 0, 0, 1).is_loopback());
    assert!(Ipv4Address::new(127, 255, 255, 255).is_loopback());
    assert!(!Ipv4Address::new(128, 0, 0, 1).is_loopback());
    assert!(!Ipv4Address::new(0, 0, 0, 0).is_loopback());
}
