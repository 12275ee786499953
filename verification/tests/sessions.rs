use udp_forwarder::address::{IpAddress, SocketAddress};
use udp_forwarder::session::{Session, SessionTable};

fn table_peer(last: u8, port: u16) -> SocketAddress {
    SocketAddress::new(IpAddress::from_octets(10, 0, 0, last), port)
}

#[test]
fn new_table_is_empty() {
    let table = SessionTable::new();
    assert_eq!(table.len(), 0);
    assert!(!table.contains(table_peer(1, 4000)));
    assert_eq!(table.last_seen(table_peer(1, 4000)), None);
}

#[test]
fn touch_creates_a_session() {
    let mut table = SessionTable::new();
    table.touch(table_peer(1, 4000), 17);
    assert_eq!(table.len(), 1);
    assert!(table.contains(table_peer(1, 4000)));
    assert_eq!(table.last_seen(table_peer(1, 4000)), Some(17));
}

#[test]
fn touch_twice_keeps_one_session() {
    let mut table = SessionTable::new();
    table.touch(table_peer(1, 4000), 17);
    table.touch(table_peer(1, 4000), 17);
    assert_eq!(table.len(), 1);
    assert_eq!(table.last_seen(table_peer(1, 4000)), Some(17));
    table.touch(table_peer(1, 4000), 30);
    assert_eq!(table.len(), 1);
    assert_eq!(table.last_seen(table_peer(1, 4000)), Some(30));
}

#[test]
fn touch_takes_the_last_time_written() {
    let mut table = SessionTable::new();
    table.touch(table_peer(1, 4000), 50);
    table.touch(table_peer(1, 4000), 20);
    assert_eq!(table.last_seen(table_peer(1, 4000)), Some(20));
}

#[test]
fn touch_leaves_other_sessions_alone() {
    let mut table = SessionTable::new();
    table.touch(table_peer(1, 4000), 1);
    table.touch(table_peer(2, 4000), 2);
    table.touch(table_peer(3, 4000), 3);
    table.touch(table_peer(2, 4000), 9);
    assert_eq!(table.len(), 3);
    assert_eq!(table.last_seen(table_peer(1, 4000)), Some(1));
    assert_eq!(table.last_seen(table_peer(2, 4000)), Some(9));
    assert_eq!(table.last_seen(table_peer(3, 4000)), Some(3));
}

#[test]
fn lookup_matches_the_exact_address_only() {
    let mut table = SessionTable::new();
    table.touch(table_peer(1, 4000), 5);
    assert!(table.contains(table_peer(1, 4000)));
    assert!(!table.contains(table_peer(1, 4001)));
    assert!(!table.contains(table_peer(2, 4000)));
    assert!(!table.contains(SocketAddress::new(IpAddress::V6(0x0a00_0001), 4000)));
    assert_eq!(table.last_seen(table_peer(1, 4001)), None);
}

#[test]
fn evict_idle_on_an_empty_table_removes_nothing() {
    let mut table = SessionTable::new();
    assert_eq!(table.evict_idle(1_000, 10), 0);
    assert_eq!(table.len(), 0);
}

#[test]
fn evict_idle_removes_only_what_is_older() {
    let mut table = SessionTable::new();
    table.touch(table_peer(1, 4000), 100);
    table.touch(table_peer(2, 4000), 189);
    table.touch(table_peer(3, 4000), 190);
    table.touch(table_peer(4, 4000), 191);
    table.touch(table_peer(5, 4000), 0);
    // At 200 with a duration of 10, a session seen at 190 is 10 old: it stays.
    assert_eq!(table.evict_idle(200, 10), 3);
    assert_eq!(table.len(), 2);
    assert!(!table.contains(table_peer(1, 4000)));
    assert!(!table.contains(table_peer(2, 4000)));
    assert_eq!(table.last_seen(table_peer(3, 4000)), Some(190));
    assert_eq!(table.last_seen(table_peer(4, 4000)), Some(191));
    assert!(!table.contains(table_peer(5, 4000)));
}

#[test]
fn evict_idle_twice_removes_nothing_more() {
    let mut table = SessionTable::new();
    table.touch(table_peer(1, 4000), 100);
    table.touch(table_peer(2, 4000), 195);
    assert_eq!(table.evict_idle(200, 10), 1);
    assert_eq!(table.evict_idle(200, 10), 0);
    assert_eq!(table.len(), 1);
}

#[test]
fn evict_idle_keeps_a_session_seen_after_now() {
    let mut table = SessionTable::new();
    table.touch(table_peer(1, 4000), 500);
    assert_eq!(table.evict_idle(200, 0), 0);
    assert_eq!(table.last_seen(table_peer(1, 4000)), Some(500));
}

#[test]
fn evict_idle_with_no_patience_keeps_what_was_seen_now() {
    let mut table = SessionTable::new();
    table.touch(table_peer(1, 4000), 200);
    table.touch(table_peer(2, 4000), 199);
    assert_eq!(table.evict_idle(200, 0), 1);
    assert!(table.contains(table_peer(1, 4000)));
    assert!(!table.contains(table_peer(2, 4000)));
}

#[test]
fn evict_idle_at_the_ends_of_the_clock() {
    let mut table = SessionTable::new();
    table.touch(table_peer(1, 4000), 0);
    table.touch(table_peer(2, 4000), u64::MAX);
    assert_eq!(table.evict_idle(u64::MAX, u64::MAX), 0);
    assert_eq!(table.evict_idle(u64::MAX, u64::MAX - 1), 1);
    assert!(!table.contains(table_peer(1, 4000)));
    assert!(table.contains(table_peer(2, 4000)));
}

#[test]
fn evict_idle_can_remove_everything() {
    let mut table = SessionTable::new();
    let mut last: u8 = 0;
    while last < 50 {
        table.touch(table_peer(last, 4000), last as u64);
        last += 1;
    }
    assert_eq!(table.len(), 50);
    assert_eq!(table.evict_idle(1_000, 10), 50);
    assert_eq!(table.len(), 0);
}

#[test]
fn a_peer_can_come_back_after_eviction() {
    let mut table = SessionTable::new();
    table.touch(table_peer(1, 4000), 0);
    assert_eq!(table.evict_idle(100, 10), 1);
    table.touch(table_peer(1, 4000), 101);
    assert_eq!(table.len(), 1);
    assert_eq!(table.last_seen(table_peer(1, 4000)), Some(101));
}

#[test]
fn session_is_a_plain_value() {
    let session = Session { peer_address: table_peer(1, 4000), last_seen: 8 };
    let copy = session;
    assert_eq!(copy, session);
    assert_eq!(copy.peer_address, table_peer(1, 4000));
    assert_eq!(copy.last_seen, 8);
}
