use snarkos_node::address::{canonical_ip, IpAddr, SocketAddr};
use snarkos_node::banned_peers::{BanDetails, BannedPeers, NANOS_PER_SEC};
use snarkos_node::connections::{Connection, ConnectionSide, Connections};

/// A ban window long enough that nothing expires during a test.
const NEVER_EXPIRES: u64 = u64::MAX;

/// The time at which the bans of a test are imposed.
const NOW: u64 = 100 * NANOS_PER_SEC;

fn ipv4(last_octet: u8) -> IpAddr {
    IpAddr::V4(u32::from_be_bytes([1, 2, 3, last_octet]))
}

fn mapped(last_octet: u8) -> IpAddr {
    IpAddr::V6(0xffff_0000_0000 | u32::from_be_bytes([1, 2, 3, last_octet]) as u128)
}

fn socket(ip: IpAddr, port: u16) -> SocketAddr {
    SocketAddr { ip, port, flowinfo: 0, scope_id: 0 }
}

#[test]
fn an_ip_starts_out_unbanned() {
    let banned_peers = BannedPeers::default();
    assert!(!banned_peers.is_ip_banned(&ipv4(1)));
    assert!(banned_peers.get_ban_config(ipv4(1)).is_none());
    assert!(banned_peers.get_banned_ips().is_empty());
}

#[test]
fn banning_an_ip_is_visible_through_every_accessor() {
    let mut banned_peers = BannedPeers::default();
    banned_peers.update_ip_ban(ipv4(1), NOW);
    assert!(banned_peers.is_ip_banned(&ipv4(1)));
    assert_eq!(banned_peers.get_ban_config(ipv4(1)), Some(BanDetails::new(NOW)));
    assert_eq!(banned_peers.get_banned_ips(), vec![ipv4(1)]);
}

#[test]
fn bans_apply_only_to_the_banned_ip() {
    let mut banned_peers = BannedPeers::default();
    banned_peers.update_ip_ban(ipv4(1), NOW);
    assert!(!banned_peers.is_ip_banned(&ipv4(2)));
    assert!(!banned_peers.is_ip_banned(&IpAddr::V6(1)));
}

#[test]
fn bans_are_keyed_by_the_literal_ip_not_its_canonical_form() {
    let mut banned_peers = BannedPeers::default();
    let native = ipv4(4);
    let mapped = mapped(4);
    banned_peers.update_ip_ban(native, NOW);
    assert!(banned_peers.is_ip_banned(&native));
    assert!(!banned_peers.is_ip_banned(&mapped));
    assert_eq!(banned_peers.get_banned_ips(), vec![native]);
}

#[test]
fn re_banning_an_ip_refreshes_the_ban_rather_than_duplicating_it() {
    let mut banned_peers = BannedPeers::default();
    banned_peers.update_ip_ban(ipv4(1), NOW);
    let first_ban = banned_peers.get_ban_config(ipv4(1)).unwrap().banned_at;
    banned_peers.update_ip_ban(ipv4(1), NOW + 10_000_000);
    let second_ban = banned_peers.get_ban_config(ipv4(1)).unwrap().banned_at;
    assert!(second_ban > first_ban);
    assert_eq!(banned_peers.get_banned_ips().len(), 1);
}

#[test]
fn remove_old_bans_retains_unexpired_bans() {
    let mut banned_peers = BannedPeers::default();
    banned_peers.update_ip_ban(ipv4(1), NOW);
    banned_peers.update_ip_ban(ipv4(2), NOW);
    banned_peers.remove_old_bans(NOW, NEVER_EXPIRES);
    assert!(banned_peers.is_ip_banned(&ipv4(1)));
    assert!(banned_peers.is_ip_banned(&ipv4(2)));
}

#[test]
fn remove_old_bans_evicts_expired_bans() {
    let mut banned_peers = BannedPeers::default();
    banned_peers.update_ip_ban(ipv4(1), NOW);
    banned_peers.update_ip_ban(ipv4(2), NOW);
    // A zero-second window expires every ban immediately.
    banned_peers.remove_old_bans(NOW, 0);
    assert!(!banned_peers.is_ip_banned(&ipv4(1)));
    assert!(!banned_peers.is_ip_banned(&ipv4(2)));
    assert!(banned_peers.get_banned_ips().is_empty());
}

#[test]
fn remove_old_bans_evicts_only_the_expired_entries() {
    let mut banned_peers = BannedPeers::default();
    // An entry banned far enough in the past to fall outside a one-second window...
    banned_peers.update_ip_ban(ipv4(1), NOW - 60 * NANOS_PER_SEC);
    // ...alongside one that was just banned.
    banned_peers.update_ip_ban(ipv4(2), NOW);
    banned_peers.remove_old_bans(NOW, 1);
    assert!(!banned_peers.is_ip_banned(&ipv4(1)));
    assert!(banned_peers.is_ip_banned(&ipv4(2)));
}

#[test]
fn remove_old_bans_is_a_no_op_on_an_empty_list() {
    let mut banned_peers = BannedPeers::default();
    banned_peers.remove_old_bans(NOW, 1);
    assert!(banned_peers.get_banned_ips().is_empty());
}

#[test]
fn a_ban_ends_when_its_window_has_passed_to_the_second() {
    let ban = BanDetails::new(NOW);
    assert_eq!(ban.elapsed_secs(NOW), 0);
    assert_eq!(ban.elapsed_secs(NOW + NANOS_PER_SEC - 1), 0);
    assert_eq!(ban.elapsed_secs(NOW + NANOS_PER_SEC), 1);
    // A clock that has gone back counts as no time.
    assert_eq!(ban.elapsed_secs(NOW - 1), 0);
    let mut banned_peers = BannedPeers::default();
    banned_peers.update_ip_ban(ipv4(1), NOW);
    banned_peers.remove_old_bans(NOW + NANOS_PER_SEC - 1, 1);
    assert!(banned_peers.is_ip_banned(&ipv4(1)));
    banned_peers.remove_old_bans(NOW + NANOS_PER_SEC, 1);
    assert!(!banned_peers.is_ip_banned(&ipv4(1)));
}

#[test]
fn both_spellings_of_a_host_have_one_canonical_form() {
    assert_eq!(ipv4(4).to_canonical(), ipv4(4));
    assert_eq!(mapped(4).to_canonical(), ipv4(4));
    assert_eq!(canonical_ip(socket(mapped(4), 4130)), ipv4(4));
    // The prefix without the marker, and with something before it, is another host.
    assert_eq!(IpAddr::V6(0x0102_0304).to_canonical(), IpAddr::V6(0x0102_0304));
    let other = IpAddr::V6((1u128 << 48) | 0xffff_0102_0304);
    assert_eq!(other.to_canonical(), other);
}

#[test]
fn connections_are_counted_per_host() {
    let mut connections = Connections::<u32>::default();
    connections.add(Connection::new(socket(ipv4(4), 1), ConnectionSide::Initiator, 10));
    connections.add(Connection::new(socket(mapped(4), 2), ConnectionSide::Responder, 20));
    connections.add(Connection::new(socket(ipv4(5), 3), ConnectionSide::Responder, 30));
    assert_eq!(connections.num_connected(), 3);
    assert_eq!(connections.num_with_ip(socket(ipv4(4), 9)), 2);
    assert_eq!(connections.num_with_ip(socket(mapped(4), 9)), 2);
    assert_eq!(connections.num_with_ip(socket(ipv4(6), 9)), 0);
    assert!(connections.is_connected(socket(ipv4(4), 1)));
    assert!(!connections.is_connected(socket(ipv4(4), 2)));
    assert_eq!(connections.stats(socket(ipv4(5), 3)), Some(&30));
    assert_eq!(connections.stats(socket(ipv4(5), 4)), None);
    assert_eq!(connections.addrs().len(), 3);
    let mut snapshot = connections.stats_snapshot();
    snapshot.sort_by_key(|entry| *entry.1);
    assert_eq!(
        snapshot,
        [
            (socket(ipv4(4), 1), &10),
            (socket(mapped(4), 2), &20),
            (socket(ipv4(5), 3), &30),
        ]
    );
    let removed = connections.remove(socket(mapped(4), 2)).unwrap();
    assert_eq!(removed.addr(), socket(mapped(4), 2));
    assert_eq!(removed.side(), ConnectionSide::Responder);
    assert_eq!(removed.stats(), &20);
    assert!(connections.remove(socket(mapped(4), 2)).is_none());
    assert_eq!(connections.num_with_ip(socket(ipv4(4), 9)), 1);
}

#[test]
fn the_sides_of_a_connection_are_opposite() {
    assert_eq!(!ConnectionSide::Initiator, ConnectionSide::Responder);
    assert_eq!(!ConnectionSide::Responder, ConnectionSide::Initiator);
}
