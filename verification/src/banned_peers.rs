//! The peers that are banned by IP.
use crate::address::IpAddr;
use crate::keyed_list::KeyedList;
use crate::sequences::lemma_push_contains;
use vstd::prelude::*;

verus! {

/// The number of nanoseconds in a second.
pub const NANOS_PER_SEC: u64 = 1_000_000_000;

/// Contains the ban details for a banned peer.
#[derive(Clone, Copy, Debug, PartialEq, Eq, Structural)]
pub struct BanDetails {
    /// The time when the ban was created, in nanoseconds of a monotonic clock.
    pub banned_at: u64,
}

impl BanDetails {
    /// Creates a new ban at the given time.
    pub fn new(now: u64) -> (ban: Self)
        ensures
            ban.banned_at == now,
    {
        BanDetails { banned_at: now }
    }

    /// The whole seconds that have passed since the ban was created, none if it lies ahead.
    pub open spec fn age_in_secs(self, now: u64) -> int {
        if now >= self.banned_at {
            (now - self.banned_at) / NANOS_PER_SEC as int
        } else {
            0
        }
    }

    /// Returns the whole seconds that have passed since the ban was created.
    pub fn elapsed_secs(&self, now: u64) -> (secs: u64)
        ensures
            secs == self.age_in_secs(now),
    {
        now.saturating_sub(self.banned_at) / NANOS_PER_SEC
    }
}

/// The bans that are younger than the given number of seconds.
pub open spec fn unexpired(
    bans: Map<IpAddr, BanDetails>,
    now: u64,
    ban_time_in_secs: u64,
) -> Map<IpAddr, BanDetails> {
    Map::new(
        |ip: IpAddr| bans.contains_key(ip) && bans[ip].age_in_secs(now) < ban_time_in_secs,
        |ip: IpAddr| bans[ip],
    )
}

/// Contains the set of peers currently banned by IP.
#[derive(Debug)]
pub struct BannedPeers {
    bans: KeyedList<IpAddr, BanDetails>,
}

impl View for BannedPeers {
    type V = Map<IpAddr, BanDetails>;

    closed spec fn view(&self) -> Map<IpAddr, BanDetails> {
        self.bans@
    }
}

impl Default for BannedPeers {
    fn default() -> (peers: Self)
        ensures
            peers.wf(),
            peers@ == Map::<IpAddr, BanDetails>::empty(),
    {
        BannedPeers { bans: KeyedList::new() }
    }
}

impl BannedPeers {
    /// No IP address is banned twice.
    pub closed spec fn wf(&self) -> bool {
        self.bans.wf()
    }

    /// Check whether the given IP address is currently banned.
    pub fn is_ip_banned(&self, ip: &IpAddr) -> (banned: bool)
        requires
            self.wf(),
        ensures
            banned == self@.contains_key(*ip),
    {
        self.bans.contains_key(ip)
    }

    /// Get all banned IPs.
    pub fn get_banned_ips(&self) -> (ips: Vec<IpAddr>)
        requires
            self.wf(),
        ensures
            ips@.no_duplicates(),
            ips@.to_set() == self@.dom(),
    {
        self.bans.keys()
    }

    /// Get ban config for the given IP address.
    pub fn get_ban_config(&self, ip: IpAddr) -> (ban: Option<BanDetails>)
        requires
            self.wf(),
        ensures
            ban == (if self@.contains_key(ip) {
                Some(self@[ip])
            } else {
                None
            }),
    {
        match self.bans.get(&ip) {
            Some(ban) => Some(*ban),
            None => None,
        }
    }

    /// Insert or update a banned IP.
    pub fn update_ip_ban(&mut self, ip: IpAddr, now: u64)
        requires
            old(self).wf(),
        ensures
            final(self).wf(),
            final(self)@ == old(self)@.insert(ip, BanDetails { banned_at: now }),
    {
        let _ = self.bans.insert(ip, BanDetails::new(now));
    }

    /// Remove the expired entries
    pub fn remove_old_bans(&mut self, now: u64, ban_time_in_secs: u64)
        requires
            old(self).wf(),
        ensures
            final(self).wf(),
            final(self)@ == unexpired(old(self)@, now, ban_time_in_secs),
    {
        let ghost before = self@;
        let ips: Vec<IpAddr> = self.bans.keys();
        for i in 0..ips.len()
            invariant
                self.wf(),
                ips@.no_duplicates(),
                ips@.to_set() == before.dom(),
                forall|ip: IpAddr| #[trigger]
                    self@.contains_key(ip) <==> before.contains_key(ip) && (ips@.take(
                        i as int,
                    ).contains(ip) ==> before[ip].age_in_secs(now) < ban_time_in_secs),
                forall|ip: IpAddr| #[trigger] self@.contains_key(ip) ==> self@[ip] == before[ip],
        {
            let ip: IpAddr = ips[i];
            let ghost done = ips@.take(i as int);
            assert(ips@.take(i + 1) =~= done.push(ip));
            proof {
                lemma_push_contains(done, ip);
                assert(ips@.to_set().contains(ip));
                assert(!done.contains(ip));
                assert(self@.contains_key(ip));
            }
            let expired: bool = match self.bans.get(&ip) {
                Some(ban) => ban.elapsed_secs(now) >= ban_time_in_secs,
                None => false,
            };
            if expired {
                let _ = self.bans.remove(&ip);
            }
        }
        assert(self@ =~= unexpired(before, now, ban_time_in_secs)) by {
            assert(ips@.take(ips.len() as int) =~= ips@);
            assert forall|ip: IpAddr| before.contains_key(ip) implies ips@.contains(ip) by {
                assert(ips@.to_set().contains(ip));
            }
        }
    }
}

/// A ban applies to the banned IP address, as it is spelled, and to no other.
pub proof fn a_ban_applies_only_to_the_banned_ip(
    bans: Map<IpAddr, BanDetails>,
    banned: IpAddr,
    other: IpAddr,
    now: u64,
)
    requires
        banned != other,
    ensures
        bans.insert(banned, BanDetails { banned_at: now }).contains_key(banned),
        bans.insert(banned, BanDetails { banned_at: now }).contains_key(other)
            == bans.contains_key(other),
{
}

/// Banning an IP address again restarts its clock, and adds no second entry.
pub proof fn banning_again_refreshes_the_ban(
    bans: Map<IpAddr, BanDetails>,
    ip: IpAddr,
    first: u64,
    second: u64,
)
    ensures
        bans.insert(ip, BanDetails { banned_at: first }).insert(
            ip,
            BanDetails { banned_at: second },
        ) == bans.insert(ip, BanDetails { banned_at: second }),
{
    assert(bans.insert(ip, BanDetails { banned_at: first }).insert(
        ip,
        BanDetails { banned_at: second },
    ) =~= bans.insert(ip, BanDetails { banned_at: second }));
}

/// A window of no seconds expires every ban, and one that is longer than every ban is old expires
/// none.
pub proof fn the_window_decides_which_bans_expire(
    bans: Map<IpAddr, BanDetails>,
    now: u64,
    ban_time_in_secs: u64,
)
    ensures
        unexpired(bans, now, 0) == Map::<IpAddr, BanDetails>::empty(),
        (forall|ip: IpAddr| #[trigger]
            bans.contains_key(ip) ==> bans[ip].age_in_secs(now) < ban_time_in_secs) ==> unexpired(
            bans,
            now,
            ban_time_in_secs,
        ) == bans,
{
    assert(unexpired(bans, now, 0) =~= Map::<IpAddr, BanDetails>::empty());
    if forall|ip: IpAddr| #[trigger]
        bans.contains_key(ip) ==> bans[ip].age_in_secs(now) < ban_time_in_secs {
        assert(unexpired(bans, now, ban_time_in_secs) =~= bans);
    }
}

/// A ban is kept exactly as long as its window has not passed, to the second: as long as less time
/// than the window has gone by since it was created, in nanoseconds, and not for a window of none.
/// What is kept is kept as it is.
pub proof fn a_ban_is_kept_until_its_window_has_passed(
    bans: Map<IpAddr, BanDetails>,
    now: u64,
    ban_time_in_secs: u64,
    ip: IpAddr,
)
    ensures
        unexpired(bans, now, ban_time_in_secs).contains_key(ip) <==> {
            &&& bans.contains_key(ip)
            &&& ban_time_in_secs > 0
            &&& now - bans[ip].banned_at < ban_time_in_secs * 1_000_000_000
        },
        unexpired(bans, now, ban_time_in_secs).contains_key(ip) ==> unexpired(
            bans,
            now,
            ban_time_in_secs,
        )[ip] == bans[ip],
        NANOS_PER_SEC == 1_000_000_000,
{
}

/// A ban that has expired stays so: it is not kept at a later time, nor with a shorter window.
pub proof fn an_expired_ban_stays_expired(
    bans: Map<IpAddr, BanDetails>,
    now: u64,
    later: u64,
    ban_time_in_secs: u64,
    shorter: u64,
    ip: IpAddr,
)
    requires
        now <= later,
        shorter <= ban_time_in_secs,
        !unexpired(bans, now, ban_time_in_secs).contains_key(ip),
    ensures
        !unexpired(bans, later, shorter).contains_key(ip),
{
    a_ban_is_kept_until_its_window_has_passed(bans, now, ban_time_in_secs, ip);
    a_ban_is_kept_until_its_window_has_passed(bans, later, shorter, ip);
}

} // verus!
