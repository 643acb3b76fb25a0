//! The addresses of peers.
use crate::keyed_list::Key;
use vstd::prelude::*;

verus! {

/// An IP address, as the number that its bytes stand for in network order.
#[derive(Clone, Copy, Debug, PartialEq, Eq, Structural)]
pub enum IpAddr {
    V4(u32),
    V6(u128),
}

/// A socket address. The flow information and the scope are those of an IPv6 address, and zero for
/// an IPv4 address.
#[derive(Clone, Copy, Debug, PartialEq, Eq, Structural)]
pub struct SocketAddr {
    pub ip: IpAddr,
    pub port: u16,
    pub flowinfo: u32,
    pub scope_id: u32,
}

impl Key for IpAddr {
    fn same(&self, other: &Self) -> (result: bool) {
        *self == *other
    }
}

impl Key for SocketAddr {
    fn same(&self, other: &Self) -> (result: bool) {
        *self == *other
    }
}

/// The IPv6 address that an IPv4 address is mapped to, `::ffff:a.b.c.d`.
pub open spec fn ipv4_mapped(ip: u32) -> int {
    0xffff * 0x1_0000_0000 + ip
}

/// The IP address in its native form: an IPv6 address that an IPv4 address is mapped to stands for
/// that IPv4 address.
pub open spec fn canonical(ip: IpAddr) -> IpAddr {
    match ip {
        IpAddr::V4(_) => ip,
        IpAddr::V6(bits) => if bits / 0x1_0000_0000 == 0xffff {
            IpAddr::V4((bits % 0x1_0000_0000) as u32)
        } else {
            ip
        },
    }
}

impl IpAddr {
    /// Returns the IP address in its native form.
    pub fn to_canonical(&self) -> (ip: IpAddr)
        ensures
            ip == canonical(*self),
    {
        match *self {
            IpAddr::V4(bits) => IpAddr::V4(bits),
            IpAddr::V6(bits) => {
                if bits / 0x1_0000_0000 == 0xffff {
                    IpAddr::V4((bits % 0x1_0000_0000) as u32)
                } else {
                    IpAddr::V6(bits)
                }
            },
        }
    }
}

/// The IP address a connection is charged to, for the purposes of per-IP limits.
///
/// Canonicalizing is what keeps the two spellings of an IPv4 host - the native form and the
/// IPv4-mapped IPv6 form a dual-stack listener reports - in a single bucket.
pub fn canonical_ip(addr: SocketAddr) -> (ip: IpAddr)
    ensures
        ip == canonical(addr.ip),
{
    addr.ip.to_canonical()
}

/// The two spellings of an IPv4 host are charged to the same IP address.
pub proof fn spellings_of_an_ipv4_host_share_a_bucket(ip: u32, mapped: u128)
    requires
        mapped == ipv4_mapped(ip),
    ensures
        canonical(IpAddr::V6(mapped)) == canonical(IpAddr::V4(ip)),
{
}

/// Two IP addresses are charged to the same IP address only if they are the same, or the two
/// spellings of one IPv4 host.
pub proof fn only_the_spellings_of_a_host_share_a_bucket(left: IpAddr, right: IpAddr)
    requires
        canonical(left) == canonical(right),
    ensures
        left == right || exists|ip: u32|
            {
                &&& canonical(left) == IpAddr::V4(ip)
                &&& left == IpAddr::V4(ip) || left == IpAddr::V6(#[trigger] ipv4_mapped(ip) as u128)
                &&& right == IpAddr::V4(ip) || right == IpAddr::V6(ipv4_mapped(ip) as u128)
            },
{
    if left != right {
        let ip = canonical(left)->V4_0;
        assert(ipv4_mapped(ip) == 0xffff * 0x1_0000_0000 + ip);
    }
}

/// The native form of an address is its own native form.
pub proof fn canonical_is_idempotent(ip: IpAddr)
    ensures
        canonical(canonical(ip)) == canonical(ip),
{
}

/// An IPv4 address is its own native form; an IPv6 address is too, unless it is one of those that IPv4
/// addresses are mapped to, which stands for the IPv4 address in its low four bytes.
pub proof fn only_a_mapped_address_has_another_native_form(ip: u32, bits: u128)
    ensures
        canonical(IpAddr::V4(ip)) == IpAddr::V4(ip),
        canonical(IpAddr::V6(bits)) == IpAddr::V4(ip) <==> bits == 0xffff_0000_0000 + ip,
        bits < 0xffff_0000_0000 || bits > 0xffff_ffff_ffff ==> canonical(IpAddr::V6(bits))
            == IpAddr::V6(bits),
{
}

} // verus!
