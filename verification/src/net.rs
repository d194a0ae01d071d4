//! Socket addresses as plain numbers.
use vstd::prelude::*;

verus! {

/// An IPv4 address with a port.
#[derive(Clone, Copy, Debug, PartialEq, Eq, Structural)]
pub struct SocketAddrV4 {
    pub ip: u32,
    pub port: u16,
}

/// An IPv6 address with a port.
#[derive(Clone, Copy, Debug, PartialEq, Eq, Structural)]
pub struct SocketAddrV6 {
    pub ip: u128,
    pub port: u16,
    pub flowinfo: u32,
    pub scope_id: u32,
}

/// A socket address; an IP address is the number that its octets spell, the first octet the most
/// significant one.
#[derive(Clone, Copy, Debug, PartialEq, Eq, Structural)]
pub enum SocketAddr {
    V4(SocketAddrV4),
    V6(SocketAddrV6),
}

/// The first of the IPv6 addresses that stand for IPv4 addresses, `::ffff:0.0.0.0`.
pub const IPV4_MAPPED_BASE: u128 = 0xffff_0000_0000;

/// The IPv6 address `::ffff:a.b.c.d` of the IPv4 address `a.b.c.d`.
pub open spec fn ipv6_mapped(ip: u32) -> u128 {
    (IPV4_MAPPED_BASE + ip) as u128
}

/// The uniform IPv6 form of a socket address.
pub open spec fn uniform(address: SocketAddr) -> SocketAddr {
    match address {
        SocketAddr::V4(v4) => SocketAddr::V6(
            SocketAddrV6 { ip: ipv6_mapped(v4.ip), port: v4.port, flowinfo: 0, scope_id: 0 },
        ),
        SocketAddr::V6(_) => address,
    }
}

/// The uniform IPv6 form of a socket address.
pub fn to_uniform(address: SocketAddr) -> (r: SocketAddr)
    ensures
        r == uniform(address),
        address matches SocketAddr::V4(v4) ==> r == SocketAddr::V6(
            (SocketAddrV6 {
                ip: (0xffff * 0x1_0000_0000 + v4.ip) as u128,
                port: v4.port,
                flowinfo: 0,
                scope_id: 0,
            }),
        ),
        address is V6 ==> r == address,
{
    match address {
        SocketAddr::V4(v4) => SocketAddr::V6(
            SocketAddrV6 {
                ip: IPV4_MAPPED_BASE + v4.ip as u128,
                port: v4.port,
                flowinfo: 0,
                scope_id: 0,
            },
        ),
        SocketAddr::V6(_) => address,
    }
}

/// The uniform form is an IPv6 address, keeps the port, does not change when it is taken again,
/// and tells two IPv4 addresses apart.
pub proof fn law_uniform_form(a: SocketAddr, b: SocketAddr)
    ensures
        uniform(a) is V6,
        uniform(uniform(a)) == uniform(a),
        a matches SocketAddr::V4(v4) ==> uniform(a)->V6_0.port == v4.port,
        a is V4 && b is V4 && uniform(a) == uniform(b) ==> a == b,
{
}

/// The uniform form of an IPv4 address `a.b.c.d` is the IPv6 address `::ffff:a.b.c.d`: the low 32
/// bits of its number are the IPv4 address, the next 16 bits are ones and the upper 80 bits are
/// zeros. The port stays, and nothing else is set.
pub proof fn law_ipv4_is_mapped(v4: SocketAddrV4)
    ensures
        ({
            let v6 = uniform(SocketAddr::V4(v4))->V6_0;
            &&& v6.ip == 0xffff * 0x1_0000_0000 + v4.ip
            &&& v6.ip & 0xffff_ffff == v4.ip
            &&& (v6.ip >> 32) & 0xffff == 0xffff
            &&& v6.ip >> 48 == 0
            &&& v6.port == v4.port
            &&& v6.flowinfo == 0
            &&& v6.scope_id == 0
        }),
{
    let ip = v4.ip;
    let mapped = uniform(SocketAddr::V4(v4))->V6_0.ip;
    assert(mapped == 0xffff_0000_0000 + ip);
    assert(mapped & 0xffff_ffff == ip && (mapped >> 32) & 0xffff == 0xffff && mapped >> 48 == 0)
        by (bit_vector)
        requires
            mapped == 0xffff_0000_0000u128 + ip,
    ;
}

/// An IPv6 address is in uniform form already.
pub proof fn law_ipv6_stays(v6: SocketAddrV6)
    ensures
        uniform(SocketAddr::V6(v6)) == SocketAddr::V6(v6),
{
}

} // verus!
