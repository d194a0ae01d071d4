//! From the common name of a peer to its addresses.
use crate::net::{to_uniform, uniform, SocketAddr};
use crate::text::{decimal, digits_text};
pub use dns_lookup::LookupErrorKind as DnsLookupError;
use vstd::prelude::*;

verus! {

/// The kinds of errors of a name lookup.
#[verifier::external_type_specification]
#[verifier::external_body]
pub struct ExLookupErrorKind(dns_lookup::LookupErrorKind);

/// What a lookup is restricted to; zero stands for no restriction.
#[derive(Clone, Copy, Debug, PartialEq, Eq, Structural)]
pub struct AddrInfoHints {
    pub socktype: i32,
    pub protocol: i32,
    pub address: i32,
    pub flags: i32,
}

/// One finding of a lookup.
#[derive(Clone, Copy, Debug, PartialEq, Eq, Structural)]
pub struct AddrInfo {
    /// The number of the address family.
    pub address: i32,
    pub sockaddr: SocketAddr,
}

/// Calls `i32::from` of the `dns_lookup` crate on `SockType::Stream`. Nothing is claimed of the
/// result: the number is the one of the operating system.
#[verifier::external_body]
fn stream_socktype() -> i32 {
    i32::from(dns_lookup::SockType::Stream)
}

/// Whether a number is one that the operating system gives stream sockets: one that
/// `stream_socktype` can return.
pub closed spec fn is_stream_socktype(number: i32) -> bool {
    call_ensures(stream_socktype, (), number)
}

/// Calls `i32::from` of the `dns_lookup` crate on `AddrFamily::Inet`. Nothing is claimed of the
/// result: the number is the one of the operating system.
#[verifier::external_body]
fn inet_family() -> i32 {
    i32::from(dns_lookup::AddrFamily::Inet)
}

/// Calls `i32::from` of the `dns_lookup` crate on `AddrFamily::Inet6`. Nothing is claimed of the
/// result: the number is the one of the operating system.
#[verifier::external_body]
fn inet6_family() -> i32 {
    i32::from(dns_lookup::AddrFamily::Inet6)
}

/// Whether two numbers are those that the operating system gives the two internet address families:
/// ones that `inet_family` and `inet6_family` can return.
pub closed spec fn are_internet_families(inet: i32, inet6: i32) -> bool {
    call_ensures(inet_family, (), inet) && call_ensures(inet6_family, (), inet6)
}

/// Of the numbers of the two families the first is one that is told for IPv4 and the second one
/// that is told for IPv6; a number of stream sockets is one that is told for them.
proof fn law_families_are_ipv4_and_ipv6(inet: i32, inet6: i32, stream: i32)
    ensures
        are_internet_families(inet, inet6) <==> call_ensures(inet_family, (), inet)
            && call_ensures(inet6_family, (), inet6),
        is_stream_socktype(stream) <==> call_ensures(stream_socktype, (), stream),
{
}

/// The uniform addresses of those findings that were read and belong to one of the two internet
/// address families, in the order of the findings.
pub open spec fn internet_addresses(found: Seq<Option<AddrInfo>>, inet: i32, inet6: i32) -> Seq<
    SocketAddr,
>
    decreases found.len(),
{
    if found.len() == 0 {
        Seq::empty()
    } else {
        let before = internet_addresses(found.drop_last(), inet, inet6);
        match found.last() {
            Some(info) => if info.address == inet || info.address == inet6 {
                before.push(uniform(info.sockaddr))
            } else {
                before
            },
            None => before,
        }
    }
}

/// The findings of the two internet address families are resolved, each to the uniform form of its
/// address, in the order in which they were found, and no other finding is.
pub proof fn law_internet_findings_are_kept_in_order(
    found: Seq<Option<AddrInfo>>,
    inet: i32,
    inet6: i32,
)
    ensures
        internet_addresses(found, inet, inet6) == found.filter(
            |f: Option<AddrInfo>|
                f is Some && (f.unwrap().address == inet || f.unwrap().address == inet6),
        ).map_values(|f: Option<AddrInfo>| uniform(f.unwrap().sockaddr)),
    decreases found.len(),
{
    reveal(Seq::filter);
    let kept = |f: Option<AddrInfo>|
        f is Some && (f.unwrap().address == inet || f.unwrap().address == inet6);
    let form = |f: Option<AddrInfo>| uniform(f.unwrap().sockaddr);
    if found.len() > 0 {
        let init = found.drop_last();
        law_internet_findings_are_kept_in_order(init, inet, inet6);
        if kept(found.last()) {
            assert(found.filter(kept) == init.filter(kept).push(found.last()));
            assert(found.filter(kept).map_values(form) =~= init.filter(kept).map_values(form).push(
                form(found.last()),
            ));
        } else {
            assert(found.filter(kept) == init.filter(kept));
        }
    } else {
        assert(found.filter(kept).map_values(form) =~= Seq::<SocketAddr>::empty());
    }
}

/// The uniform addresses of the internet among the findings of a lookup, for the numbers that the
/// operating system gives the two internet address families.
pub fn select_internet_addresses(found: &Vec<Option<AddrInfo>>, inet: i32, inet6: i32) -> (r: Vec<
    SocketAddr,
>)
    ensures
        r@ == internet_addresses(found@, inet, inet6),
        r@ == found@.filter(
            |f: Option<AddrInfo>|
                f is Some && (f.unwrap().address == inet || f.unwrap().address == inet6),
        ).map_values(|f: Option<AddrInfo>| uniform(f.unwrap().sockaddr)),
{
    proof {
        law_internet_findings_are_kept_in_order(found@, inet, inet6);
    }
    let mut r: Vec<SocketAddr> = Vec::new();
    let count: usize = found.len();
    let mut i: usize = 0;
    while i < count
        invariant
            count == found@.len(),
            i <= count,
            r@ == internet_addresses(found@.take(i as int), inet, inet6),
        decreases count - i,
    {
        assert(found@.take(i + 1).drop_last() =~= found@.take(i as int));
        if let Some(info) = found[i] {
            if info.address == inet || info.address == inet6 {
                r.push(to_uniform(info.sockaddr));
            }
        }
        i = i + 1;
    }
    assert(found@.take(count as int) =~= found@);
    r
}

/// The hints of a lookup of stream sockets, for the number that the operating system gives them.
pub fn hints_for(stream: i32) -> (r: AddrInfoHints)
    ensures
        r == (AddrInfoHints { socktype: stream, protocol: 0, address: 0, flags: 0 }),
{
    AddrInfoHints { socktype: stream, protocol: 0, address: 0, flags: 0 }
}

/// Resolves the names of peers by the resolver of the operating system.
#[derive(Clone, Copy, Debug, PartialEq, Eq, Structural)]
pub struct DnsServiceDefault;

impl Default for DnsServiceDefault {
    fn default() -> (r: Self)
        ensures
            r == DnsServiceDefault,
    {
        DnsServiceDefault
    }
}

impl DnsServiceDefault {
    pub fn new() -> (r: Self)
        ensures
            r == DnsServiceDefault,
    {
        DnsServiceDefault
    }

    /// The service that is looked up: the port in decimal notation.
    pub fn service_name(&self, port: u16) -> (r: String)
        ensures
            r@ == decimal(port as int),
    {
        digits_text(port as u64)
    }

    /// What the lookup is restricted to: stream sockets, and nothing else.
    pub fn hints(&self) -> (r: AddrInfoHints)
        ensures
            is_stream_socktype(r.socktype),
            r == (AddrInfoHints { socktype: r.socktype, protocol: 0, address: 0, flags: 0 }),
    {
        hints_for(stream_socktype())
    }

    /// The addresses of a peer from what the lookup of its name found.
    pub fn resolve_dns_name_to_peer_address(
        &mut self,
        found: Result<Vec<Option<AddrInfo>>, DnsLookupError>,
    ) -> (r: Result<Vec<SocketAddr>, DnsLookupError>)
        ensures
            match found {
                Err(e) => r == Err::<Vec<SocketAddr>, DnsLookupError>(e),
                Ok(list) => r is Ok && exists|inet: i32, inet6: i32| #[trigger]
                    are_internet_families(inet, inet6) && r->Ok_0@ == internet_addresses(
                        list@,
                        inet,
                        inet6,
                    ),
            },
    {
        match found {
            Err(e) => Err(e),
            Ok(list) => {
                let inet: i32 = inet_family();
                let inet6: i32 = inet6_family();
                assert(are_internet_families(inet, inet6));
                Ok(select_internet_addresses(&list, inet, inet6))
            },
        }
    }
}

/// Whether a finding was read and belongs to one of two address families.
pub open spec fn is_of_families(found: Option<AddrInfo>, inet: i32, inet6: i32) -> bool {
    found matches Some(info) && (info.address == inet || info.address == inet6)
}

/// Every address that a peer is resolved to is an IPv6 address, and comes from one of the findings
/// of the two internet address families.
pub proof fn law_resolved_addresses_are_ipv6(
    found: Seq<Option<AddrInfo>>,
    inet: i32,
    inet6: i32,
    i: int,
)
    requires
        0 <= i < internet_addresses(found, inet, inet6).len(),
    ensures
        internet_addresses(found, inet, inet6)[i] is V6,
        exists|j: int|
            0 <= j < found.len() && is_of_families(#[trigger] found[j], inet, inet6)
                && internet_addresses(found, inet, inet6)[i] == uniform(found[j]->Some_0.sockaddr),
    decreases found.len(),
{
    if found.len() > 0 {
        let init = found.drop_last();
        let before = internet_addresses(init, inet, inet6);
        if i < before.len() {
            law_resolved_addresses_are_ipv6(init, inet, inet6, i);
            let j = choose|j: int|
                0 <= j < init.len() && is_of_families(#[trigger] init[j], inet, inet6)
                    && before[i] == uniform(init[j]->Some_0.sockaddr);
            assert(found[j] == init[j]);
        } else {
            assert(is_of_families(found[found.len() - 1], inet, inet6));
        }
    }
}

/// A peer is resolved to the address of every finding of the two internet address families.
pub proof fn law_internet_findings_are_resolved(
    found: Seq<Option<AddrInfo>>,
    inet: i32,
    inet6: i32,
    j: int,
)
    requires
        0 <= j < found.len(),
        is_of_families(found[j], inet, inet6),
    ensures
        internet_addresses(found, inet, inet6).contains(uniform(found[j]->Some_0.sockaddr)),
    decreases found.len(),
{
    let init = found.drop_last();
    let before = internet_addresses(init, inet, inet6);
    let all = internet_addresses(found, inet, inet6);
    let address = uniform(found[j]->Some_0.sockaddr);
    if j < init.len() {
        law_internet_findings_are_resolved(init, inet, inet6, j);
        let i = choose|i: int| 0 <= i < before.len() && before[i] == address;
        assert(all[i] == address);
    } else {
        assert(all[all.len() - 1] == address);
    }
}

} // verus!
