//! Constants of the Ethernet, IPv4 and TCP wire formats, as the
//! `network_types` crate defines them.

use network_types::eth::{EthHdr, EtherType};
use network_types::ip::{IpProto, Ipv4Hdr};
use network_types::tcp::TcpHdr;
use vstd::prelude::*;

verus! {

/// `EthHdr::LEN`: two addresses of six bytes and the two bytes of the
/// ethertype, packed.
#[verifier::external_body]
pub(crate) fn eth_hdr_len() -> (n: usize)
    ensures
        n == 14,
{
    EthHdr::LEN
}

/// `Ipv4Hdr::LEN`: an IPv4 header without options.
#[verifier::external_body]
pub(crate) fn ipv4_hdr_len() -> (n: usize)
    ensures
        n == 20,
{
    Ipv4Hdr::LEN
}

/// `TcpHdr::LEN`: a TCP header without options.
#[verifier::external_body]
pub(crate) fn tcp_hdr_len() -> (n: usize)
    ensures
        n == 20,
{
    TcpHdr::LEN
}

/// `EtherType::Ipv4`, as the two bytes that stand for it in a frame. The
/// variant's discriminant is 0x0800 in network order, so its bytes in memory
/// are these on every machine.
#[verifier::external_body]
pub(crate) fn ether_type_ipv4() -> (bytes: [u8; 2])
    ensures
        bytes@ == seq![0x08u8, 0x00u8],
{
    (EtherType::Ipv4 as u16).to_ne_bytes()
}

/// A transport protocol of `network_types`. The declaration carries it from the
/// functions that name a protocol to the one that numbers it.
#[verifier::external_type_specification]
#[verifier::external_body]
pub struct ExIpProto(IpProto);

/// The number of a protocol in an IPv4 header, which is its discriminant.
pub uninterp spec fn proto_number(proto: IpProto) -> u8;

/// The discriminant of an `IpProto`.
#[verifier::external_body]
pub(crate) fn ip_proto_number(proto: IpProto) -> (n: u8)
    ensures
        n == proto_number(proto),
{
    proto as u8
}

/// `IpProto::Tcp`, whose number is 6.
#[verifier::external_body]
pub(crate) fn ip_proto_tcp() -> (proto: IpProto)
    ensures
        proto_number(proto) == 6,
{
    IpProto::Tcp
}

/// `IpProto::Udp`, whose number is 17.
#[verifier::external_body]
pub(crate) fn ip_proto_udp() -> (proto: IpProto)
    ensures
        proto_number(proto) == 17,
{
    IpProto::Udp
}

/// `IpProto::Icmp`, whose number is 1.
#[verifier::external_body]
pub(crate) fn ip_proto_icmp() -> (proto: IpProto)
    ensures
        proto_number(proto) == 1,
{
    IpProto::Icmp
}

} // verus!
