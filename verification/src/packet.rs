//! Reading the headers of a received frame.

use crate::headers::{
    eth_hdr_len, ether_type_ipv4, ip_proto_icmp, ip_proto_number, ip_proto_tcp, ip_proto_udp,
    ipv4_hdr_len, tcp_hdr_len,
};
use crate::metrics::{PacketInfo, Protocol};
use crate::text::lemma_octets;
use vstd::prelude::*;

verus! {

/// The four bytes at `at`, most significant first.
pub open spec fn be32(frame: Seq<u8>, at: int) -> int {
    frame[at] * 0x100_0000 + frame[at + 1] * 0x1_0000 + frame[at + 2] * 0x100 + frame[at + 3]
}

/// A frame that carries IPv4 and holds a whole IPv4 header.
pub open spec fn is_ipv4(frame: Seq<u8>) -> bool {
    frame.len() >= 34 && frame[12] == 0x08 && frame[13] == 0x00
}

/// The counted protocol that a protocol number of an IPv4 header stands for.
pub open spec fn protocol_of(number: u8) -> Protocol {
    if number == 6 {
        Protocol::Tcp
    } else if number == 17 {
        Protocol::Udp
    } else if number == 1 {
        Protocol::Icmp
    } else {
        Protocol::Other
    }
}

/// Bit 1 of the byte of TCP flags.
pub open spec fn has_syn(flags: u8) -> bool {
    (flags / 2) % 2 == 1
}

/// Bit 4 of the byte of TCP flags.
pub open spec fn has_ack(flags: u8) -> bool {
    (flags / 16) % 2 == 1
}

/// A frame whose transport header, taken to stand right behind twenty bytes of
/// IPv4 header, is a whole TCP header with SYN set and ACK clear.
pub open spec fn opens_connection(frame: Seq<u8>) -> bool {
    &&& protocol_of(frame[23]) == Protocol::Tcp
    &&& frame.len() >= 54
    &&& has_syn(frame[47])
    &&& !has_ack(frame[47])
}

/// What a frame says of itself, if it carries IPv4.
pub open spec fn frame_info(frame: Seq<u8>) -> Option<PacketInfo> {
    if is_ipv4(frame) {
        Some(
            PacketInfo {
                src_ip: be32(frame, 26) as u32,
                proto: protocol_of(frame[23]),
                len: frame.len() as u64,
                syn: opens_connection(frame),
            },
        )
    } else {
        None
    }
}

/// Reads four bytes in network order.
fn read_be32(frame: &[u8], at: usize) -> (n: u32)
    requires
        at + 4 <= frame@.len(),
    ensures
        n == be32(frame@, at as int),
{
    frame[at] as u32 * 0x100_0000 + frame[at + 1] as u32 * 0x1_0000 + frame[at + 2] as u32 * 0x100
        + frame[at + 3] as u32
}

/// Tells which of the counted protocols a protocol number stands for.
fn classify(number: u8) -> (proto: Protocol)
    ensures
        proto == protocol_of(number),
{
    if number == ip_proto_number(ip_proto_tcp()) {
        Protocol::Tcp
    } else if number == ip_proto_number(ip_proto_udp()) {
        Protocol::Udp
    } else if number == ip_proto_number(ip_proto_icmp()) {
        Protocol::Icmp
    } else {
        Protocol::Other
    }
}

/// Reads the headers of a frame: `None` unless it carries IPv4.
pub fn parse_frame(frame: &[u8]) -> (info: Option<PacketInfo>)
    ensures
        info == frame_info(frame@),
        info matches Some(info) ==> info.wf(),
        info is Some <==> frame@.len() >= 34 && frame@[12] == 0x08 && frame@[13] == 0x00,
        info matches Some(info) ==> {
            &&& info.src_ip == frame@[26] * 0x100_0000 + frame@[27] * 0x1_0000 + frame@[28] * 0x100
                + frame@[29]
            &&& info.len == frame@.len()
        },
{
    let ip_start: usize = eth_hdr_len();
    if frame.len() < ip_start {
        return None;
    }
    let ipv4 = ether_type_ipv4();
    if frame[ip_start - 2] != ipv4[0] || frame[ip_start - 1] != ipv4[1] {
        return None;
    }
    let transport_start: usize = ip_start + ipv4_hdr_len();
    if frame.len() < transport_start {
        return None;
    }
    let src_ip: u32 = read_be32(frame, ip_start + 12);
    let proto = classify(frame[ip_start + 9]);
    let mut syn = false;
    if proto == Protocol::Tcp && frame.len() >= transport_start + tcp_hdr_len() {
        let flags: u8 = frame[transport_start + 13];
        if (flags / 2) % 2 == 1 && (flags / 16) % 2 == 0 {
            syn = true;
        }
    }
    Some(PacketInfo { src_ip, proto, len: frame.len() as u64, syn })
}

/// The source that a frame names, for a program that only reports it.
pub fn source_of(frame: &[u8]) -> (src: Option<u32>)
    ensures
        src == (match frame_info(frame@) {
            Some(info) => Some(info.src_ip),
            None => None,
        }),
        src is Some <==> frame@.len() >= 34 && frame@[12] == 0x08 && frame@[13] == 0x00,
        src matches Some(src) ==> src == frame@[26] * 0x100_0000 + frame@[27] * 0x1_0000
            + frame@[28] * 0x100 + frame@[29],
{
    match parse_frame(frame) {
        Some(info) => Some(info.src_ip),
        None => None,
    }
}

/// What is read of a frame is what stands in its bytes. It carries IPv4 if it
/// is long enough for the two headers and its ethertype says so. The octets of
/// its source, from the most significant on, are bytes 26 to 29. Byte 23 is its
/// protocol. It opens a connection if it is TCP, holds a whole TCP header, and
/// of SYN and ACK has SYN alone set.
pub proof fn law_a_frame_says_what_its_bytes_say(frame: Seq<u8>)
    requires
        frame.len() <= u64::MAX,
    ensures
        frame_info(frame) is Some <==> frame.len() >= 34 && frame[12] == 0x08 && frame[13] == 0x00,
        frame_info(frame) matches Some(info) ==> {
            &&& info.src_ip / 0x100_0000 == frame[26]
            &&& info.src_ip / 0x1_0000 % 0x100 == frame[27]
            &&& info.src_ip / 0x100 % 0x100 == frame[28]
            &&& info.src_ip % 0x100 == frame[29]
            &&& info.proto == Protocol::Tcp <==> frame[23] == 6
            &&& info.proto == Protocol::Udp <==> frame[23] == 17
            &&& info.proto == Protocol::Icmp <==> frame[23] == 1
            &&& info.len == frame.len()
            &&& info.syn <==> frame[23] == 6 && frame.len() >= 54 && frame[47] & 0x02 == 0x02
                && frame[47] & 0x10 == 0
        },
{
    if frame_info(frame) is Some {
        lemma_octets(frame[26], frame[27], frame[28], frame[29]);
    }
    let flags = frame[47];
    assert((flags / 2) % 2 == 1 <==> flags & 0x02 == 0x02) by (bit_vector);
    assert((flags / 16) % 2 == 1 <==> flags & 0x10 != 0) by (bit_vector);
}

/// The source of a frame is a matter of its bytes 26 to 29 alone: two frames
/// that carry IPv4 and agree there have the same source, whatever else they
/// hold, and two that do not agree there have different ones.
pub proof fn law_the_source_is_bytes_26_to_29(a: Seq<u8>, b: Seq<u8>)
    requires
        a.len() >= 34,
        b.len() >= 34,
        a[12] == 0x08 && a[13] == 0x00,
        b[12] == 0x08 && b[13] == 0x00,
    ensures
        frame_info(a) is Some,
        frame_info(b) is Some,
        frame_info(a).unwrap().src_ip == frame_info(b).unwrap().src_ip <==> a.subrange(26, 30)
            == b.subrange(26, 30),
{
    let x = a.subrange(26, 30);
    let y = b.subrange(26, 30);
    assert(x[0] == a[26] && x[1] == a[27] && x[2] == a[28] && x[3] == a[29]);
    assert(y[0] == b[26] && y[1] == b[27] && y[2] == b[28] && y[3] == b[29]);
    if frame_info(a).unwrap().src_ip == frame_info(b).unwrap().src_ip {
        assert(x =~= y);
    }
}

/// Of frames of one length, only the ethertype, the protocol, the source and
/// the TCP flags make a difference.
pub proof fn law_only_the_headers_matter(a: Seq<u8>, b: Seq<u8>)
    requires
        a.len() == b.len(),
        a.len() >= 54,
        a[12] == b[12] && a[13] == b[13],
        a[23] == b[23],
        a[47] == b[47],
        a.subrange(26, 30) == b.subrange(26, 30),
    ensures
        frame_info(a) == frame_info(b),
{
    let x = a.subrange(26, 30);
    let y = b.subrange(26, 30);
    assert(x[0] == a[26] && x[1] == a[27] && x[2] == a[28] && x[3] == a[29]);
    assert(y[0] == b[26] && y[1] == b[27] && y[2] == b[28] && y[3] == b[29]);
}

} // verus!
