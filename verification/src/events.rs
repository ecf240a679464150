//! Blocking by the number of packets: a source that has sent more than a fixed
//! number of them is blocked.

use crate::metrics::wrap32;
use crate::text::lemma_octets;
use std::collections::HashMap;
use vstd::prelude::*;

verus! {

broadcast use vstd::std_specs::hash::group_hash_axioms;

/// A source with more packets than this is blocked.
pub const PACKET_LIMIT: u32 = 100;

/// One packet, as the kernel reports it.
#[derive(Clone, Copy, Debug, PartialEq, Eq, Structural)]
pub struct PacketEvent {
    pub src_ip: u32,
    pub dst_port: u16,
    pub protocol: u8,
}

/// The length of the record that the kernel writes about a packet.
pub const EVENT_LEN: usize = 8;

/// The number that two bytes stand for, in either order.
pub open spec fn number16(a: u8, b: u8, least_first: bool) -> u16 {
    if least_first {
        (a + b * 0x100) as u16
    } else {
        (a * 0x100 + b) as u16
    }
}

/// The number that four bytes stand for, in either order.
pub open spec fn number32(a: u8, b: u8, c: u8, d: u8, least_first: bool) -> u32 {
    if least_first {
        (a + b * 0x100 + c * 0x1_0000 + d * 0x100_0000) as u32
    } else {
        (a * 0x100_0000 + b * 0x1_0000 + c * 0x100 + d) as u32
    }
}

/// The packet that a record tells of, on a machine that stores numbers with the
/// least significant byte first, or with the most significant one. The writer
/// of the records is no part of this project, so their layout is assumed: that
/// of a C structure of a source, a port and a protocol. The source is in the
/// first four bytes, the port in the next two and the protocol in the one
/// after. The last byte fills the record up, and what follows it is no part of
/// it. A shorter record tells of none.
pub open spec fn event_of(data: Seq<u8>, least_first: bool) -> Option<PacketEvent> {
    if data.len() < EVENT_LEN {
        None
    } else {
        Some(
            PacketEvent {
                src_ip: number32(data[0], data[1], data[2], data[3], least_first),
                dst_port: number16(data[4], data[5], least_first),
                protocol: data[6],
            },
        )
    }
}

/// `u16::from_ne_bytes`: the number that two bytes stand for on this machine.
/// Which of the two orders this machine has is open.
#[verifier::external_body]
fn native_u16(bytes: [u8; 2]) -> (n: u16)
    ensures
        n == number16(bytes@[0], bytes@[1], true) || n == number16(bytes@[0], bytes@[1], false),
{
    u16::from_ne_bytes(bytes)
}

/// Reads a record of a machine with the given order of bytes.
pub fn read_event_in_order(data: &[u8], least_first: bool) -> (event: Option<PacketEvent>)
    ensures
        event == event_of(data@, least_first),
{
    if data.len() < EVENT_LEN {
        return None;
    }
    let a: u32 = data[0] as u32;
    let b: u32 = data[1] as u32;
    let c: u32 = data[2] as u32;
    let d: u32 = data[3] as u32;
    let e: u16 = data[4] as u16;
    let f: u16 = data[5] as u16;
    let protocol: u8 = data[6];
    Some(
        if least_first {
            PacketEvent {
                src_ip: a + b * 0x100 + c * 0x1_0000 + d * 0x100_0000,
                dst_port: e + f * 0x100,
                protocol,
            }
        } else {
            PacketEvent {
                src_ip: a * 0x100_0000 + b * 0x1_0000 + c * 0x100 + d,
                dst_port: e * 0x100 + f,
                protocol,
            }
        },
    )
}

/// Reads a record of this machine, in the order of bytes that it has.
pub fn read_event(data: &[u8]) -> (event: Option<PacketEvent>)
    ensures
        exists|least_first: bool| event == #[trigger] event_of(data@, least_first),
{
    let least_first = native_u16([1, 0]) == 1;
    read_event_in_order(data, least_first)
}

/// How many packets each source has sent.
pub struct PacketCounter {
    pub counts: HashMap<u32, u32>,
}

impl View for PacketCounter {
    type V = Map<u32, u32>;

    open spec fn view(&self) -> Map<u32, u32> {
        self.counts@
    }
}

pub open spec fn count_in(counts: Map<u32, u32>, src: u32) -> u32 {
    if counts.contains_key(src) {
        counts[src]
    } else {
        0
    }
}

/// The counts after one more packet from a source. A count wraps at the end of
/// its width.
pub open spec fn counting(counts: Map<u32, u32>, src: u32) -> Map<u32, u32> {
    counts.insert(src, wrap32(count_in(counts, src) + 1))
}

/// The counts after packets from some sources.
pub open spec fn counted(sources: Seq<u32>) -> Map<u32, u32>
    decreases sources.len(),
{
    if sources.len() == 0 {
        Map::empty()
    } else {
        counting(counted(sources.drop_last()), sources.last())
    }
}

/// How many of some packets came from a source.
pub open spec fn occurrences(sources: Seq<u32>, src: u32) -> int {
    sources.filter(|s: u32| s == src).len() as int
}

impl PacketCounter {
    /// Nothing counted.
    pub fn new() -> (counter: PacketCounter)
        ensures
            counter@ == Map::<u32, u32>::empty(),
    {
        PacketCounter { counts: HashMap::new() }
    }

    /// Counts a packet. Returns its source's count, and whether the source is
    /// to be blocked.
    pub fn observe(&mut self, event: &PacketEvent) -> (result: (u32, bool))
        ensures
            final(self)@ == counting(old(self)@, event.src_ip),
            result.0 == final(self)@[event.src_ip],
            result.1 == (result.0 > 100),
            result.1 == (result.0 > PACKET_LIMIT),
    {
        let before: u32 = match self.counts.get(&event.src_ip) {
            Some(count) => *count,
            None => 0,
        };
        let count: u32 = before.wrapping_add(1);
        self.counts.insert(event.src_ip, count);
        (count, count > PACKET_LIMIT)
    }
}

/// A source's count is the number of its packets, whatever came from others, so
/// it is blocked from the packet on that exceeds the limit.
pub proof fn law_counts_are_numbers_of_packets(sources: Seq<u32>, src: u32)
    ensures
        count_in(counted(sources), src) == wrap32(occurrences(sources, src)),
        occurrences(sources, src) < 0x1_0000_0000 ==> (count_in(counted(sources), src)
            > PACKET_LIMIT <==> occurrences(sources, src) > PACKET_LIMIT),
    decreases sources.len(),
{
    reveal(Seq::filter);
    if sources.len() > 0 {
        law_counts_are_numbers_of_packets(sources.drop_last(), src);
    }
}

/// A record is read byte by byte: the octets of the source, from the least
/// significant on or from the most significant on, are its first four bytes,
/// those of the port the next two, and the protocol is the one after.
pub proof fn law_a_record_says_what_its_bytes_say(data: Seq<u8>)
    ensures
        event_of(data, true) is Some <==> data.len() >= 8,
        event_of(data, false) is Some <==> data.len() >= 8,
        event_of(data, true) matches Some(event) ==> {
            &&& event.src_ip % 0x100 == data[0]
            &&& event.src_ip / 0x100 % 0x100 == data[1]
            &&& event.src_ip / 0x1_0000 % 0x100 == data[2]
            &&& event.src_ip / 0x100_0000 == data[3]
            &&& event.dst_port % 0x100 == data[4]
            &&& event.dst_port / 0x100 == data[5]
            &&& event.protocol == data[6]
        },
        event_of(data, false) matches Some(event) ==> {
            &&& event.src_ip / 0x100_0000 == data[0]
            &&& event.src_ip / 0x1_0000 % 0x100 == data[1]
            &&& event.src_ip / 0x100 % 0x100 == data[2]
            &&& event.src_ip % 0x100 == data[3]
            &&& event.dst_port / 0x100 == data[4]
            &&& event.dst_port % 0x100 == data[5]
            &&& event.protocol == data[6]
        },
{
    if data.len() >= 8 {
        lemma_octets(data[3], data[2], data[1], data[0]);
        lemma_octets(data[0], data[1], data[2], data[3]);
    }
}

/// A packet adds one to the count of its source, which begins at zero, and
/// touches no other count.
pub proof fn law_a_packet_counts_for_its_source(counts: Map<u32, u32>, src: u32, other: u32)
    ensures
        ({
            let after = counting(counts, src);
            &&& after.contains_key(src)
            &&& !counts.contains_key(src) ==> after[src] == 1
            &&& counts.contains_key(src) && counts[src] < u32::MAX ==> after[src] == counts[src] + 1
            &&& counts.contains_key(src) && counts[src] == u32::MAX ==> after[src] == 0
            &&& other != src ==> after.contains_key(other) == counts.contains_key(other)
            &&& other != src && counts.contains_key(other) ==> after[other] == counts[other]
        }),
{
}

/// The view of a counter is what it holds.
pub proof fn law_a_counter_is_seen_as_it_is(counter: PacketCounter)
    ensures
        counter@ == counter.counts@,
{
}

} // verus!
