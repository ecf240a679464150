//! Traffic counters that are kept for each source address.

use vstd::prelude::*;

verus! {

/// What has been seen of one source address since its counters were last
/// collected.
#[derive(Clone, Copy, Debug, PartialEq, Eq, Structural)]
pub struct KernelMetrics {
    pub packet_count: u64,
    pub bytes_count: u64,
    pub tcp_count: u32,
    pub udp_count: u32,
    pub icmp_count: u32,
    pub syn_count: u32,
    pub last_seen_ts: u64,
}

/// The transport protocols that are counted apart.
#[derive(Clone, Copy, Debug, PartialEq, Eq, Structural)]
pub enum Protocol {
    Tcp,
    Udp,
    Icmp,
    Other,
}

/// What the counters need to know of one packet.
#[derive(Clone, Copy, Debug, PartialEq, Eq, Structural)]
pub struct PacketInfo {
    /// The source address, in host order.
    pub src_ip: u32,
    pub proto: Protocol,
    /// The length of the whole frame.
    pub len: u64,
    /// Whether this is a TCP segment that opens a connection: SYN without ACK.
    pub syn: bool,
}

/// A count as it is kept in 64 bits.
pub open spec fn wrap64(n: int) -> u64 {
    (n % 0x1_0000_0000_0000_0000) as u64
}

/// A count as it is kept in 32 bits.
pub open spec fn wrap32(n: int) -> u32 {
    (n % 0x1_0000_0000) as u32
}

/// Counters of a source of which nothing was seen.
pub open spec fn zero_metrics() -> KernelMetrics {
    KernelMetrics {
        packet_count: 0,
        bytes_count: 0,
        tcp_count: 0,
        udp_count: 0,
        icmp_count: 0,
        syn_count: 0,
        last_seen_ts: 0,
    }
}

pub open spec fn one_if(b: bool) -> int {
    if b {
        1
    } else {
        0
    }
}

impl Default for KernelMetrics {
    fn default() -> (m: Self)
        ensures
            m == zero_metrics(),
    {
        KernelMetrics {
            packet_count: 0,
            bytes_count: 0,
            tcp_count: 0,
            udp_count: 0,
            icmp_count: 0,
            syn_count: 0,
            last_seen_ts: 0,
        }
    }
}

impl KernelMetrics {
    /// The counters after one more packet. Every counter wraps at the end of
    /// its width; the time stamp is left alone.
    pub open spec fn counting(self, info: PacketInfo) -> KernelMetrics {
        KernelMetrics {
            packet_count: wrap64(self.packet_count + 1),
            bytes_count: wrap64(self.bytes_count + info.len),
            tcp_count: wrap32(self.tcp_count + one_if(info.proto == Protocol::Tcp)),
            udp_count: wrap32(self.udp_count + one_if(info.proto == Protocol::Udp)),
            icmp_count: wrap32(self.icmp_count + one_if(info.proto == Protocol::Icmp)),
            syn_count: wrap32(
                self.syn_count + one_if(info.proto == Protocol::Tcp && info.syn),
            ),
            last_seen_ts: self.last_seen_ts,
        }
    }

    /// Counts one packet into existing counters.
    pub fn record(&mut self, info: &PacketInfo)
        ensures
            *final(self) == old(self).counting(*info),
    {
        self.packet_count = self.packet_count.wrapping_add(1);
        self.bytes_count = self.bytes_count.wrapping_add(info.len);
        match info.proto {
            Protocol::Tcp => {
                self.tcp_count = self.tcp_count.wrapping_add(1);
                if info.syn {
                    self.syn_count = self.syn_count.wrapping_add(1);
                }
            },
            Protocol::Udp => {
                self.udp_count = self.udp_count.wrapping_add(1);
            },
            Protocol::Icmp => {
                self.icmp_count = self.icmp_count.wrapping_add(1);
            },
            Protocol::Other => {},
        }
    }

    /// The counters of a source of which one packet was seen.
    pub open spec fn starting_with(info: PacketInfo) -> KernelMetrics {
        KernelMetrics {
            packet_count: 1,
            bytes_count: info.len,
            tcp_count: wrap32(one_if(info.proto == Protocol::Tcp)),
            udp_count: wrap32(one_if(info.proto == Protocol::Udp)),
            icmp_count: wrap32(one_if(info.proto == Protocol::Icmp)),
            syn_count: wrap32(one_if(info.syn)),
            last_seen_ts: 0,
        }
    }

    /// Starts counting at a first packet.
    pub fn first(info: &PacketInfo) -> (m: KernelMetrics)
        ensures
            m == KernelMetrics::starting_with(*info),
    {
        KernelMetrics {
            packet_count: 1,
            bytes_count: info.len,
            tcp_count: if info.proto == Protocol::Tcp { 1 } else { 0 },
            udp_count: if info.proto == Protocol::Udp { 1 } else { 0 },
            icmp_count: if info.proto == Protocol::Icmp { 1 } else { 0 },
            syn_count: if info.syn { 1 } else { 0 },
            last_seen_ts: 0,
        }
    }
}

impl PacketInfo {
    /// Only a TCP segment can open a connection.
    pub open spec fn wf(self) -> bool {
        self.syn ==> self.proto == Protocol::Tcp
    }
}

/// The lengths of some packets, added up.
pub open spec fn total_len(seen: Seq<PacketInfo>) -> int
    decreases seen.len(),
{
    if seen.len() == 0 {
        0
    } else {
        total_len(seen.drop_last()) + seen.last().len
    }
}

/// How many packets there are.
pub open spec fn count_all(seen: Seq<PacketInfo>) -> int {
    seen.len() as int
}

/// How many of some packets are of one protocol.
pub open spec fn count_of(seen: Seq<PacketInfo>, proto: Protocol) -> int {
    seen.filter(|info: PacketInfo| info.proto == proto).len() as int
}

/// How many of some packets open a connection.
pub open spec fn count_syn(seen: Seq<PacketInfo>) -> int {
    seen.filter(|info: PacketInfo| info.syn).len() as int
}

/// What the counters of a source should read after some packets.
pub open spec fn tally(seen: Seq<PacketInfo>) -> KernelMetrics {
    KernelMetrics {
        packet_count: wrap64(count_all(seen)),
        bytes_count: wrap64(total_len(seen)),
        tcp_count: wrap32(count_of(seen, Protocol::Tcp)),
        udp_count: wrap32(count_of(seen, Protocol::Udp)),
        icmp_count: wrap32(count_of(seen, Protocol::Icmp)),
        syn_count: wrap32(count_syn(seen)),
        last_seen_ts: 0,
    }
}

/// The first packet of a source counts as any later one does: the fresh
/// counters are the empty ones with that packet counted in.
pub proof fn law_first_packet_counts_like_any_other(info: PacketInfo)
    requires
        info.wf(),
    ensures
        KernelMetrics::starting_with(info) == zero_metrics().counting(info),
{
}

/// Counting packet by packet gives the tally of all of them.
pub proof fn law_counting_is_tallying(seen: Seq<PacketInfo>, info: PacketInfo)
    requires
        info.wf(),
    ensures
        tally(seen.push(info)) == tally(seen).counting(info),
        tally(Seq::<PacketInfo>::empty()) == zero_metrics(),
{
    let next = seen.push(info);
    assert(next.drop_last() =~= seen);
    reveal(Seq::filter);
}

/// No part of the packets outnumbers the whole, and so no counter of a part
/// exceeds the counter of the whole, up to where that of the whole wraps.
pub proof fn law_parts_do_not_outnumber_the_whole(seen: Seq<PacketInfo>)
    requires
        forall|i: int| 0 <= i < seen.len() ==> (#[trigger] seen[i]).wf(),
    ensures
        count_of(seen, Protocol::Tcp) + count_of(seen, Protocol::Udp) + count_of(
            seen,
            Protocol::Icmp,
        ) <= count_all(seen),
        count_syn(seen) <= count_of(seen, Protocol::Tcp),
        count_all(seen) < 0x1_0000_0000_0000_0000 ==> tally(seen).tcp_count + tally(seen).udp_count
            + tally(seen).icmp_count <= tally(seen).packet_count,
        count_of(seen, Protocol::Tcp) < 0x1_0000_0000 ==> tally(seen).syn_count <= tally(
            seen,
        ).tcp_count,
    decreases seen.len(),
{
    reveal(Seq::filter);
    if seen.len() > 0 {
        let earlier = seen.drop_last();
        assert forall|i: int| 0 <= i < earlier.len() implies (#[trigger] earlier[i]).wf() by {
            assert(earlier[i] == seen[i]);
        }
        assert(seen[seen.len() - 1].wf());
        law_parts_do_not_outnumber_the_whole(earlier);
    }
}

/// A count is kept as it is while it fits, and begins again at zero after the
/// greatest number that fits.
pub proof fn law_counts_wrap_at_their_width(n: int)
    ensures
        0 <= n <= u64::MAX ==> wrap64(n) == n,
        wrap64(n + 0x1_0000_0000_0000_0000) == wrap64(n),
        0 <= n <= u32::MAX ==> wrap32(n) == n,
        wrap32(n + 0x1_0000_0000) == wrap32(n),
{
}

/// One packet adds one to the packets, its length to the bytes, one to the
/// counter of its protocol, if it has any, and one to the opened connections if
/// it is TCP and opens one. All else is left alone.
pub proof fn law_a_packet_is_counted_once(m: KernelMetrics, info: PacketInfo)
    ensures
        ({
            let after = m.counting(info);
            &&& after.packet_count == (if m.packet_count == u64::MAX {
                0
            } else {
                m.packet_count + 1
            })
            &&& m.bytes_count + info.len <= u64::MAX ==> after.bytes_count - m.bytes_count
                == info.len
            &&& m.bytes_count + info.len > u64::MAX ==> m.bytes_count - after.bytes_count
                == 0x1_0000_0000_0000_0000 - info.len
            &&& info.proto is Tcp && m.tcp_count < u32::MAX ==> after.tcp_count == m.tcp_count + 1
            &&& info.proto is Tcp && m.tcp_count == u32::MAX ==> after.tcp_count == 0
            &&& !(info.proto is Tcp) ==> after.tcp_count == m.tcp_count
            &&& info.proto is Udp && m.udp_count < u32::MAX ==> after.udp_count == m.udp_count + 1
            &&& info.proto is Udp && m.udp_count == u32::MAX ==> after.udp_count == 0
            &&& !(info.proto is Udp) ==> after.udp_count == m.udp_count
            &&& info.proto is Icmp && m.icmp_count < u32::MAX ==> after.icmp_count == m.icmp_count
                + 1
            &&& info.proto is Icmp && m.icmp_count == u32::MAX ==> after.icmp_count == 0
            &&& !(info.proto is Icmp) ==> after.icmp_count == m.icmp_count
            &&& info.proto is Tcp && info.syn && m.syn_count < u32::MAX ==> after.syn_count
                == m.syn_count + 1
            &&& info.proto is Tcp && info.syn && m.syn_count == u32::MAX ==> after.syn_count == 0
            &&& !(info.proto is Tcp && info.syn) ==> after.syn_count == m.syn_count
            &&& after.last_seen_ts == m.last_seen_ts
        }),
{
}

/// The counters of a source of which one packet was seen hold that packet
/// alone.
pub proof fn law_a_first_packet_stands_alone(info: PacketInfo)
    ensures
        ({
            let first = KernelMetrics::starting_with(info);
            &&& first.packet_count == 1
            &&& first.bytes_count == info.len
            &&& first.tcp_count <= 1 && (first.tcp_count == 1 <==> info.proto is Tcp)
            &&& first.udp_count <= 1 && (first.udp_count == 1 <==> info.proto is Udp)
            &&& first.icmp_count <= 1 && (first.icmp_count == 1 <==> info.proto is Icmp)
            &&& first.syn_count <= 1 && (first.syn_count == 1 <==> info.syn)
            &&& first.last_seen_ts == 0
        }),
{
}

/// Counters of which nothing was seen are all zero.
pub proof fn law_nothing_seen_is_all_zero()
    ensures
        ({
            let m = zero_metrics();
            &&& m.packet_count == 0 && m.bytes_count == 0
            &&& m.tcp_count == 0 && m.udp_count == 0 && m.icmp_count == 0 && m.syn_count == 0
            &&& m.last_seen_ts == 0
        }),
{
}

} // verus!
