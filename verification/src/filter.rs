//! What happens to a frame at the network interface: dropped if its source is
//! blocked, passed and counted otherwise.
//!
//! The block list and the counters live in tables of the kernel. The filter
//! proceeds in steps: each step says what to ask of a table or what to write
//! to it, and the answer leads to the next one.

use crate::metrics::{
    law_a_first_packet_stands_alone, law_a_packet_is_counted_once, law_counting_is_tallying,
    law_first_packet_counts_like_any_other, tally, KernelMetrics, PacketInfo,
};
use crate::packet::{frame_info, law_a_frame_says_what_its_bytes_say, parse_frame};
use aya_ebpf::bindings::xdp_action;
use vstd::prelude::*;

verus! {

/// The number of sources that the block list holds at most.
pub const BLOCKLIST_CAPACITY: u32 = 1024;

/// The number of sources of which counters are kept at most.
pub const METRICS_CAPACITY: u32 = 10240;

/// What becomes of a frame.
#[derive(Clone, Copy, Debug, PartialEq, Eq, Structural)]
pub enum Verdict {
    Pass,
    Drop,
}

/// The next thing to do for a frame.
#[derive(Clone, Copy, Debug, PartialEq, Eq, Structural)]
pub enum FilterStep {
    /// Ask whether the packet's source is in the block list.
    CheckBlocklist(PacketInfo),
    /// Ask for the counters of the packet's source.
    FetchMetrics(PacketInfo),
    /// Write the counters of a source that has counters.
    UpdateMetrics(u32, KernelMetrics),
    /// Add the counters of a source that has none.
    InsertMetrics(u32, KernelMetrics),
    /// Nothing is left to do but to hand out the verdict.
    Finish(Verdict),
}

/// A write to the table of counters.
#[derive(Clone, Copy, Debug, PartialEq, Eq, Structural)]
pub enum MetricsWrite {
    Update(u32, KernelMetrics),
    Insert(u32, KernelMetrics),
}

/// All that the filter does for one frame.
#[derive(Clone, Copy, Debug, PartialEq, Eq, Structural)]
pub struct FilterOutcome {
    pub verdict: Verdict,
    pub write: Option<MetricsWrite>,
}

/// `xdp_action::XDP_PASS`, the code by which a frame goes on to the network
/// stack.
#[verifier::external_body]
fn xdp_pass() -> (code: u32)
    ensures
        code == 2,
{
    xdp_action::XDP_PASS
}

/// `xdp_action::XDP_DROP`, the code by which a frame is discarded.
#[verifier::external_body]
fn xdp_drop() -> (code: u32)
    ensures
        code == 1,
{
    xdp_action::XDP_DROP
}

impl Verdict {
    /// The code that stands for the verdict.
    pub open spec fn spec_code(self) -> u32 {
        match self {
            Verdict::Pass => 2,
            Verdict::Drop => 1,
        }
    }

    /// The code that the program returns for the verdict.
    pub fn code(self) -> (code: u32)
        ensures
            code == self.spec_code(),
    {
        match self {
            Verdict::Pass => xdp_pass(),
            Verdict::Drop => xdp_drop(),
        }
    }
}

/// The counters to write for a packet, given those that its source has.
pub open spec fn metrics_write(info: PacketInfo, found: Option<KernelMetrics>) -> MetricsWrite {
    match found {
        Some(m) => MetricsWrite::Update(info.src_ip, m.counting(info)),
        None => MetricsWrite::Insert(info.src_ip, KernelMetrics::starting_with(info)),
    }
}

/// The whole run of the filter on a frame, given whether the frame's source is
/// blocked and which counters it has.
pub open spec fn filter_outcome(
    frame: Seq<u8>,
    blocked: bool,
    found: Option<KernelMetrics>,
) -> FilterOutcome {
    match frame_info(frame) {
        None => FilterOutcome { verdict: Verdict::Pass, write: None },
        Some(info) => if blocked {
            FilterOutcome { verdict: Verdict::Drop, write: None }
        } else {
            FilterOutcome { verdict: Verdict::Pass, write: Some(metrics_write(info, found)) }
        },
    }
}

/// The first step for a frame: one that does not carry IPv4 passes at once.
pub open spec fn first_step(frame: Seq<u8>) -> FilterStep {
    match frame_info(frame) {
        None => FilterStep::Finish(Verdict::Pass),
        Some(info) => FilterStep::CheckBlocklist(info),
    }
}

/// The step after the block list was asked.
pub open spec fn after_blocklist(info: PacketInfo, listed: bool) -> FilterStep {
    if listed {
        FilterStep::Finish(Verdict::Drop)
    } else {
        FilterStep::FetchMetrics(info)
    }
}

/// The step after the counters of the source were asked for.
pub open spec fn after_metrics(info: PacketInfo, found: Option<KernelMetrics>) -> FilterStep {
    match metrics_write(info, found) {
        MetricsWrite::Update(src, m) => FilterStep::UpdateMetrics(src, m),
        MetricsWrite::Insert(src, m) => FilterStep::InsertMetrics(src, m),
    }
}

/// The step after the counters were written, whether or not the table took
/// them.
pub open spec fn after_write(stored: bool) -> FilterStep {
    FilterStep::Finish(Verdict::Pass)
}

/// The write that a step asks for.
pub open spec fn write_of(step: FilterStep) -> Option<MetricsWrite> {
    match step {
        FilterStep::UpdateMetrics(src, m) => Some(MetricsWrite::Update(src, m)),
        FilterStep::InsertMetrics(src, m) => Some(MetricsWrite::Insert(src, m)),
        _ => None,
    }
}

/// The step that follows another, where the tables answer so.
pub open spec fn next_step(
    step: FilterStep,
    listed: bool,
    found: Option<KernelMetrics>,
    stored: bool,
) -> FilterStep {
    match step {
        FilterStep::CheckBlocklist(info) => after_blocklist(info, listed),
        FilterStep::FetchMetrics(info) => after_metrics(info, found),
        FilterStep::UpdateMetrics(..) => after_write(stored),
        FilterStep::InsertMetrics(..) => after_write(stored),
        FilterStep::Finish(_) => step,
    }
}

/// What comes of at most `turns` steps from one on, with what was written
/// before it: `None` if they do not lead to a verdict.
pub open spec fn run_steps(
    step: FilterStep,
    written: Option<MetricsWrite>,
    listed: bool,
    found: Option<KernelMetrics>,
    stored: bool,
    turns: nat,
) -> Option<FilterOutcome>
    decreases turns,
{
    match step {
        FilterStep::Finish(verdict) => Some(FilterOutcome { verdict, write: written }),
        _ => if turns == 0 {
            None
        } else {
            run_steps(
                next_step(step, listed, found, stored),
                match write_of(step) {
                    Some(write) => Some(write),
                    None => written,
                },
                listed,
                found,
                stored,
                (turns - 1) as nat,
            )
        },
    }
}

/// Begins with a frame.
pub fn try_ai_firewall(frame: &[u8]) -> (step: FilterStep)
    ensures
        step == first_step(frame@),
{
    match parse_frame(frame) {
        None => FilterStep::Finish(Verdict::Pass),
        Some(info) => FilterStep::CheckBlocklist(info),
    }
}

/// Goes on after the block list was asked.
pub fn blocklist_reply(info: PacketInfo, listed: bool) -> (step: FilterStep)
    ensures
        step == after_blocklist(info, listed),
{
    if listed {
        FilterStep::Finish(Verdict::Drop)
    } else {
        FilterStep::FetchMetrics(info)
    }
}

/// Counts a packet of a source that has the given counters.
fn count_packet(info: PacketInfo, found: Option<KernelMetrics>) -> (write: MetricsWrite)
    ensures
        write == metrics_write(info, found),
{
    match found {
        Some(m) => {
            let mut m = m;
            m.record(&info);
            MetricsWrite::Update(info.src_ip, m)
        },
        None => MetricsWrite::Insert(info.src_ip, KernelMetrics::first(&info)),
    }
}

/// Goes on after the counters of the source were asked for.
pub fn metrics_reply(info: PacketInfo, found: Option<KernelMetrics>) -> (step: FilterStep)
    ensures
        step == after_metrics(info, found),
{
    match count_packet(info, found) {
        MetricsWrite::Update(src, m) => FilterStep::UpdateMetrics(src, m),
        MetricsWrite::Insert(src, m) => FilterStep::InsertMetrics(src, m),
    }
}

/// Goes on after the counters were written. A frame passes whether or not the
/// table took them.
pub fn metrics_written(stored: bool) -> (step: FilterStep)
    ensures
        step == after_write(stored),
{
    let _ = stored;
    FilterStep::Finish(Verdict::Pass)
}

/// Does for a frame at once what the steps do, where its source is known to be
/// blocked or not and to have the given counters.
pub fn ai_firewall(frame: &[u8], blocked: bool, found: Option<KernelMetrics>) -> (outcome:
    FilterOutcome)
    ensures
        outcome == filter_outcome(frame@, blocked, found),
{
    match parse_frame(frame) {
        None => FilterOutcome { verdict: Verdict::Pass, write: None },
        Some(info) => if blocked {
            FilterOutcome { verdict: Verdict::Drop, write: None }
        } else {
            FilterOutcome { verdict: Verdict::Pass, write: Some(count_packet(info, found)) }
        },
    }
}

/// The two tables of the kernel, by source address.
pub struct KernelTables {
    pub blocklist: Map<u32, u32>,
    pub metrics: Map<u32, KernelMetrics>,
}

impl KernelTables {
    pub open spec fn lookup(self, src: u32) -> Option<KernelMetrics> {
        if self.metrics.contains_key(src) {
            Some(self.metrics[src])
        } else {
            None
        }
    }

    /// What the filter does for a frame that arrives when the tables are so.
    pub open spec fn outcome(self, frame: Seq<u8>) -> FilterOutcome {
        match frame_info(frame) {
            None => filter_outcome(frame, false, None),
            Some(info) => filter_outcome(
                frame,
                self.blocklist.contains_key(info.src_ip),
                self.lookup(info.src_ip),
            ),
        }
    }

    /// The tables after a frame; `stored` tells whether the table of counters
    /// would take a source that it does not hold yet.
    pub open spec fn after(self, frame: Seq<u8>, stored: bool) -> KernelTables {
        match self.outcome(frame).write {
            Some(MetricsWrite::Update(src, m)) => KernelTables {
                blocklist: self.blocklist,
                metrics: self.metrics.insert(src, m),
            },
            Some(MetricsWrite::Insert(src, m)) => if stored {
                KernelTables { blocklist: self.blocklist, metrics: self.metrics.insert(src, m) }
            } else {
                self
            },
            None => self,
        }
    }

    /// The tables after some frames, all sources of which found room.
    pub open spec fn after_all(self, frames: Seq<Seq<u8>>) -> KernelTables
        decreases frames.len(),
    {
        if frames.len() == 0 {
            self
        } else {
            self.after_all(frames.drop_last()).after(frames.last(), true)
        }
    }
}

/// What some frames say of themselves, of those that came from one source.
pub open spec fn packets_from(frames: Seq<Seq<u8>>, src: u32) -> Seq<PacketInfo>
    decreases frames.len(),
{
    if frames.len() == 0 {
        Seq::empty()
    } else {
        let earlier = packets_from(frames.drop_last(), src);
        match frame_info(frames.last()) {
            Some(info) => if info.src_ip == src {
                earlier.push(info)
            } else {
                earlier
            },
            None => earlier,
        }
    }
}

/// For every frame and whatever the tables answer, at most three answers lead
/// from the first step to the verdict, with the writes that
/// [`filter_outcome`] has.
pub proof fn law_the_steps_end_in_the_outcome(
    frame: Seq<u8>,
    listed: bool,
    found: Option<KernelMetrics>,
    stored: bool,
)
    ensures
        run_steps(first_step(frame), None, listed, found, stored, 3) == Some(
            filter_outcome(frame, listed, found),
        ),
{
    reveal_with_fuel(run_steps, 4);
}

/// A frame that is too short or does not carry IPv4 passes and leaves no trace.
pub proof fn law_other_frames_pass_unseen(tables: KernelTables, frame: Seq<u8>, stored: bool)
    requires
        frame_info(frame) is None,
    ensures
        tables.outcome(frame).verdict == Verdict::Pass,
        tables.after(frame, stored) == tables,
{
}

/// Every frame from a blocked source is dropped, and none of them is counted.
pub proof fn law_blocked_sources_are_dropped(
    tables: KernelTables,
    frame: Seq<u8>,
    info: PacketInfo,
    stored: bool,
)
    requires
        frame_info(frame) == Some(info),
        tables.blocklist.contains_key(info.src_ip),
    ensures
        tables.outcome(frame).verdict == Verdict::Drop,
        tables.after(frame, stored) == tables,
{
}

/// Only frames from blocked sources are dropped.
pub proof fn law_only_blocked_sources_are_dropped(tables: KernelTables, frame: Seq<u8>)
    requires
        tables.outcome(frame).verdict == Verdict::Drop,
    ensures
        frame_info(frame) matches Some(info) && tables.blocklist.contains_key(info.src_ip),
{
}

/// A frame from a source that is not blocked passes, and touches the counters
/// of that source alone.
pub proof fn law_admitted_frames_touch_their_source_alone(
    tables: KernelTables,
    frame: Seq<u8>,
    info: PacketInfo,
    stored: bool,
    other: u32,
)
    requires
        frame_info(frame) == Some(info),
        !tables.blocklist.contains_key(info.src_ip),
        other != info.src_ip,
    ensures
        tables.outcome(frame).verdict == Verdict::Pass,
        tables.after(frame, stored).lookup(other) == tables.lookup(other),
        tables.after(frame, stored).blocklist == tables.blocklist,
{
}

/// After any frames, the counters of a source that is not blocked are the tally
/// of the frames that came from it, and a source that sent none has none.
pub proof fn law_counters_tally_the_frames(
    tables: KernelTables,
    frames: Seq<Seq<u8>>,
    src: u32,
)
    requires
        !tables.blocklist.contains_key(src),
        !tables.metrics.contains_key(src),
    ensures
        tables.after_all(frames).blocklist == tables.blocklist,
        tables.after_all(frames).lookup(src) == (if packets_from(frames, src).len() == 0 {
            None
        } else {
            Some(tally(packets_from(frames, src)))
        }),
    decreases frames.len(),
{
    if frames.len() > 0 {
        law_counters_tally_the_frames(tables, frames.drop_last(), src);
        let earlier = packets_from(frames.drop_last(), src);
        if let Some(info) = frame_info(frames.last()) {
            law_counting_is_tallying(earlier, info);
            law_first_packet_counts_like_any_other(info);
            if earlier.len() == 0 {
                assert(earlier =~= Seq::empty());
            }
        }
    }
}

/// A source that is blocked all along is never counted: its counters, if it has
/// any, stay what they were.
pub proof fn law_blocked_sources_are_not_counted(
    tables: KernelTables,
    frames: Seq<Seq<u8>>,
    src: u32,
)
    requires
        tables.blocklist.contains_key(src),
    ensures
        tables.after_all(frames).blocklist == tables.blocklist,
        tables.after_all(frames).lookup(src) == tables.lookup(src),
    decreases frames.len(),
{
    if frames.len() > 0 {
        law_blocked_sources_are_not_counted(tables, frames.drop_last(), src);
    }
}

/// A frame that carries IPv4 is dropped if its source is blocked, and passes
/// and is counted if it is not. Any other frame passes and is not counted.
pub proof fn law_the_verdict_goes_by_the_block_list(
    frame: Seq<u8>,
    blocked: bool,
    found: Option<KernelMetrics>,
)
    ensures
        ({
            let ipv4 = frame.len() >= 34 && frame[12] == 0x08 && frame[13] == 0x00;
            let outcome = filter_outcome(frame, blocked, found);
            &&& outcome.verdict == Verdict::Drop <==> ipv4 && blocked
            &&& outcome.write is Some <==> ipv4 && !blocked
        }),
{
}

/// A frame that is counted is counted under the address in its bytes 26 to 29,
/// as one packet of its length and its protocol: into new counters, if its
/// source has none, or on top of those that it has.
pub proof fn law_a_frame_is_counted_under_its_source(frame: Seq<u8>, found: Option<KernelMetrics>)
    requires
        34 <= frame.len() <= u64::MAX,
        frame[12] == 0x08 && frame[13] == 0x00,
    ensures
        ({
            let src = frame[26] * 0x100_0000 + frame[27] * 0x1_0000 + frame[28] * 0x100 + frame[29];
            let write = filter_outcome(frame, false, found).write;
            match found {
                None => {
                    &&& write matches Some(MetricsWrite::Insert(key, m))
                    &&& key == src
                    &&& m.packet_count == 1
                    &&& m.bytes_count == frame.len()
                    &&& m.tcp_count == (if frame[23] == 6 { 1int } else { 0 })
                    &&& m.udp_count == (if frame[23] == 17 { 1int } else { 0 })
                    &&& m.icmp_count == (if frame[23] == 1 { 1int } else { 0 })
                    &&& m.syn_count <= m.tcp_count
                    &&& m.last_seen_ts == 0
                },
                Some(old_m) => {
                    &&& write matches Some(MetricsWrite::Update(key, m))
                    &&& key == src
                    &&& (m.packet_count - old_m.packet_count - 1) % 0x1_0000_0000_0000_0000 == 0
                    &&& (m.bytes_count - old_m.bytes_count - frame.len())
                        % 0x1_0000_0000_0000_0000 == 0
                    &&& (m.tcp_count - old_m.tcp_count - (if frame[23] == 6 { 1int } else { 0 }))
                        % 0x1_0000_0000 == 0
                    &&& (m.udp_count - old_m.udp_count - (if frame[23] == 17 { 1int } else { 0 }))
                        % 0x1_0000_0000 == 0
                    &&& (m.icmp_count - old_m.icmp_count - (if frame[23] == 1 { 1int } else { 0 }))
                        % 0x1_0000_0000 == 0
                    &&& m.last_seen_ts == old_m.last_seen_ts
                },
            }
        }),
{
    law_a_frame_says_what_its_bytes_say(frame);
    let info = frame_info(frame).unwrap();
    law_a_first_packet_stands_alone(info);
    if let Some(m) = found {
        law_a_packet_is_counted_once(m, info);
    }
}

/// A frame is dropped if and only if it carries IPv4 and the address in its
/// bytes 26 to 29 is in the block list.
pub proof fn law_a_frame_is_dropped_if_its_source_is_listed(tables: KernelTables, frame: Seq<u8>)
    ensures
        tables.outcome(frame).verdict == Verdict::Drop <==> {
            &&& frame.len() >= 34
            &&& frame[12] == 0x08 && frame[13] == 0x00
            &&& tables.blocklist.contains_key(
                (frame[26] * 0x100_0000 + frame[27] * 0x1_0000 + frame[28] * 0x100
                    + frame[29]) as u32,
            )
        },
{
}

/// The first step asks the block list about the address in bytes 26 to 29 of a
/// frame that carries IPv4, and lets any other pass.
pub proof fn law_the_block_list_is_asked_about_the_source(frame: Seq<u8>)
    ensures
        ({
            let ipv4 = frame.len() >= 34 && frame[12] == 0x08 && frame[13] == 0x00;
            &&& !ipv4 ==> first_step(frame) == FilterStep::Finish(Verdict::Pass)
            &&& ipv4 ==> (first_step(frame) matches FilterStep::CheckBlocklist(info) && Some(info)
                == frame_info(frame) && info.src_ip == frame[26] * 0x100_0000 + frame[27]
                * 0x1_0000 + frame[28] * 0x100 + frame[29])
        }),
{
}

/// What the block list answers decides between dropping and counting. What is
/// counted is the packet that was asked about, under its own source. Whether
/// the counters found room decides nothing.
pub proof fn law_each_answer_leads_on(info: PacketInfo, m: KernelMetrics, stored: bool)
    ensures
        after_blocklist(info, true) == FilterStep::Finish(Verdict::Drop),
        after_blocklist(info, false) == FilterStep::FetchMetrics(info),
        after_metrics(info, Some(m)) == FilterStep::UpdateMetrics(info.src_ip, m.counting(info)),
        after_metrics(info, None) == FilterStep::InsertMetrics(
            info.src_ip,
            KernelMetrics::starting_with(info),
        ),
        after_write(stored) == FilterStep::Finish(Verdict::Pass),
        Verdict::Pass.spec_code() == 2,
        Verdict::Drop.spec_code() == 1,
{
}

/// The block list has room for 1024 sources, and the counters for ten times as
/// many.
pub proof fn law_the_tables_have_room()
    ensures
        BLOCKLIST_CAPACITY == 1024,
        METRICS_CAPACITY == 10 * BLOCKLIST_CAPACITY,
{
}

} // verus!
