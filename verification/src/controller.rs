//! The control program's state: when each source was blocked, and what the
//! terminal shows. Its methods are what happens between one request to the
//! kernel's tables and the next.
//!
//! Moments are nanoseconds of a clock that never goes back.

use crate::alert::{AlertLog, AlertView};
use crate::attach::{mode_name, mode_text};
use crate::dashboard::{blocked_view, trimmed, DashboardState, DashboardView};
use crate::filter::{KernelTables, Verdict};
use crate::input::{law_a_typed_address_is_acted_on, InputMode, InputView, Key, UserAction};
use crate::metrics::{wrap64, PacketInfo};
use crate::packet::frame_info;
use crate::request::{law_a_line_is_about_the_request, Request, BLOCKED_FLAG, BLOCK_TTL_SECS};
use crate::sweep::{sum_bytes, sum_packets, sweep_of, Sample, Sweep, SweepView};
use crate::text::{
    decimal, dotted, dotted_text, law_an_address_reads_as_its_bytes, law_dotted_is_injective,
};
use crate::units::rate;
use std::collections::HashMap;
use vstd::prelude::*;
use vstd::std_specs::hash::spec_keys_iter;
use vstd::std_specs::iter::IteratorSpec;

verus! {

broadcast use vstd::std_specs::hash::group_hash_axioms;

pub const NANOS_PER_SEC: u64 = 1_000_000_000;

/// The time from one moment to another, nothing if the other is not later.
pub open spec fn elapsed(since: u64, now: u64) -> int {
    if now >= since {
        now - since
    } else {
        0
    }
}

/// Whether a block has lasted its time.
pub open spec fn is_expired(since: u64, now: u64) -> bool {
    elapsed(since, now) >= BLOCK_TTL_SECS * NANOS_PER_SEC
}

/// The seconds that are left of a block, begun ones included.
pub open spec fn remaining_secs(since: u64, now: u64) -> u64 {
    let secs = elapsed(since, now) / NANOS_PER_SEC as int;
    if secs < BLOCK_TTL_SECS {
        (BLOCK_TTL_SECS - secs) as u64
    } else {
        0
    }
}

/// The sources of the blocks that have lasted their time.
pub open spec fn expired_sources(blocked: Map<u32, u64>, now: u64) -> Set<u32> {
    blocked.dom().filter(|ip: u32| is_expired(blocked[ip], now))
}

/// Rows that list each blocked source once, in some order, with the seconds
/// that are left of its block.
pub open spec fn lists_blocks(
    rows: Seq<(Seq<char>, u64)>,
    blocked: Map<u32, u64>,
    now: u64,
) -> bool {
    exists|order: Seq<u32>| #[trigger] is_block_list(rows, order, blocked, now)
}

pub open spec fn is_block_list(
    rows: Seq<(Seq<char>, u64)>,
    order: Seq<u32>,
    blocked: Map<u32, u64>,
    now: u64,
) -> bool {
    &&& order.no_duplicates()
    &&& order.to_set() == blocked.dom()
    &&& rows == order.map_values(|ip: u32| (dotted(ip), remaining_secs(blocked[ip], now)))
}

/// When each blocked source was blocked, and what the terminal shows.
pub struct Controller {
    pub blocked: HashMap<u32, u64>,
    pub dashboard: DashboardState,
}

#[verifier::ext_equal]
pub struct ControllerView {
    pub blocked: Map<u32, u64>,
    pub dashboard: DashboardView,
}

impl View for Controller {
    type V = ControllerView;

    open spec fn view(&self) -> ControllerView {
        ControllerView { blocked: self.blocked@, dashboard: self.dashboard@ }
    }
}

/// The log line about the program being attached.
pub open spec fn attached_line(iface: Seq<char>, native: bool) -> Seq<char> {
    "[*] AI Firewall attached to '"@ + iface + "' in "@ + mode_name(native)
        + " mode. Waiting for traffic..."@
}

impl ControllerView {
    pub open spec fn logging(self, line: Seq<char>) -> ControllerView {
        ControllerView { dashboard: self.dashboard.logging(line), ..self }
    }

    /// A source is blocked from now on.
    pub open spec fn blocking(self, ip: u32, now: u64) -> ControllerView {
        ControllerView { blocked: self.blocked.insert(ip, now), ..self }
    }

    /// A source is not blocked any more.
    pub open spec fn unblocking(self, ip: u32) -> ControllerView {
        ControllerView { blocked: self.blocked.remove(ip), ..self }
    }

    /// A request was granted. It is logged, but for a block of an anomalous
    /// source while the feed is paused.
    pub open spec fn granting(self, request: Request, now: u64) -> ControllerView {
        let changed = if request.blocks() {
            self.blocking(request.ip(), now)
        } else {
            self.unblocking(request.ip())
        };
        if request is AiBlock && self.dashboard.paused {
            changed
        } else {
            changed.logging(request.line())
        }
    }

    /// The kernel granted a request or did not.
    pub open spec fn replied(self, request: Request, granted: bool, now: u64) -> ControllerView {
        if granted {
            self.granting(request, now)
        } else {
            self
        }
    }

    /// A second's samples were put on display. The totals wrap at the end of
    /// their width.
    pub open spec fn swept(self, sweep: SweepView) -> ControllerView {
        ControllerView {
            dashboard: DashboardView {
                active_ips: sweep.active,
                total_packets: wrap64(self.dashboard.total_packets + sweep.packets),
                total_bytes: wrap64(self.dashboard.total_bytes + sweep.bytes),
                ..self.dashboard
            },
            ..self
        }
    }

    /// The samples of some seconds were put on display, one second after the
    /// other.
    pub open spec fn swept_all(self, seconds: Seq<Seq<Sample>>) -> ControllerView
        decreases seconds.len(),
    {
        if seconds.len() == 0 {
            self
        } else {
            self.swept_all(seconds.drop_last()).swept(sweep_of(seconds.last()))
        }
    }

    /// The kernel replied to some requests.
    pub open spec fn replied_all(self, replies: Seq<Reply>) -> ControllerView
        decreases replies.len(),
    {
        if replies.len() == 0 {
            self
        } else {
            let last = replies.last();
            self.replied_all(replies.drop_last()).replied(last.request, last.granted, last.now)
        }
    }
}

/// A request, whether the kernel granted it, and when.
pub struct Reply {
    pub request: Request,
    pub granted: bool,
    pub now: u64,
}

pub open spec fn alert_view(log: Option<AlertLog>) -> Option<AlertView> {
    match log {
        Some(log) => Some(log@),
        None => None,
    }
}

proof fn lemma_push(s: Seq<u32>, x: u32)
    ensures
        forall|y: u32| #[trigger] s.push(x).contains(y) <==> s.contains(y) || y == x,
        s.no_duplicates() && !s.contains(x) ==> s.push(x).no_duplicates(),
{
    let t = s.push(x);
    assert forall|y: u32| #[trigger] t.contains(y) <==> s.contains(y) || y == x by {
        if s.contains(y) {
            let i = choose|i: int| 0 <= i < s.len() && s[i] == y;
            assert(t[i] == y);
        }
        if y == x {
            assert(t[s.len() as int] == y);
        }
    }
}

impl Controller {
    /// Nothing blocked, nothing to show.
    pub fn new() -> (controller: Controller)
        ensures
            controller@.blocked == Map::<u32, u64>::empty(),
            controller@.dashboard == (DashboardView {
                active_ips: Seq::empty(),
                total_packets: 0,
                total_bytes: 0,
                blocked_ips: Seq::empty(),
                logs: Seq::empty(),
                paused: false,
            }),
    {
        Controller { blocked: HashMap::new(), dashboard: DashboardState::default() }
    }

    /// The program was attached.
    pub fn attached(&mut self, iface: &str, native: bool)
        ensures
            final(self)@ == old(self)@.logging(attached_line(iface@, native)),
    {
        let mut line = "[*] AI Firewall attached to '".to_owned();
        line.append(iface);
        line.append("' in ");
        let mode = mode_text(native);
        line.append(mode.as_str());
        line.append(" mode. Waiting for traffic...");
        self.dashboard.push_log(line);
    }

    /// The blocked sources, in no particular order.
    fn sources(&self) -> (ips: Vec<u32>)
        ensures
            ips@.no_duplicates(),
            ips@.to_set() == self.blocked@.dom(),
    {
        let mut ips: Vec<u32> = Vec::new();
        let ghost keys = IteratorSpec::remaining(&spec_keys_iter(&self.blocked));
        for ip in iter: self.blocked.keys()
            invariant
                iter.seq() == keys,
                ips@.len() == iter.index(),
                forall|j: int| 0 <= j < ips@.len() ==> #[trigger] ips@[j] == *keys[j],
        {
            ips.push(*ip);
        }
        assert(ips@ =~= keys.unref());
        assert forall|j: int, k: int| 0 <= j < k < ips@.len() implies ips@[j] != ips@[k] by {
            assert(keys[j] != keys[k]);
        }
        ips
    }

    /// The sources whose blocks have lasted their time: they are to be removed
    /// from the block list. They come in no particular order.
    pub fn expired(&self, now: u64) -> (ips: Vec<u32>)
        ensures
            ips@.no_duplicates(),
            ips@.to_set() == expired_sources(self@.blocked, now),
    {
        let sources = self.sources();
        let mut ips: Vec<u32> = Vec::new();
        let mut i: usize = 0;
        while i < sources.len()
            invariant
                i <= sources@.len(),
                sources@.no_duplicates(),
                sources@.to_set() == self.blocked@.dom(),
                ips@.no_duplicates(),
                forall|ip: u32| #[trigger]
                    ips@.contains(ip) <==> sources@.take(i as int).contains(ip) && is_expired(
                        self.blocked@[ip],
                        now,
                    ),
            decreases sources@.len() - i,
        {
            let ip: u32 = sources[i];
            assert(sources@.to_set().contains(ip));
            proof {
                assert(sources@.take(i + 1) =~= sources@.take(i as int).push(ip));
                lemma_push(sources@.take(i as int), ip);
                lemma_push(ips@, ip);
            }
            if let Some(since) = self.blocked.get(&ip) {
                if now.saturating_sub(*since) >= BLOCK_TTL_SECS * NANOS_PER_SEC {
                    ips.push(ip);
                }
            }
            i = i + 1;
        }
        assert(sources@.take(sources@.len() as int) =~= sources@);
        assert(ips@.to_set() =~= expired_sources(self@.blocked, now));
        ips
    }

    /// The kernel granted a request or did not. A source whose removal it did
    /// not grant is still known as blocked. Returns the alert to record.
    pub fn reply(&mut self, request: Request, granted: bool, now: u64, timestamp: u64) -> (log:
        Option<AlertLog>)
        ensures
            final(self)@ == old(self)@.replied(request, granted, now),
            alert_view(log) == (if granted {
                Some(request.alert(timestamp))
            } else {
                None
            }),
    {
        if !granted {
            return None;
        }
        match request {
            Request::AiBlock { ip, .. } => {
                self.blocked.insert(ip, now);
                if !self.dashboard.paused {
                    self.dashboard.push_log(request.line_text());
                }
            },
            Request::ManualBlock { ip } => {
                self.blocked.insert(ip, now);
                self.dashboard.push_log(request.line_text());
            },
            Request::ManualUnblock { ip } => {
                self.blocked.remove(&ip);
                self.dashboard.push_log(request.line_text());
            },
            Request::Expire { ip } => {
                self.blocked.remove(&ip);
                self.dashboard.push_log(request.line_text());
            },
        }
        Some(request.alert_log(timestamp))
    }

    /// Brings the list of blocked sources on display up to date, and discards
    /// old log lines.
    pub fn refresh(&mut self, now: u64)
        ensures
            final(self)@.blocked == old(self)@.blocked,
            lists_blocks(final(self)@.dashboard.blocked_ips, old(self)@.blocked, now),
            final(self)@.dashboard == (DashboardView {
                blocked_ips: final(self)@.dashboard.blocked_ips,
                logs: trimmed(old(self)@.dashboard.logs),
                ..old(self)@.dashboard
            }),
    {
        let sources = self.sources();
        let mut rows: Vec<(String, u64)> = Vec::new();
        let mut i: usize = 0;
        while i < sources.len()
            invariant
                i <= sources@.len(),
                sources@.no_duplicates(),
                sources@.to_set() == self.blocked@.dom(),
                rows@.len() == i,
                forall|j: int|
                    0 <= j < i ==> (#[trigger] rows@[j]).0@ == dotted(sources@[j]) && rows@[j].1
                        == remaining_secs(self.blocked@[sources@[j]], now),
            decreases sources@.len() - i,
        {
            let ip: u32 = sources[i];
            assert(sources@.to_set().contains(ip));
            if let Some(since) = self.blocked.get(&ip) {
                let secs: u64 = now.saturating_sub(*since) / NANOS_PER_SEC;
                rows.push((dotted_text(ip), BLOCK_TTL_SECS.saturating_sub(secs)));
            }
            i = i + 1;
        }
        assert(blocked_view(rows@) =~= sources@.map_values(
            |ip: u32| (dotted(ip), remaining_secs(self.blocked@[ip], now)),
        ));
        assert(is_block_list(blocked_view(rows@), sources@, self.blocked@, now));
        self.dashboard.blocked_ips = rows;
        self.dashboard.trim_logs();
    }

    /// Puts a second's samples on display.
    pub fn finish_sweep(&mut self, sweep: Sweep)
        ensures
            final(self)@ == old(self)@.swept(sweep@),
    {
        self.dashboard.active_ips = sweep.active;
        self.dashboard.total_packets = self.dashboard.total_packets.wrapping_add(sweep.packets);
        self.dashboard.total_bytes = self.dashboard.total_bytes.wrapping_add(sweep.bytes);
    }
}

/// A block lasts sixty seconds to the nanosecond. The seconds on display count
/// down from sixty, and reach nothing when the block has lasted its time.
pub proof fn law_a_block_lasts_its_time(since: u64, now: u64)
    ensures
        is_expired(since, now) <==> now - since >= 60_000_000_000,
        is_expired(since, now) <==> remaining_secs(since, now) == 0,
        now <= since ==> remaining_secs(since, now) == 60,
        remaining_secs(since, now) <= 60,
{
}

/// The totals on display are the sums over all seconds.
pub proof fn law_totals_add_up(view: ControllerView, seconds: Seq<Seq<Sample>>)
    ensures
        view.swept_all(seconds).dashboard.total_packets == wrap64(
            view.dashboard.total_packets + sum_packets(seconds.flatten()),
        ),
        view.swept_all(seconds).dashboard.total_bytes == wrap64(
            view.dashboard.total_bytes + sum_bytes(seconds.flatten()),
        ),
        view.swept_all(seconds).blocked == view.blocked,
    decreases seconds.len(),
{
    if seconds.len() == 0 {
        assert(seconds.flatten() =~= Seq::empty());
    } else {
        let earlier = seconds.drop_last();
        let last = seconds.last();
        law_totals_add_up(view, earlier);
        lemma_flatten_last(seconds);
        lemma_sums_of_concat(earlier.flatten(), last);
        lemma_wrapped_sum(
            view.dashboard.total_packets + sum_packets(earlier.flatten()),
            sum_packets(last),
        );
        lemma_wrapped_sum(
            view.dashboard.total_bytes + sum_bytes(earlier.flatten()),
            sum_bytes(last),
        );
    }
}

proof fn lemma_flatten_last(seconds: Seq<Seq<Sample>>)
    requires
        seconds.len() > 0,
    ensures
        seconds.flatten() == seconds.drop_last().flatten() + seconds.last(),
{
    seconds.lemma_flatten_and_flatten_alt_are_equivalent();
    seconds.drop_last().lemma_flatten_and_flatten_alt_are_equivalent();
}

proof fn lemma_wrapped_sum(a: int, b: int)
    ensures
        wrap64(wrap64(a) + wrap64(b)) == wrap64(a + b),
{
}

proof fn lemma_sums_of_concat(a: Seq<Sample>, b: Seq<Sample>)
    ensures
        sum_packets(a + b) == sum_packets(a) + sum_packets(b),
        sum_bytes(a + b) == sum_bytes(a) + sum_bytes(b),
    decreases b.len(),
{
    if b.len() == 0 {
        assert(a + b =~= a);
    } else {
        assert((a + b).drop_last() =~= a + b.drop_last());
        lemma_sums_of_concat(a, b.drop_last());
    }
}

/// Unblocking a source takes back that it was blocked.
pub proof fn law_unblocking_takes_back_blocking(view: ControllerView, ip: u32, now: u64)
    requires
        !view.blocked.contains_key(ip),
    ensures
        view.blocking(ip, now).unblocking(ip) == view,
{
    assert(view.blocking(ip, now).unblocking(ip).blocked =~= view.blocked);
}

/// Blocking a source that is blocked begins its time anew.
pub proof fn law_blocking_again_begins_anew(
    view: ControllerView,
    ip: u32,
    first: u64,
    second: u64,
)
    ensures
        view.blocking(ip, first).blocking(ip, second) == view.blocking(ip, second),
{
    assert(view.blocking(ip, first).blocking(ip, second).blocked =~= view.blocking(
        ip,
        second,
    ).blocked);
}

/// A paused feed shows no line about an anomalous source, which is blocked no
/// less, and shows every other line.
pub proof fn law_pausing_only_hides_lines(view: ControllerView, request: Request, now: u64)
    requires
        view.dashboard.paused,
    ensures
        ({
            let live = ControllerView {
                dashboard: DashboardView { paused: false, ..view.dashboard },
                ..view
            };
            &&& view.granting(request, now).blocked == live.granting(request, now).blocked
            &&& view.granting(request, now).dashboard.logs == (if request is AiBlock {
                view.dashboard.logs
            } else {
                live.granting(request, now).dashboard.logs
            })
        }),
{
}

/// What the kernel's block list holds after some requests, those taken into
/// account that it granted.
pub open spec fn listed_after(listed: Map<u32, u32>, replies: Seq<Reply>) -> Map<u32, u32>
    decreases replies.len(),
{
    if replies.len() == 0 {
        listed
    } else {
        let before = listed_after(listed, replies.drop_last());
        let last = replies.last();
        if last.granted {
            last.request.asked().made_to(before)
        } else {
            before
        }
    }
}

/// Whether a block list holds the same for each of its sources.
pub open spec fn is_flagged(listed: Map<u32, u32>) -> bool {
    forall|ip: u32| #[trigger] listed.contains_key(ip) ==> listed[ip] == BLOCKED_FLAG
}

/// Whatever is asked and whatever the kernel grants, the sources that the
/// controller knows as blocked are those in the kernel's block list, if they
/// were at first. The list holds one and the same value for all of them, if it
/// did at first.
pub proof fn law_controller_and_kernel_agree(
    view: ControllerView,
    listed: Map<u32, u32>,
    replies: Seq<Reply>,
)
    requires
        listed.dom() == view.blocked.dom(),
    ensures
        listed_after(listed, replies).dom() == view.replied_all(replies).blocked.dom(),
        is_flagged(listed) ==> is_flagged(listed_after(listed, replies)),
    decreases replies.len(),
{
    if replies.len() > 0 {
        law_controller_and_kernel_agree(view, listed, replies.drop_last());
        assert(listed_after(listed, replies).dom() =~= view.replied_all(replies).blocked.dom());
    }
}

/// A source that was blocked at some moment, and about which the kernel granted
/// nothing since, is let go neither earlier nor later than its time.
pub proof fn law_a_block_is_not_lifted_early(
    view: ControllerView,
    request: Request,
    at: u64,
    replies: Seq<Reply>,
    now: u64,
)
    requires
        request.blocks(),
        forall|i: int|
            0 <= i < replies.len() && (#[trigger] replies[i]).granted ==> replies[i].request.ip()
                != request.ip(),
    ensures
        ({
            let blocked = view.granting(request, at).replied_all(replies).blocked;
            &&& blocked.contains_key(request.ip())
            &&& blocked[request.ip()] == at
            &&& expired_sources(blocked, now).contains(request.ip()) <==> now - at
                >= 60_000_000_000
        }),
    decreases replies.len(),
{
    if replies.len() > 0 {
        let earlier = replies.drop_last();
        assert forall|i: int|
            0 <= i < earlier.len() && (#[trigger] earlier[i]).granted implies earlier[i].request.ip()
            != request.ip() by {
            assert(earlier[i] == replies[i]);
        }
        law_a_block_is_not_lifted_early(view, request, at, earlier, now);
    }
}

/// While the two agree, a frame is dropped if and only if the controller knows
/// its source as blocked.
pub proof fn law_blocks_are_enforced(
    view: ControllerView,
    tables: KernelTables,
    frame: Seq<u8>,
    info: PacketInfo,
)
    requires
        tables.blocklist.dom() == view.blocked.dom(),
        frame_info(frame) == Some(info),
    ensures
        tables.outcome(frame).verdict == Verdict::Drop <==> view.blocked.contains_key(info.src_ip),
{
    assert(tables.blocklist.dom().contains(info.src_ip) <==> view.blocked.dom().contains(
        info.src_ip,
    ));
}

/// The kernel lets go of some sources whose time is over.
pub open spec fn expiry_replies(ips: Seq<u32>, now: u64) -> Seq<Reply> {
    ips.map_values(|ip: u32| Reply { request: Request::Expire { ip }, granted: true, now })
}

proof fn lemma_expiry(view: ControllerView, ips: Seq<u32>, now: u64, ip: u32)
    ensures
        ({
            let left = view.replied_all(expiry_replies(ips, now)).blocked;
            &&& left.contains_key(ip) <==> view.blocked.contains_key(ip) && !ips.contains(ip)
            &&& left.contains_key(ip) ==> left[ip] == view.blocked[ip]
        }),
    decreases ips.len(),
{
    if ips.len() > 0 {
        let earlier = ips.drop_last();
        lemma_expiry(view, earlier, now, ip);
        assert(expiry_replies(ips, now).drop_last() =~= expiry_replies(earlier, now));
        assert(ips =~= earlier.push(ips.last()));
        lemma_push(earlier, ips.last());
    }
}

/// Once the kernel let go of the sources whose time is over, no block that has
/// lasted its time is left, and every other block is what it was.
pub proof fn law_expiry_lets_go_of_the_expired_alone(
    view: ControllerView,
    ips: Seq<u32>,
    now: u64,
    ip: u32,
)
    requires
        ips.to_set() == expired_sources(view.blocked, now),
    ensures
        ({
            let left = view.replied_all(expiry_replies(ips, now)).blocked;
            &&& expired_sources(left, now) == Set::<u32>::empty()
            &&& view.blocked.contains_key(ip) && !is_expired(view.blocked[ip], now)
                ==> left.contains_key(ip) && left[ip] == view.blocked[ip]
        }),
{
    let left = view.replied_all(expiry_replies(ips, now)).blocked;
    assert forall|other: u32|
        ips.contains(other) <==> expired_sources(view.blocked, now).contains(other) by {
        assert(ips.to_set().contains(other) <==> ips.contains(other));
    }
    assert forall|other: u32| !expired_sources(left, now).contains(other) by {
        lemma_expiry(view, ips, now, other);
    }
    assert(expired_sources(left, now) =~= Set::<u32>::empty());
    lemma_expiry(view, ips, now, ip);
}

/// A source that the kernel does not let go of is tried again: it stays among
/// those whose time is over.
pub proof fn law_expiry_is_tried_again(view: ControllerView, ip: u32, now: u64, later: u64)
    requires
        expired_sources(view.blocked, now).contains(ip),
        now <= later,
    ensures
        expired_sources(
            view.replied(Request::Expire { ip }, false, now).blocked,
            later,
        ).contains(ip),
{
}

/// The list on display has one row for each blocked source, and no row shows
/// more than sixty seconds.
pub proof fn law_the_list_shows_every_block(
    rows: Seq<(Seq<char>, u64)>,
    blocked: Map<u32, u64>,
    now: u64,
    ip: u32,
)
    requires
        lists_blocks(rows, blocked, now),
        blocked.contains_key(ip),
    ensures
        rows.len() == blocked.dom().len(),
        rows.contains((dotted(ip), remaining_secs(blocked[ip], now))),
        forall|i: int| 0 <= i < rows.len() ==> (#[trigger] rows[i]).1 <= BLOCK_TTL_SECS,
{
    let order = choose|order: Seq<u32>| #[trigger] is_block_list(rows, order, blocked, now);
    order.unique_seq_to_set();
    assert(order.to_set().contains(ip));
    let i = choose|i: int| 0 <= i < order.len() && order[i] == ip;
    assert(rows[i] == (dotted(ip), remaining_secs(blocked[ip], now)));
}

/// Whether the kernel let go of a source whenever it was asked to and had it in
/// its list, and only then.
pub open spec fn lets_go_of_the_listed(listed: Map<u32, u32>, replies: Seq<Reply>) -> bool
    decreases replies.len(),
{
    replies.len() == 0 || {
        let earlier = replies.drop_last();
        let last = replies.last();
        &&& lets_go_of_the_listed(listed, earlier)
        &&& !last.request.blocks() ==> last.granted == listed_after(listed, earlier).contains_key(
            last.request.ip(),
        )
    }
}

/// Whether something was asked of the kernel.
pub open spec fn was_asked(replies: Seq<Reply>, request: Request) -> bool {
    exists|i: int| 0 <= i < replies.len() && (#[trigger] replies[i]).request == request
}

/// Whether what was granted of some blocks was granted at a moment or later.
pub open spec fn blocks_since(replies: Seq<Reply>, now: u64) -> bool {
    forall|i: int|
        0 <= i < replies.len() && (#[trigger] replies[i]).granted && replies[i].request.blocks()
            ==> replies[i].now >= now
}

/// Whether a row shows a source in the block list.
pub open spec fn shows_one_of(row: (Seq<char>, u64), listed: Map<u32, u32>) -> bool {
    exists|ip: u32| listed.contains_key(ip) && row.0 == #[trigger] dotted(ip)
}

proof fn lemma_clean_up(
    view: ControllerView,
    listed: Map<u32, u32>,
    replies: Seq<Reply>,
    now: u64,
    ip: u32,
)
    requires
        listed.dom() == view.blocked.dom(),
        lets_go_of_the_listed(listed, replies),
        blocks_since(replies, now),
    ensures
        ({
            let left = view.replied_all(replies).blocked;
            left.contains_key(ip) ==> {
                ||| left[ip] >= now
                ||| {
                    &&& !was_asked(replies, Request::Expire { ip })
                    &&& view.blocked.contains_key(ip)
                    &&& left[ip] == view.blocked[ip]
                }
            }
        }),
    decreases replies.len(),
{
    if replies.len() > 0 {
        let earlier = replies.drop_last();
        let last = replies.last();
        assert(blocks_since(earlier, now)) by {
            assert forall|i: int|
                0 <= i < earlier.len() && (#[trigger] earlier[i]).granted
                    && earlier[i].request.blocks() implies earlier[i].now >= now by {
                assert(earlier[i] == replies[i]);
            }
        }
        lemma_clean_up(view, listed, earlier, now, ip);
        law_controller_and_kernel_agree(view, listed, earlier);
        let expire = Request::Expire { ip };
        if was_asked(replies, expire) && !was_asked(earlier, expire) {
            let i = choose|i: int| 0 <= i < replies.len() && (#[trigger] replies[i]).request
                == expire;
            if i < earlier.len() {
                assert(earlier[i].request == expire);
            }
            assert(last.request == expire);
            assert(listed_after(listed, earlier).dom().contains(ip)
                <==> view.replied_all(earlier).blocked.dom().contains(ip));
        }
    }
}

/// Once a second the controller looks for the blocks that have lasted their
/// time, asks the kernel to let go of each, and brings the list on display up
/// to date. If the block list was empty at first and only the controller
/// changes it, then after any requests the list on display has exactly one row
/// for each source in the block list, with one to sixty seconds, and no row
/// besides. The block list holds the flag for each.
///
/// `history` came before, and `during` while the blocks were being lifted: the
/// kernel was asked for every source in `ips`, and perhaps for other things.
pub proof fn law_a_clean_up_shows_the_block_list(
    view: ControllerView,
    history: Seq<Reply>,
    ips: Seq<u32>,
    during: Seq<Reply>,
    rows: Seq<(Seq<char>, u64)>,
    now: u64,
)
    requires
        view.blocked == Map::<u32, u64>::empty(),
        ips.to_set() == expired_sources(view.replied_all(history).blocked, now),
        forall|i: int|
            0 <= i < ips.len() ==> was_asked(during, Request::Expire { ip: #[trigger] ips[i] }),
        lets_go_of_the_listed(listed_after(Map::empty(), history), during),
        blocks_since(during, now),
        lists_blocks(rows, view.replied_all(history).replied_all(during).blocked, now),
    ensures
        ({
            let listed = listed_after(listed_after(Map::empty(), history), during);
            &&& rows.len() == listed.dom().len()
            &&& forall|ip: u32| #[trigger]
                listed.contains_key(ip) <==> exists|i: int|
                    0 <= i < rows.len() && (#[trigger] rows[i]).0 == dotted(ip)
            &&& forall|i: int|
                0 <= i < rows.len() ==> shows_one_of(#[trigger] rows[i], listed)
            &&& forall|i: int, j: int|
                0 <= i < j < rows.len() ==> (#[trigger] rows[i]).0 != (#[trigger] rows[j]).0
            &&& forall|i: int| 0 <= i < rows.len() ==> 1 <= (#[trigger] rows[i]).1 <= 60
            &&& is_flagged(listed)
        }),
{
    let before = view.replied_all(history);
    let left = before.replied_all(during).blocked;
    let listed_before = listed_after(Map::empty(), history);
    let listed = listed_after(listed_before, during);
    assert(Map::<u32, u32>::empty().dom() =~= view.blocked.dom());
    law_controller_and_kernel_agree(view, Map::empty(), history);
    law_controller_and_kernel_agree(before, listed_before, during);
    let order = choose|order: Seq<u32>| #[trigger] is_block_list(rows, order, left, now);
    order.unique_seq_to_set();
    assert forall|i: int| 0 <= i < rows.len() implies (#[trigger] rows[i]).0 == dotted(order[i])
        && listed.contains_key(order[i]) && 1 <= rows[i].1 <= 60 by {
        let ip = order[i];
        assert(order.to_set().contains(ip));
        assert(left.dom().contains(ip));
        assert(listed.dom().contains(ip));
        lemma_clean_up(before, listed_before, during, now, ip);
        if left[ip] < now && is_expired(left[ip], now) {
            assert(expired_sources(before.blocked, now).contains(ip));
            assert(ips.to_set().contains(ip));
            let j = choose|j: int| 0 <= j < ips.len() && ips[j] == ip;
            assert(was_asked(during, Request::Expire { ip: ips[j] }));
        }
        law_a_block_lasts_its_time(left[ip], now);
    }
    assert forall|ip: u32| #[trigger]
        listed.contains_key(ip) <==> exists|i: int|
            0 <= i < rows.len() && (#[trigger] rows[i]).0 == dotted(ip) by {
        if listed.contains_key(ip) {
            assert(left.dom().contains(ip));
            assert(order.to_set().contains(ip));
            let i = choose|i: int| 0 <= i < order.len() && order[i] == ip;
            assert(rows[i].0 == dotted(ip));
        }
        if exists|i: int| 0 <= i < rows.len() && (#[trigger] rows[i]).0 == dotted(ip) {
            let i = choose|i: int| 0 <= i < rows.len() && (#[trigger] rows[i]).0 == dotted(ip);
            law_dotted_is_injective(order[i], ip);
        }
    }
    assert forall|i: int, j: int| 0 <= i < j < rows.len() implies (#[trigger] rows[i]).0 != (
    #[trigger] rows[j]).0 by {
        if rows[i].0 == rows[j].0 {
            law_dotted_is_injective(order[i], order[j]);
        }
    }
}

/// While a block lasts, the seconds on display and the whole seconds that have
/// gone by add up to sixty. Before it there are sixty, and after it none.
pub proof fn law_the_seconds_add_up_to_sixty(since: u64, now: u64)
    ensures
        since <= now && now - since < 60_000_000_000 ==> remaining_secs(since, now) + (now - since)
            / 1_000_000_000 == 60,
        now <= since ==> remaining_secs(since, now) == 60,
        now - since >= 60_000_000_000 ==> remaining_secs(since, now) == 0,
{
}

/// The seconds on display never grow, and go down by one with every second
/// while the block lasts.
pub proof fn law_the_seconds_count_down(since: u64, now: u64, later: u64)
    requires
        now <= later,
    ensures
        remaining_secs(since, later) <= remaining_secs(since, now),
        since <= now && later == now + 1_000_000_000 && later - since < 60_000_000_000
            ==> remaining_secs(since, later) == remaining_secs(since, now) - 1,
{
}

/// A source is to be let go if and only if it is blocked, and has been for
/// sixty seconds.
pub proof fn law_blocks_of_sixty_seconds_are_over(blocked: Map<u32, u64>, now: u64, ip: u32)
    ensures
        expired_sources(blocked, now).contains(ip) <==> blocked.contains_key(ip) && now
            - blocked[ip] >= 60_000_000_000,
{
}

/// The list on display has a row for a blocked source, with its address and
/// the seconds that are left: sixty, less the whole seconds since it was
/// blocked.
pub proof fn law_a_blocked_source_has_its_row(
    rows: Seq<(Seq<char>, u64)>,
    blocked: Map<u32, u64>,
    now: u64,
    ip: u32,
)
    requires
        lists_blocks(rows, blocked, now),
        blocked.contains_key(ip),
    ensures
        exists|i: int|
            0 <= i < rows.len() && (#[trigger] rows[i]).0 == dotted(ip) && rows[i].1 == (
            if now <= blocked[ip] {
                60int
            } else if now - blocked[ip] < 60_000_000_000 {
                60 - (now - blocked[ip]) / 1_000_000_000
            } else {
                0int
            }),
{
    let order = choose|order: Seq<u32>| #[trigger] is_block_list(rows, order, blocked, now);
    assert(order.to_set().contains(ip));
    let i = choose|i: int| 0 <= i < order.len() && order[i] == ip;
    law_the_seconds_add_up_to_sixty(blocked[ip], now);
    assert(rows[i].0 == dotted(ip));
}

/// Every row on display is that of a blocked source, and no two rows are of the
/// same one.
pub proof fn law_every_row_is_of_a_blocked_source(
    rows: Seq<(Seq<char>, u64)>,
    blocked: Map<u32, u64>,
    now: u64,
    i: int,
)
    requires
        lists_blocks(rows, blocked, now),
        0 <= i < rows.len(),
    ensures
        rows.len() == blocked.dom().len(),
        exists|ip: u32|
            blocked.contains_key(ip) && rows[i].0 == #[trigger] dotted(ip) && rows[i].1 == (
            if now <= blocked[ip] {
                60int
            } else if now - blocked[ip] < 60_000_000_000 {
                60 - (now - blocked[ip]) / 1_000_000_000
            } else {
                0int
            }),
        forall|j: int| 0 <= j < rows.len() && j != i ==> (#[trigger] rows[j]).0 != rows[i].0,
{
    let order = choose|order: Seq<u32>| #[trigger] is_block_list(rows, order, blocked, now);
    let ip = order[i];
    assert(order.to_set().contains(ip));
    order.unique_seq_to_set();
    assert(blocked.dom().contains(ip));
    law_the_seconds_add_up_to_sixty(blocked[ip], now);
    assert(rows[i].0 == dotted(ip));
    assert forall|j: int| 0 <= j < rows.len() && j != i implies (#[trigger] rows[j]).0
        != rows[i].0 by {
        if rows[j].0 == rows[i].0 {
            law_dotted_is_injective(order[j], order[i]);
        }
    }
}

/// A block that was granted to the user is known from that moment on, under the
/// address that was asked for; an unblock is forgotten. Either is logged, and
/// nothing else on display changes.
pub proof fn law_the_user_blocks_and_unblocks(view: ControllerView, ip: u32, now: u64)
    ensures
        view.replied(Request::ManualBlock { ip }, true, now) == (ControllerView {
            blocked: view.blocked.insert(ip, now),
            dashboard: DashboardView {
                logs: view.dashboard.logs.push(
                    "[*] [MANUAL-BLOCK] Manually blocked IP "@ + dotted(ip),
                ),
                ..view.dashboard
            },
        }),
        view.replied(Request::ManualUnblock { ip }, true, now) == (ControllerView {
            blocked: view.blocked.remove(ip),
            dashboard: DashboardView {
                logs: view.dashboard.logs.push(
                    "[*] [MANUAL-UNBLOCK] Manually unblocked IP "@ + dotted(ip),
                ),
                ..view.dashboard
            },
        }),
{
}

/// A source that the kernel let go of is forgotten and logged, and nothing else
/// on display changes.
pub proof fn law_a_block_that_is_over_is_forgotten(view: ControllerView, ip: u32, now: u64)
    ensures
        view.replied(Request::Expire { ip }, true, now) == (ControllerView {
            blocked: view.blocked.remove(ip),
            dashboard: DashboardView {
                logs: view.dashboard.logs.push("[*] [TTL-EXPIRED] Unblocked IP "@ + dotted(ip)),
                ..view.dashboard
            },
        }),
{
}

/// A block of an anomalous source is known from that moment on. It is logged
/// unless the feed is paused, and nothing else on display changes.
pub proof fn law_an_anomalous_source_is_blocked(
    view: ControllerView,
    ip: u32,
    packets: u64,
    bytes: u64,
    now: u64,
)
    ensures
        ({
            let request = Request::AiBlock { ip, packets, bytes };
            let after = view.replied(request, true, now);
            &&& after.blocked == view.blocked.insert(ip, now)
            &&& view.dashboard.paused ==> after.dashboard == view.dashboard
            &&& !view.dashboard.paused ==> after.dashboard == (DashboardView {
                logs: view.dashboard.logs.push(
                    "[*] [AI-BLOCK] Blocked IP "@ + dotted(ip) + " ("@ + rate(packets)
                        + " p/s) for "@ + seq!['6', '0'] + "s"@,
                ),
                ..view.dashboard
            })
        }),
{
    law_a_line_is_about_the_request(ip, packets, bytes);
}

/// What the kernel did not grant changes nothing.
pub proof fn law_nothing_comes_of_what_is_not_granted(
    view: ControllerView,
    request: Request,
    now: u64,
)
    ensures
        view.replied(request, false, now) == view,
{
}

/// The traffic on display is replaced by that of the last second, the totals
/// grow by its packets and bytes, and nothing else changes.
pub proof fn law_a_second_replaces_the_traffic(view: ControllerView, sweep: SweepView)
    ensures
        ({
            let after = view.swept(sweep);
            &&& after.blocked == view.blocked
            &&& after.dashboard.active_ips == sweep.active
            &&& after.dashboard.blocked_ips == view.dashboard.blocked_ips
            &&& after.dashboard.logs == view.dashboard.logs
            &&& after.dashboard.paused == view.dashboard.paused
            &&& view.dashboard.total_packets + sweep.packets <= u64::MAX
                ==> after.dashboard.total_packets == view.dashboard.total_packets + sweep.packets
            &&& view.dashboard.total_packets + sweep.packets > u64::MAX
                ==> after.dashboard.total_packets == view.dashboard.total_packets + sweep.packets
                - 0x1_0000_0000_0000_0000
            &&& view.dashboard.total_bytes + sweep.bytes <= u64::MAX
                ==> after.dashboard.total_bytes == view.dashboard.total_bytes + sweep.bytes
            &&& view.dashboard.total_bytes + sweep.bytes > u64::MAX ==> after.dashboard.total_bytes
                == view.dashboard.total_bytes + sweep.bytes - 0x1_0000_0000_0000_0000
        }),
{
}

/// The first log line names the interface and the mode.
pub proof fn law_the_first_line_names_interface_and_mode(iface: Seq<char>)
    ensures
        attached_line(iface, true) == "[*] AI Firewall attached to '"@ + iface + "' in "@
            + "XDP (native)"@ + " mode. Waiting for traffic..."@,
        attached_line(iface, false) == "[*] AI Firewall attached to '"@ + iface + "' in "@
            + "XDP (generic/SKB)"@ + " mode. Waiting for traffic..."@,
{
}

/// A line that is logged comes last in the log, and changes nothing else.
pub proof fn law_a_line_comes_last(view: ControllerView, line: Seq<char>)
    ensures
        view.logging(line).blocked == view.blocked,
        view.logging(line).dashboard == (DashboardView {
            logs: view.dashboard.logs.push(line),
            ..view.dashboard
        }),
{
}

/// The view of a controller is what it holds.
pub proof fn law_a_controller_is_seen_as_it_is(controller: Controller)
    ensures
        controller@.blocked == controller.blocked@,
        controller@.dashboard == controller.dashboard@,
{
}

/// An address that the user types to be blocked, four numbers of a byte each
/// with dots between them, is the one whose frames are dropped once the kernel
/// grants it: those that hold the four bytes as their source. The controller
/// knows it as blocked from then on. Every other address is left alone.
pub proof fn law_a_typed_address_is_blocked(
    input: InputView,
    view: ControllerView,
    tables: KernelTables,
    frame: Seq<u8>,
    now: u64,
    other: u32,
)
    requires
        input.mode == InputMode::Normal,
        frame.len() >= 34,
        frame[12] == 0x08 && frame[13] == 0x00,
    ensures
        ({
            let text = decimal(frame[26] as nat) + seq!['.'] + decimal(frame[27] as nat) + seq!['.']
                + decimal(frame[28] as nat) + seq!['.'] + decimal(frame[29] as nat);
            let ip = (frame[26] * 0x100_0000 + frame[27] * 0x1_0000 + frame[28] * 0x100
                + frame[29]) as u32;
            let typed = input.after(Key::Char('b')).typing(text);
            &&& typed.action(Key::Enter) matches UserAction::Ask(request)
            &&& {
                let replies = seq![Reply { request, granted: true, now }];
                let listed = listed_after(tables.blocklist, replies);
                let after = KernelTables { blocklist: listed, metrics: tables.metrics };
                let known = view.replied(request, true, now).blocked;
                &&& listed.contains_key(ip) && listed[ip] == 1
                &&& after.outcome(frame).verdict == Verdict::Drop
                &&& known.contains_key(ip) && known[ip] == now
                &&& other != ip ==> listed.contains_key(other) == tables.blocklist.contains_key(
                    other,
                )
                &&& other != ip ==> known.contains_key(other) == view.blocked.contains_key(other)
            }
        }),
{
    let ip = (frame[26] * 0x100_0000 + frame[27] * 0x1_0000 + frame[28] * 0x100 + frame[29]) as u32;
    law_an_address_reads_as_its_bytes(frame[26], frame[27], frame[28], frame[29]);
    law_a_typed_address_is_acted_on(input, ip, false);
    let replies = seq![Reply { request: Request::ManualBlock { ip }, granted: true, now }];
    assert(replies.drop_last() =~= Seq::<Reply>::empty());
    assert(replies.last() == replies[0]);
    reveal_with_fuel(listed_after, 2);
}

/// An address that the user types to be unblocked is the one whose frames pass
/// again once the kernel grants it, and that the controller does not know as
/// blocked any more. Every other address is left alone.
pub proof fn law_a_typed_address_is_unblocked(
    input: InputView,
    view: ControllerView,
    tables: KernelTables,
    frame: Seq<u8>,
    now: u64,
    other: u32,
)
    requires
        input.mode == InputMode::Normal,
        frame.len() >= 34,
        frame[12] == 0x08 && frame[13] == 0x00,
    ensures
        ({
            let text = decimal(frame[26] as nat) + seq!['.'] + decimal(frame[27] as nat) + seq!['.']
                + decimal(frame[28] as nat) + seq!['.'] + decimal(frame[29] as nat);
            let ip = (frame[26] * 0x100_0000 + frame[27] * 0x1_0000 + frame[28] * 0x100
                + frame[29]) as u32;
            let typed = input.after(Key::Char('u')).typing(text);
            &&& typed.action(Key::Enter) matches UserAction::Ask(request)
            &&& {
                let replies = seq![Reply { request, granted: true, now }];
                let listed = listed_after(tables.blocklist, replies);
                let after = KernelTables { blocklist: listed, metrics: tables.metrics };
                let known = view.replied(request, true, now).blocked;
                &&& !listed.contains_key(ip)
                &&& after.outcome(frame).verdict == Verdict::Pass
                &&& !known.contains_key(ip)
                &&& other != ip ==> listed.contains_key(other) == tables.blocklist.contains_key(
                    other,
                )
                &&& other != ip ==> known.contains_key(other) == view.blocked.contains_key(other)
            }
        }),
{
    let ip = (frame[26] * 0x100_0000 + frame[27] * 0x1_0000 + frame[28] * 0x100 + frame[29]) as u32;
    law_an_address_reads_as_its_bytes(frame[26], frame[27], frame[28], frame[29]);
    law_a_typed_address_is_acted_on(input, ip, false);
    let replies = seq![Reply { request: Request::ManualUnblock { ip }, granted: true, now }];
    assert(replies.drop_last() =~= Seq::<Reply>::empty());
    assert(replies.last() == replies[0]);
    reveal_with_fuel(listed_after, 2);
}

/// The view of an alert that may be is that of the alert, if there is one.
pub proof fn law_an_alert_is_seen_if_there_is_one(log: AlertLog)
    ensures
        alert_view(Some(log)) == Some(log@),
        alert_view(None) is None,
{
}

} // verus!
