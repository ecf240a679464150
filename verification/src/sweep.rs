//! What is done with the counters once a second: each source's are looked up,
//! judged and discarded, and a block is asked for where they are anomalous.

use crate::controller::{listed_after, ControllerView, Reply};
use crate::dashboard::active_view;
use crate::metrics::{wrap64, KernelMetrics};
use crate::model::{is_anomaly, judged, ModelConfig};
use crate::request::{Request, BLOCKED_FLAG};
use crate::text::{dotted, dotted_text};
use vstd::prelude::*;

verus! {

/// The counters of one source at the end of a second, and the judgement of
/// them.
pub struct Sample {
    pub src_ip: u32,
    pub metrics: KernelMetrics,
    pub anomaly: bool,
}

/// What has been collected of one second.
pub struct Sweep {
    pub active: Vec<(String, u64, u64, bool)>,
    pub packets: u64,
    pub bytes: u64,
}

#[verifier::ext_equal]
pub struct SweepView {
    pub active: Seq<(Seq<char>, u64, u64, bool)>,
    pub packets: u64,
    pub bytes: u64,
}

impl View for Sweep {
    type V = SweepView;

    open spec fn view(&self) -> SweepView {
        SweepView { active: active_view(self.active@), packets: self.packets, bytes: self.bytes }
    }
}

pub open spec fn active_row(sample: Sample) -> (Seq<char>, u64, u64, bool) {
    (
        dotted(sample.src_ip),
        sample.metrics.packet_count,
        sample.metrics.bytes_count,
        sample.anomaly,
    )
}

pub open spec fn sum_packets(samples: Seq<Sample>) -> int
    decreases samples.len(),
{
    if samples.len() == 0 {
        0
    } else {
        sum_packets(samples.drop_last()) + samples.last().metrics.packet_count
    }
}

pub open spec fn sum_bytes(samples: Seq<Sample>) -> int
    decreases samples.len(),
{
    if samples.len() == 0 {
        0
    } else {
        sum_bytes(samples.drop_last()) + samples.last().metrics.bytes_count
    }
}

/// What should have been collected of some samples. The sums wrap at the end of
/// their width.
pub open spec fn sweep_of(samples: Seq<Sample>) -> SweepView {
    SweepView {
        active: samples.map_values(|sample: Sample| active_row(sample)),
        packets: wrap64(sum_packets(samples)),
        bytes: wrap64(sum_bytes(samples)),
    }
}

impl SweepView {
    pub open spec fn observing(self, sample: Sample) -> SweepView {
        SweepView {
            active: self.active.push(active_row(sample)),
            packets: wrap64(self.packets + sample.metrics.packet_count),
            bytes: wrap64(self.bytes + sample.metrics.bytes_count),
        }
    }
}

/// The request to block a source for its counters.
pub open spec fn block_of(src_ip: u32, metrics: KernelMetrics) -> Request {
    Request::AiBlock {
        ip: src_ip,
        packets: metrics.packet_count,
        bytes: metrics.bytes_count,
    }
}

impl Sweep {
    /// Nothing collected.
    pub fn new() -> (sweep: Sweep)
        ensures
            sweep@ == sweep_of(Seq::empty()),
    {
        let sweep = Sweep { active: Vec::new(), packets: 0, bytes: 0 };
        assert(sweep@ =~= sweep_of(Seq::empty()));
        sweep
    }

    /// Collects a sample. Returns the request to block an anomalous source.
    pub fn observe(&mut self, src_ip: u32, metrics: &KernelMetrics, anomaly: bool) -> (request:
        Option<Request>)
        ensures
            final(self)@ == old(self)@.observing(Sample { src_ip, metrics: *metrics, anomaly }),
            request == (if anomaly {
                Some(block_of(src_ip, *metrics))
            } else {
                None
            }),
    {
        self.packets = self.packets.wrapping_add(metrics.packet_count);
        self.bytes = self.bytes.wrapping_add(metrics.bytes_count);
        self.active.push(
            (dotted_text(src_ip), metrics.packet_count, metrics.bytes_count, anomaly),
        );
        assert(self@ =~= old(self)@.observing(Sample { src_ip, metrics: *metrics, anomaly }));
        if anomaly {
            Some(
                Request::AiBlock {
                    ip: src_ip,
                    packets: metrics.packet_count,
                    bytes: metrics.bytes_count,
                },
            )
        } else {
            None
        }
    }

    /// Judges the counters of a source and collects them as a sample. Returns
    /// the request to block the source, if and only if they are judged
    /// anomalous.
    pub fn judge(
        &mut self,
        model: &Option<ModelConfig>,
        distances: &[u64],
        threshold: u32,
        src_ip: u32,
        metrics: &KernelMetrics,
    ) -> (request: Option<Request>)
        requires
            model matches Some(model) ==> distances@.len() == model.centroids@.len(),
        ensures
            ({
                let anomaly = judged(*model, distances@, metrics.packet_count, threshold);
                &&& final(self)@ == old(self)@.observing(
                    Sample { src_ip, metrics: *metrics, anomaly },
                )
                &&& request == (if anomaly {
                    Some(block_of(src_ip, *metrics))
                } else {
                    None
                })
            }),
    {
        let anomaly = is_anomaly(model, distances, metrics.packet_count, threshold);
        self.observe(src_ip, metrics, anomaly)
    }
}

/// Sample by sample, a sweep collects all the samples: a row for each, in their
/// order, and the sums of their packets and bytes.
pub proof fn law_a_sweep_collects_every_sample(samples: Seq<Sample>, sample: Sample)
    ensures
        sweep_of(samples.push(sample)) == sweep_of(samples).observing(sample),
{
    assert(samples.push(sample).drop_last() =~= samples);
    assert(sweep_of(samples.push(sample)) =~= sweep_of(samples).observing(sample));
}

/// What to do next in a round over the counters.
#[derive(Clone, Copy, Debug, PartialEq, Eq, Structural)]
pub enum SweepStep {
    /// Look up the counters of a source.
    Fetch(u32),
    /// Put a request to the block list.
    Ask(Request),
    /// Discard the counters of a source.
    Discard(u32),
    /// Put what was collected on display.
    Finish,
}

/// A round over the counters of some sources. Those before `at` have had their
/// turn.
pub struct Round {
    pub keys: Vec<u32>,
    pub at: usize,
    pub sweep: Sweep,
}

/// The sources whose turn is yet to come, and what has been collected.
#[verifier::ext_equal]
pub struct RoundView {
    pub pending: Seq<u32>,
    pub sweep: SweepView,
}

impl View for Round {
    type V = RoundView;

    open spec fn view(&self) -> RoundView {
        RoundView { pending: self.keys@.skip(self.at as int), sweep: self.sweep@ }
    }
}

/// The round over some sources, with nothing collected.
pub open spec fn round_over(keys: Seq<u32>) -> RoundView {
    RoundView { pending: keys, sweep: sweep_of(Seq::empty()) }
}

impl RoundView {
    /// On to the next source, if there is one.
    pub open spec fn proceeding(self) -> (RoundView, SweepStep) {
        if self.pending.len() == 0 {
            (self, SweepStep::Finish)
        } else {
            (
                RoundView { pending: self.pending.drop_first(), ..self },
                SweepStep::Fetch(self.pending[0]),
            )
        }
    }

    /// The counters of a source were looked up. Those that were found are
    /// collected, and then discarded: at once, or after a block was asked for
    /// if they are anomalous.
    pub open spec fn fetching(
        self,
        src_ip: u32,
        found: Option<KernelMetrics>,
        anomaly: bool,
    ) -> (RoundView, SweepStep) {
        match found {
            None => self.proceeding(),
            Some(metrics) => (
                RoundView {
                    sweep: self.sweep.observing(Sample { src_ip, metrics, anomaly }),
                    ..self
                },
                if anomaly {
                    SweepStep::Ask(block_of(src_ip, metrics))
                } else {
                    SweepStep::Discard(src_ip)
                },
            ),
        }
    }
}

/// The step after a block was asked for, granted or not.
pub open spec fn after_asking(request: Request, granted: bool) -> SweepStep {
    SweepStep::Discard(request.ip())
}

/// Goes on after a block was asked for. The counters are discarded whether or
/// not it was granted.
pub fn ask_reply(request: Request, granted: bool) -> (step: SweepStep)
    ensures
        step == after_asking(request, granted),
{
    let _ = granted;
    match request {
        Request::AiBlock { ip, .. } => SweepStep::Discard(ip),
        Request::ManualBlock { ip } => SweepStep::Discard(ip),
        Request::ManualUnblock { ip } => SweepStep::Discard(ip),
        Request::Expire { ip } => SweepStep::Discard(ip),
    }
}

impl Round {
    pub open spec fn wf(self) -> bool {
        self.at <= self.keys@.len()
    }

    /// A round over some sources.
    pub fn new(keys: Vec<u32>) -> (round: Round)
        ensures
            round.wf(),
            round@ == round_over(keys@),
    {
        let round = Round { keys, at: 0, sweep: Sweep::new() };
        assert(round@ =~= round_over(keys@));
        round
    }

    /// Begins, or goes on to the next source.
    pub fn proceed(&mut self) -> (step: SweepStep)
        requires
            old(self).wf(),
        ensures
            final(self).wf(),
            (final(self)@, step) == old(self)@.proceeding(),
    {
        if self.at == self.keys.len() {
            return SweepStep::Finish;
        }
        let src_ip: u32 = self.keys[self.at];
        self.at = self.at + 1;
        assert(self@ =~= old(self)@.proceeding().0);
        SweepStep::Fetch(src_ip)
    }

    /// Goes on after the counters of a source were looked up. The distances are
    /// those of the counters that were found.
    pub fn fetch_reply(
        &mut self,
        model: &Option<ModelConfig>,
        distances: &[u64],
        threshold: u32,
        src_ip: u32,
        found: Option<KernelMetrics>,
    ) -> (step: SweepStep)
        requires
            old(self).wf(),
            found is Some ==> (model matches Some(model) ==> distances@.len()
                == model.centroids@.len()),
        ensures
            final(self).wf(),
            (final(self)@, step) == old(self)@.fetching(
                src_ip,
                found,
                found matches Some(metrics) && judged(
                    *model,
                    distances@,
                    metrics.packet_count,
                    threshold,
                ),
            ),
    {
        match found {
            None => self.proceed(),
            Some(metrics) => match self.sweep.judge(
                model,
                distances,
                threshold,
                src_ip,
                &metrics,
            ) {
                Some(request) => SweepStep::Ask(request),
                None => SweepStep::Discard(src_ip),
            },
        }
    }

    /// Goes on after the counters of a source were discarded, or were gone
    /// already.
    pub fn discard_reply(&mut self, removed: bool) -> (step: SweepStep)
        requires
            old(self).wf(),
        ensures
            final(self).wf(),
            (final(self)@, step) == old(self)@.proceeding(),
    {
        let _ = removed;
        self.proceed()
    }
}

/// The table of counters during a round, and the replies to what was asked in
/// it.
#[verifier::ext_equal]
pub struct SweepTables {
    pub counters: Map<u32, KernelMetrics>,
    pub replies: Seq<Reply>,
}

/// How many steps a source takes at most from one on.
pub open spec fn steps_left(step: SweepStep) -> nat {
    match step {
        SweepStep::Fetch(_) => 3,
        SweepStep::Ask(_) => 2,
        SweepStep::Discard(_) => 1,
        SweepStep::Finish => 0,
    }
}

/// What a round collects from one step on, and what it leaves in the tables, if
/// nobody else writes to them meanwhile. Which counters are anomalous is a
/// matter of `anomalous`, and which requests are granted, and when, one of
/// `answer`.
pub open spec fn run_round(
    round: RoundView,
    step: SweepStep,
    tables: SweepTables,
    anomalous: spec_fn(KernelMetrics) -> bool,
    answer: spec_fn(Request) -> (bool, u64),
) -> (SweepView, SweepTables)
    decreases round.pending.len(), steps_left(step),
{
    match step {
        SweepStep::Fetch(src_ip) => {
            let found = if tables.counters.contains_key(src_ip) {
                Some(tables.counters[src_ip])
            } else {
                None
            };
            let (round, step) = round.fetching(
                src_ip,
                found,
                found matches Some(metrics) && anomalous(metrics),
            );
            run_round(round, step, tables, anomalous, answer)
        },
        SweepStep::Ask(request) => {
            let (granted, now) = answer(request);
            run_round(
                round,
                after_asking(request, granted),
                SweepTables {
                    replies: tables.replies.push(Reply { request, granted, now }),
                    ..tables
                },
                anomalous,
                answer,
            )
        },
        SweepStep::Discard(src_ip) => {
            let (round, step) = round.proceeding();
            run_round(
                round,
                step,
                SweepTables { counters: tables.counters.remove(src_ip), ..tables },
                anomalous,
                answer,
            )
        },
        SweepStep::Finish => (round.sweep, tables),
    }
}

/// The whole round over some sources.
pub open spec fn whole_round(
    keys: Seq<u32>,
    counters: Map<u32, KernelMetrics>,
    anomalous: spec_fn(KernelMetrics) -> bool,
    answer: spec_fn(Request) -> (bool, u64),
) -> (SweepView, SweepTables) {
    let (round, step) = round_over(keys).proceeding();
    run_round(round, step, SweepTables { counters, replies: Seq::empty() }, anomalous, answer)
}

/// The samples of some sources, in their order.
pub open spec fn samples_of(
    keys: Seq<u32>,
    counters: Map<u32, KernelMetrics>,
    anomalous: spec_fn(KernelMetrics) -> bool,
) -> Seq<Sample> {
    keys.map_values(
        |src_ip: u32|
            Sample { src_ip, metrics: counters[src_ip], anomaly: anomalous(counters[src_ip]) },
    )
}

/// The reply to the request to block a sample's source.
pub open spec fn reply_for(sample: Sample, answer: spec_fn(Request) -> (bool, u64)) -> Reply {
    let request = block_of(sample.src_ip, sample.metrics);
    Reply { request, granted: answer(request).0, now: answer(request).1 }
}

/// The replies to the blocks that some samples give rise to.
pub open spec fn replies_for(
    samples: Seq<Sample>,
    answer: spec_fn(Request) -> (bool, u64),
) -> Seq<Reply>
    decreases samples.len(),
{
    if samples.len() == 0 {
        Seq::empty()
    } else {
        let earlier = replies_for(samples.drop_last(), answer);
        if samples.last().anomaly {
            earlier.push(reply_for(samples.last(), answer))
        } else {
            earlier
        }
    }
}

proof fn lemma_replies_for_concat(
    a: Seq<Sample>,
    b: Seq<Sample>,
    answer: spec_fn(Request) -> (bool, u64),
)
    ensures
        replies_for(a + b, answer) == replies_for(a, answer) + replies_for(b, answer),
    decreases b.len(),
{
    if b.len() == 0 {
        assert(a + b =~= a);
    } else {
        assert((a + b).drop_last() =~= a + b.drop_last());
        lemma_replies_for_concat(a, b.drop_last(), answer);
    }
}

/// A round that stands before some sources discards the counters of all of
/// them.
proof fn lemma_round_discards(
    round: RoundView,
    tables: SweepTables,
    anomalous: spec_fn(KernelMetrics) -> bool,
    answer: spec_fn(Request) -> (bool, u64),
)
    ensures
        ({
            let (next, step) = round.proceeding();
            run_round(next, step, tables, anomalous, answer).1.counters
                == tables.counters.remove_keys(round.pending.to_set())
        }),
    decreases round.pending.len(),
{
    reveal_with_fuel(run_round, 4);
    let keys = round.pending;
    if keys.len() == 0 {
        assert(tables.counters.remove_keys(keys.to_set()) =~= tables.counters);
    } else {
        let src_ip = keys[0];
        let rest = keys.drop_first();
        let (next, _) = round.proceeding();
        assert(keys =~= seq![src_ip] + rest);
        assert(keys.to_set() =~= rest.to_set().insert(src_ip));
        if tables.counters.contains_key(src_ip) {
            let metrics = tables.counters[src_ip];
            let (collected, _) = next.fetching(src_ip, Some(metrics), anomalous(metrics));
            let left = SweepTables {
                counters: tables.counters.remove(src_ip),
                replies: if anomalous(metrics) {
                    let request = block_of(src_ip, metrics);
                    let (granted, now) = answer(request);
                    tables.replies.push(Reply { request, granted, now })
                } else {
                    tables.replies
                },
            };
            lemma_round_discards(collected, left, anomalous, answer);
            assert(left.counters.remove_keys(rest.to_set()) =~= tables.counters.remove_keys(
                keys.to_set(),
            ));
        } else {
            lemma_round_discards(next, tables, anomalous, answer);
            assert(tables.counters.remove_keys(rest.to_set()) =~= tables.counters.remove_keys(
                keys.to_set(),
            ));
        }
    }
}

/// A round that stands before some sources collects all of them, each once.
proof fn lemma_round_collects(
    round: RoundView,
    tables: SweepTables,
    earlier: Seq<Sample>,
    anomalous: spec_fn(KernelMetrics) -> bool,
    answer: spec_fn(Request) -> (bool, u64),
)
    requires
        round.sweep == sweep_of(earlier),
        round.pending.no_duplicates(),
        forall|i: int|
            0 <= i < round.pending.len() ==> tables.counters.contains_key(
                #[trigger] round.pending[i],
            ),
    ensures
        ({
            let (next, step) = round.proceeding();
            let (sweep, end) = run_round(next, step, tables, anomalous, answer);
            let samples = samples_of(round.pending, tables.counters, anomalous);
            &&& sweep == sweep_of(earlier + samples)
            &&& end.replies == tables.replies + replies_for(samples, answer)
        }),
    decreases round.pending.len(),
{
    reveal_with_fuel(run_round, 4);
    let keys = round.pending;
    let samples = samples_of(keys, tables.counters, anomalous);
    if keys.len() == 0 {
        assert(earlier + samples =~= earlier);
    } else {
        let src_ip = keys[0];
        let rest = keys.drop_first();
        let (next, _) = round.proceeding();
        let metrics = tables.counters[src_ip];
        let anomaly = anomalous(metrics);
        let sample = Sample { src_ip, metrics, anomaly };
        let (collected, _) = next.fetching(src_ip, Some(metrics), anomaly);
        let left = SweepTables {
            counters: tables.counters.remove(src_ip),
            replies: if anomaly {
                tables.replies.push(reply_for(sample, answer))
            } else {
                tables.replies
            },
        };
        assert(tables.counters.contains_key(keys[0]));
        assert forall|i: int| 0 <= i < rest.len() implies left.counters.contains_key(
            #[trigger] rest[i],
        ) by {
            assert(rest[i] == keys[i + 1]);
            assert(keys[i + 1] != keys[0]);
        }
        law_a_sweep_collects_every_sample(earlier, sample);
        lemma_round_collects(collected, left, earlier.push(sample), anomalous, answer);
        let later = samples_of(rest, left.counters, anomalous);
        assert(samples =~= seq![sample] + later) by {
            assert forall|i: int| 0 <= i < rest.len() implies keys[i + 1] == #[trigger] rest[i]
                && rest[i] != src_ip by {
                assert(keys[i + 1] != keys[0]);
            }
        }
        assert(earlier.push(sample) + later =~= earlier + samples);
        lemma_replies_for_concat(seq![sample], later, answer);
        assert(seq![sample].drop_last() =~= Seq::empty());
        reveal_with_fuel(replies_for, 2);
        assert(left.replies =~= tables.replies + replies_for(seq![sample], answer));
        assert(left.replies + replies_for(later, answer) =~= tables.replies + replies_for(
            samples,
            answer,
        ));
    }
}

/// Whatever a round looks up it discards, anomalous or not, and whether or not
/// a block was granted: the counters of the sources that it goes over are gone
/// at its end, and those of other sources are what they were.
pub proof fn law_a_round_discards_what_it_looks_up(
    keys: Seq<u32>,
    counters: Map<u32, KernelMetrics>,
    anomalous: spec_fn(KernelMetrics) -> bool,
    answer: spec_fn(Request) -> (bool, u64),
)
    ensures
        whole_round(keys, counters, anomalous, answer).1.counters == counters.remove_keys(
            keys.to_set(),
        ),
{
    lemma_round_discards(
        round_over(keys),
        SweepTables { counters, replies: Seq::empty() },
        anomalous,
        answer,
    );
}

/// A round over all the sources in the table of counters leaves it empty, so
/// that the next one finds the counts of one second. It collects one row for
/// each source, and asks for a block of each anomalous one and of no other.
pub proof fn law_a_round_over_all_sources_empties_the_table(
    keys: Seq<u32>,
    counters: Map<u32, KernelMetrics>,
    anomalous: spec_fn(KernelMetrics) -> bool,
    answer: spec_fn(Request) -> (bool, u64),
)
    requires
        keys.no_duplicates(),
        keys.to_set() == counters.dom(),
    ensures
        ({
            let (sweep, end) = whole_round(keys, counters, anomalous, answer);
            let samples = samples_of(keys, counters, anomalous);
            &&& end.counters == Map::<u32, KernelMetrics>::empty()
            &&& sweep == sweep_of(samples)
            &&& sweep.active.len() == counters.dom().len()
            &&& end.replies == replies_for(samples, answer)
        }),
{
    let tables = SweepTables { counters, replies: Seq::empty() };
    let samples = samples_of(keys, counters, anomalous);
    assert forall|i: int| 0 <= i < keys.len() implies counters.contains_key(#[trigger] keys[i]) by {
        assert(keys.to_set().contains(keys[i]));
    }
    law_a_round_discards_what_it_looks_up(keys, counters, anomalous, answer);
    assert(counters.remove_keys(keys.to_set()) =~= Map::<u32, KernelMetrics>::empty());
    lemma_round_collects(round_over(keys), tables, Seq::empty(), anomalous, answer);
    assert(Seq::<Sample>::empty() + samples =~= samples);
    assert(tables.replies + replies_for(samples, answer) =~= replies_for(samples, answer));
    keys.unique_seq_to_set();
}

/// Replies of the kernel leave the traffic on display alone.
proof fn lemma_replies_leave_the_traffic(view: ControllerView, replies: Seq<Reply>)
    ensures
        ({
            let after = view.replied_all(replies).dashboard;
            &&& after.active_ips == view.dashboard.active_ips
            &&& after.total_packets == view.dashboard.total_packets
            &&& after.total_bytes == view.dashboard.total_bytes
        }),
    decreases replies.len(),
{
    if replies.len() > 0 {
        lemma_replies_leave_the_traffic(view, replies.drop_last());
    }
}

/// After a round over all the sources in the table of counters, the traffic on
/// display is that of these sources and of no other, and the totals have grown
/// by their packets and bytes.
pub proof fn law_a_round_is_put_on_display(
    view: ControllerView,
    keys: Seq<u32>,
    counters: Map<u32, KernelMetrics>,
    anomalous: spec_fn(KernelMetrics) -> bool,
    answer: spec_fn(Request) -> (bool, u64),
)
    requires
        keys.no_duplicates(),
        keys.to_set() == counters.dom(),
    ensures
        ({
            let (sweep, end) = whole_round(keys, counters, anomalous, answer);
            let samples = samples_of(keys, counters, anomalous);
            let after = view.replied_all(end.replies).swept(sweep).dashboard;
            &&& after.active_ips == samples.map_values(|sample: Sample| active_row(sample))
            &&& after.total_packets == wrap64(view.dashboard.total_packets + sum_packets(samples))
            &&& after.total_bytes == wrap64(view.dashboard.total_bytes + sum_bytes(samples))
        }),
{
    let (_, end) = whole_round(keys, counters, anomalous, answer);
    law_a_round_over_all_sources_empties_the_table(keys, counters, anomalous, answer);
    lemma_replies_leave_the_traffic(view, end.replies);
}

/// Whether a sample's source was blocked on account of it.
pub open spec fn got_blocked(sample: Sample, answer: spec_fn(Request) -> (bool, u64)) -> bool {
    sample.anomaly && reply_for(sample, answer).granted
}

proof fn lemma_listed_for(
    listed: Map<u32, u32>,
    samples: Seq<Sample>,
    answer: spec_fn(Request) -> (bool, u64),
    ip: u32,
)
    ensures
        ({
            let after = listed_after(listed, replies_for(samples, answer));
            let blocked = exists|i: int|
                0 <= i < samples.len() && (#[trigger] samples[i]).src_ip == ip && got_blocked(
                    samples[i],
                    answer,
                );
            &&& blocked ==> after.contains_key(ip) && after[ip] == BLOCKED_FLAG
            &&& !blocked ==> after.contains_key(ip) == listed.contains_key(ip)
            &&& !blocked && listed.contains_key(ip) ==> after[ip] == listed[ip]
        }),
    decreases samples.len(),
{
    if samples.len() > 0 {
        let earlier = samples.drop_last();
        let last = samples.last();
        lemma_listed_for(listed, earlier, answer, ip);
        assert(forall|i: int| 0 <= i < earlier.len() ==> earlier[i] == #[trigger] samples[i]);
        assert(samples[samples.len() - 1] == last);
        let before = replies_for(earlier, answer);
        if last.anomaly {
            assert(before.push(reply_for(last, answer)).drop_last() =~= before);
        }
        if exists|i: int|
            0 <= i < earlier.len() && (#[trigger] earlier[i]).src_ip == ip && got_blocked(
                earlier[i],
                answer,
            ) {
            let i = choose|i: int|
                0 <= i < earlier.len() && (#[trigger] earlier[i]).src_ip == ip && got_blocked(
                    earlier[i],
                    answer,
                );
            assert(samples[i].src_ip == ip);
        }
    }
}

/// After a round over all the sources in the table of counters, the block list
/// holds the flag for each source whose counters are anomalous and whose block
/// was granted. For every other source it holds what it held.
pub proof fn law_a_round_blocks_the_anomalous(
    listed: Map<u32, u32>,
    keys: Seq<u32>,
    counters: Map<u32, KernelMetrics>,
    anomalous: spec_fn(KernelMetrics) -> bool,
    answer: spec_fn(Request) -> (bool, u64),
    ip: u32,
)
    requires
        keys.no_duplicates(),
        keys.to_set() == counters.dom(),
    ensures
        ({
            let end = whole_round(keys, counters, anomalous, answer).1;
            let after = listed_after(listed, end.replies);
            if counters.contains_key(ip) && anomalous(counters[ip]) && answer(
                block_of(ip, counters[ip]),
            ).0 {
                after.contains_key(ip) && after[ip] == BLOCKED_FLAG
            } else {
                &&& after.contains_key(ip) == listed.contains_key(ip)
                &&& listed.contains_key(ip) ==> after[ip] == listed[ip]
            }
        }),
{
    law_a_round_over_all_sources_empties_the_table(keys, counters, anomalous, answer);
    let samples = samples_of(keys, counters, anomalous);
    lemma_listed_for(listed, samples, answer, ip);
    assert forall|i: int| 0 <= i < samples.len() && (#[trigger] samples[i]).src_ip == ip implies {
        &&& counters.contains_key(ip)
        &&& samples[i].metrics == counters[ip]
    } by {
        assert(keys[i] == ip);
        assert(keys.to_set().contains(ip));
    }
    if counters.contains_key(ip) {
        assert(keys.to_set().contains(ip));
        let i = choose|i: int| 0 <= i < keys.len() && keys[i] == ip;
        assert(samples[i].src_ip == ip);
    }
}

/// A sample adds a row with its source's address, packets, bytes and judgement,
/// and adds its packets and bytes to the sums.
pub proof fn law_a_sample_adds_its_row(sweep: SweepView, sample: Sample)
    ensures
        ({
            let after = sweep.observing(sample);
            &&& after.active.len() == sweep.active.len() + 1
            &&& after.active.drop_last() == sweep.active
            &&& after.active.last().0 == dotted(sample.src_ip)
            &&& after.active.last().1 == sample.metrics.packet_count
            &&& after.active.last().2 == sample.metrics.bytes_count
            &&& after.active.last().3 == sample.anomaly
            &&& sweep.packets + sample.metrics.packet_count <= u64::MAX ==> after.packets
                == sweep.packets + sample.metrics.packet_count
            &&& sweep.packets + sample.metrics.packet_count > u64::MAX ==> after.packets
                == sweep.packets + sample.metrics.packet_count - 0x1_0000_0000_0000_0000
            &&& sweep.bytes + sample.metrics.bytes_count <= u64::MAX ==> after.bytes == sweep.bytes
                + sample.metrics.bytes_count
            &&& sweep.bytes + sample.metrics.bytes_count > u64::MAX ==> after.bytes == sweep.bytes
                + sample.metrics.bytes_count - 0x1_0000_0000_0000_0000
        }),
{
    assert(sweep.observing(sample).active.drop_last() =~= sweep.active);
}

/// At first nothing is collected.
pub proof fn law_at_first_nothing_is_collected(keys: Seq<u32>)
    ensures
        sweep_of(Seq::empty()).active.len() == 0,
        sweep_of(Seq::empty()).packets == 0,
        sweep_of(Seq::empty()).bytes == 0,
        round_over(keys).pending == keys,
        round_over(keys).sweep == sweep_of(Seq::empty()),
{
}

/// The block of a source is asked for under its own address, with the packets
/// and bytes that were counted.
pub proof fn law_a_block_names_its_source(src_ip: u32, metrics: KernelMetrics)
    ensures
        block_of(src_ip, metrics) == (Request::AiBlock {
            ip: src_ip,
            packets: metrics.packet_count,
            bytes: metrics.bytes_count,
        }),
{
}

/// A round takes its sources in their order, each once, and ends after the
/// last.
pub proof fn law_a_round_takes_its_sources_in_order(round: RoundView)
    ensures
        round.pending.len() == 0 ==> round.proceeding() == (round, SweepStep::Finish),
        round.pending.len() > 0 ==> {
            let (next, step) = round.proceeding();
            &&& step == SweepStep::Fetch(round.pending[0])
            &&& seq![round.pending[0]] + next.pending == round.pending
            &&& next.sweep == round.sweep
        },
{
    if round.pending.len() > 0 {
        let (next, _) = round.proceeding();
        assert(seq![round.pending[0]] + next.pending =~= round.pending);
    }
}

/// Counters that were found are collected with their judgement. A block is
/// asked for if they are anomalous, under the address that they were found
/// under; they are discarded if not. Where none were found the round goes on.
pub proof fn law_what_was_found_is_collected(
    round: RoundView,
    src_ip: u32,
    metrics: KernelMetrics,
    anomaly: bool,
)
    ensures
        round.fetching(src_ip, None, anomaly) == round.proceeding(),
        ({
            let (next, step) = round.fetching(src_ip, Some(metrics), anomaly);
            &&& next.pending == round.pending
            &&& next.sweep == round.sweep.observing(Sample { src_ip, metrics, anomaly })
            &&& anomaly ==> step == SweepStep::Ask(
                (Request::AiBlock {
                    ip: src_ip,
                    packets: metrics.packet_count,
                    bytes: metrics.bytes_count,
                }),
            )
            &&& !anomaly ==> step == SweepStep::Discard(src_ip)
        }),
{
}

/// After a block was asked for, the counters under the address that it names
/// are discarded, whatever came of it.
pub proof fn law_the_asked_about_is_discarded(ip: u32, packets: u64, bytes: u64, granted: bool)
    ensures
        after_asking((Request::AiBlock { ip, packets, bytes }), granted) == SweepStep::Discard(ip),
        after_asking((Request::ManualBlock { ip }), granted) == SweepStep::Discard(ip),
        after_asking((Request::ManualUnblock { ip }), granted) == SweepStep::Discard(ip),
        after_asking((Request::Expire { ip }), granted) == SweepStep::Discard(ip),
{
}

/// The views of a sweep and of a round are what they hold.
pub proof fn law_a_round_is_seen_as_it_is(round: Round, i: int)
    ensures
        round@.pending == round.keys@.skip(round.at as int),
        round@.sweep == round.sweep@,
        round.sweep@.packets == round.sweep.packets,
        round.sweep@.bytes == round.sweep.bytes,
        round.sweep@.active.len() == round.sweep.active@.len(),
        0 <= i < round.sweep.active@.len() ==> {
            &&& round.sweep@.active[i].0 == round.sweep.active@[i].0@
            &&& round.sweep@.active[i].1 == round.sweep.active@[i].1
            &&& round.sweep@.active[i].2 == round.sweep.active@[i].2
            &&& round.sweep@.active[i].3 == round.sweep.active@[i].3
        },
{
}

} // verus!
