use ai_firewall::controller::{Controller, NANOS_PER_SEC};
use ai_firewall::filter::{ai_firewall, Verdict};
use ai_firewall::metrics::KernelMetrics;
use ai_firewall::request::{BlocklistChange, Request};
use ai_firewall::sweep::{ask_reply, Round, SweepStep};
use std::collections::{BTreeMap, BTreeSet};

/// A block list that takes in only so many sources, and lets go only of those
/// that it holds.
struct BlockList {
    sources: BTreeMap<u32, u32>,
    room: usize,
}

impl BlockList {
    fn apply(&mut self, request: Request) -> bool {
        match request.change() {
            BlocklistChange::Insert(ip, value) => {
                if self.sources.contains_key(&ip) || self.sources.len() < self.room {
                    self.sources.insert(ip, value);
                    true
                } else {
                    false
                }
            }
            BlocklistChange::Remove(ip) => self.sources.remove(&ip).is_some(),
        }
    }

    fn listed(&self) -> BTreeSet<u32> {
        self.sources.keys().copied().collect()
    }
}

fn known(c: &Controller) -> BTreeSet<u32> {
    c.blocked.keys().copied().collect()
}

fn frame_from(ip: u32) -> Vec<u8> {
    let mut bytes = vec![0u8; 60];
    bytes[12] = 0x08;
    bytes[23] = 17;
    bytes[26..30].copy_from_slice(&ip.to_be_bytes());
    bytes
}

#[test]
fn controller_and_kernel_agree_through_every_request() {
    let mut list = BlockList { sources: BTreeMap::new(), room: 3 };
    let mut c = Controller::new();
    let mut n: u32 = 5;
    for turn in 0..500u64 {
        n = n.wrapping_mul(1_664_525).wrapping_add(1_013_904_223);
        let ip = (n >> 8) % 6;
        let request = match (n >> 16) % 4 {
            0 => Request::AiBlock { ip, packets: 1, bytes: 2 },
            1 => Request::ManualBlock { ip },
            2 => Request::ManualUnblock { ip },
            _ => Request::Expire { ip },
        };
        let granted = list.apply(request);
        assert_eq!(c.reply(request, granted, turn, turn).is_some(), granted);
        assert_eq!(known(&c), list.listed());
        for src in 0..6u32 {
            let verdict = ai_firewall(&frame_from(src), list.sources.contains_key(&src), None).verdict;
            assert_eq!(verdict == Verdict::Drop, c.blocked.contains_key(&src));
        }
    }
}

#[test]
fn expiry_lets_go_of_the_expired_alone() {
    let mut list = BlockList { sources: BTreeMap::new(), room: 100 };
    let mut c = Controller::new();
    for ip in 1..=10u32 {
        let request = Request::ManualBlock { ip };
        let granted = list.apply(request);
        c.reply(request, granted, ip as u64 * NANOS_PER_SEC, 0);
    }
    let now = 65 * NANOS_PER_SEC;
    for ip in c.expired(now) {
        let request = Request::Expire { ip };
        let granted = list.apply(request);
        assert!(c.reply(request, granted, now, 0).is_some());
    }
    assert!(c.expired(now).is_empty());
    assert_eq!(known(&c), (6..=10).collect::<BTreeSet<u32>>());
    assert_eq!(known(&c), list.listed());
    c.refresh(now);
    assert_eq!(c.dashboard.blocked_ips.len(), 5);
    assert!(c.dashboard.blocked_ips.contains(&("0.0.0.7".to_string(), 2)));
}

#[test]
fn unblocking_takes_back_blocking() {
    let mut c = Controller::new();
    c.reply(Request::ManualBlock { ip: 1 }, true, 3, 0);
    let before = c.blocked.clone();
    c.reply(Request::ManualBlock { ip: 2 }, true, 4, 0);
    c.reply(Request::ManualUnblock { ip: 2 }, true, 5, 0);
    assert_eq!(c.blocked, before);
}

#[test]
fn a_clean_up_shows_the_block_list() {
    let mut list = BlockList { sources: BTreeMap::new(), room: 20 };
    let mut c = Controller::new();
    let mut n: u32 = 11;
    for turn in 0..300u64 {
        let now = turn * NANOS_PER_SEC + NANOS_PER_SEC / 3;
        n = n.wrapping_mul(1_664_525).wrapping_add(1_013_904_223);
        let ip = (n >> 8) % 30;
        let request = if (n >> 16) % 5 == 0 {
            Request::ManualUnblock { ip }
        } else {
            Request::AiBlock { ip, packets: 1, bytes: 2 }
        };
        let granted = list.apply(request);
        c.reply(request, granted, now, turn);

        let tick = now + NANOS_PER_SEC / 2;
        let expired = c.expired(tick);
        // The user is sometimes quicker to unblock one.
        if turn % 2 == 0 && !expired.is_empty() {
            let request = Request::ManualUnblock { ip: expired[0] };
            let granted = list.apply(request);
            c.reply(request, granted, tick, turn);
        }
        for ip in expired {
            let request = Request::Expire { ip };
            let granted = list.apply(request);
            c.reply(request, granted, tick, turn);
        }
        c.refresh(tick);

        let shown: BTreeSet<String> = c.dashboard.blocked_ips.iter().map(|r| r.0.clone()).collect();
        let expected: BTreeSet<String> =
            list.listed().iter().map(|ip| format!("0.0.0.{}", ip)).collect();
        assert_eq!(shown, expected);
        assert_eq!(c.dashboard.blocked_ips.len(), list.sources.len());
        assert!(c.dashboard.blocked_ips.iter().all(|row| 1 <= row.1 && row.1 <= 60));
        assert!(list.sources.values().all(|value| *value == 1));
    }
}

/// Takes a round through its steps, over the given sources. Without a model, a
/// source with more than a hundred packets is anomalous.
fn sweep(
    c: &mut Controller,
    list: &mut BlockList,
    counters: &mut BTreeMap<u32, KernelMetrics>,
    keys: Vec<u32>,
) {
    let mut round = Round::new(keys);
    let mut step = round.proceed();
    loop {
        step = match step {
            SweepStep::Fetch(ip) => {
                round.fetch_reply(&None, &[], 100, ip, counters.get(&ip).copied())
            }
            SweepStep::Ask(request) => {
                let granted = list.apply(request);
                c.reply(request, granted, 0, 0);
                ask_reply(request, granted)
            }
            SweepStep::Discard(ip) => round.discard_reply(counters.remove(&ip).is_some()),
            SweepStep::Finish => break,
        }
    }
    c.finish_sweep(round.sweep);
}

fn tcp_only(packets: u64, bytes: u64) -> KernelMetrics {
    KernelMetrics {
        packet_count: packets,
        bytes_count: bytes,
        tcp_count: packets as u32,
        ..KernelMetrics::default()
    }
}

#[test]
fn a_round_over_all_sources_empties_the_table() {
    let mut list = BlockList { sources: BTreeMap::new(), room: 10 };
    let mut c = Controller::new();
    let mut counters = BTreeMap::new();
    counters.insert(0x0a00_0001, tcp_only(100, 6000));
    counters.insert(0x0a00_0002, tcp_only(101, 6060));
    sweep(&mut c, &mut list, &mut counters, vec![0x0a00_0001, 0x0a00_0002]);
    assert!(counters.is_empty());
    assert_eq!(list.sources, BTreeMap::from([(0x0a00_0002, 1)]));
    assert_eq!(
        c.dashboard.active_ips,
        vec![
            ("10.0.0.1".to_string(), 100, 6000, false),
            ("10.0.0.2".to_string(), 101, 6060, true),
        ]
    );
    assert_eq!((c.dashboard.total_packets, c.dashboard.total_bytes), (201, 12_060));

    counters.insert(5, tcp_only(1, 60));
    sweep(&mut c, &mut list, &mut counters, vec![5]);
    assert!(counters.is_empty());
    assert_eq!(c.dashboard.active_ips, vec![("0.0.0.5".to_string(), 1, 60, false)]);
    assert_eq!((c.dashboard.total_packets, c.dashboard.total_bytes), (202, 12_120));
}

#[test]
fn a_round_discards_what_it_looks_up_and_nothing_else() {
    // No room in the block list: what is not granted is discarded no less.
    let mut list = BlockList { sources: BTreeMap::new(), room: 0 };
    let mut c = Controller::new();
    let mut counters = BTreeMap::new();
    counters.insert(1, tcp_only(500, 1));
    counters.insert(2, tcp_only(5, 1));
    counters.insert(3, tcp_only(7, 1));
    // Source 9 has no counters, and source 1 comes up twice.
    sweep(&mut c, &mut list, &mut counters, vec![1, 9, 2, 1]);
    assert_eq!(counters.keys().copied().collect::<Vec<u32>>(), vec![3]);
    assert!(list.sources.is_empty());
    assert_eq!(c.dashboard.active_ips.len(), 2);
    assert_eq!(c.dashboard.total_packets, 505);
    sweep(&mut c, &mut list, &mut counters, vec![]);
    assert_eq!(counters.len(), 1);
    assert!(c.dashboard.active_ips.is_empty());
}
