use ai_firewall::controller::{Controller, NANOS_PER_SEC};
use ai_firewall::events::{read_event, read_event_in_order, PacketCounter, PacketEvent};
use ai_firewall::metrics::KernelMetrics;
use ai_firewall::model::ModelConfig;
use ai_firewall::request::{BlocklistChange, Request};
use ai_firewall::sweep::Sweep;

const SEC: u64 = NANOS_PER_SEC;

fn metrics(packets: u64, bytes: u64) -> KernelMetrics {
    KernelMetrics { packet_count: packets, bytes_count: bytes, ..KernelMetrics::default() }
}

#[test]
fn requests_change_the_block_list() {
    assert_eq!(
        Request::AiBlock { ip: 1, packets: 2, bytes: 3 }.change(),
        BlocklistChange::Insert(1, 1)
    );
    assert_eq!(Request::ManualBlock { ip: 4 }.change(), BlocklistChange::Insert(4, 1));
    assert_eq!(Request::ManualUnblock { ip: 5 }.change(), BlocklistChange::Remove(5));
    assert_eq!(Request::Expire { ip: 6 }.change(), BlocklistChange::Remove(6));
}

#[test]
fn the_first_log_line_tells_how_the_program_is_attached() {
    let mut c = Controller::new();
    c.attached("wlan0", true);
    c.attached("lo", false);
    assert_eq!(
        c.dashboard.logs,
        vec![
            "[*] AI Firewall attached to 'wlan0' in XDP (native) mode. Waiting for traffic...",
            "[*] AI Firewall attached to 'lo' in XDP (generic/SKB) mode. Waiting for traffic...",
        ]
    );
}

#[test]
fn an_anomalous_source_is_blocked_logged_and_reported() {
    let mut c = Controller::new();
    let log = c
        .reply(Request::AiBlock { ip: 0x0a00_0001, packets: 1500, bytes: 90_000 }, true, 5, 99)
        .unwrap();
    assert_eq!(log.timestamp, 99);
    assert_eq!(log.event_type, "AI-BLOCK");
    assert_eq!(log.ip, "10.0.0.1");
    assert_eq!(log.packet_rate, Some(1500));
    assert_eq!(log.bytes_rate, Some(90_000));
    assert_eq!(c.dashboard.logs, vec!["[*] [AI-BLOCK] Blocked IP 10.0.0.1 (1500 p/s) for 60s"]);
    assert_eq!(c.blocked.get(&0x0a00_0001), Some(&5));
}

#[test]
fn a_paused_feed_hides_only_the_lines_about_anomalous_sources() {
    let mut c = Controller::new();
    c.dashboard.toggle_pause();
    assert!(c.reply(Request::AiBlock { ip: 1, packets: 2, bytes: 3 }, true, 0, 0).is_some());
    assert!(c.dashboard.logs.is_empty());
    assert!(c.blocked.contains_key(&1));
    c.reply(Request::ManualBlock { ip: 2 }, true, 0, 0);
    assert_eq!(c.dashboard.logs, vec!["[*] [MANUAL-BLOCK] Manually blocked IP 0.0.0.2"]);
    c.dashboard.toggle_pause();
    c.reply(Request::AiBlock { ip: 3, packets: 2, bytes: 3 }, true, 0, 0);
    assert_eq!(c.dashboard.logs.len(), 2);
}

#[test]
fn the_user_blocks_and_unblocks() {
    let mut c = Controller::new();
    let log = c.reply(Request::ManualBlock { ip: 0x0808_0808 }, true, 7, 1).unwrap();
    assert_eq!((log.event_type.as_str(), log.ip.as_str()), ("MANUAL-BLOCK", "8.8.8.8"));
    assert_eq!((log.packet_rate, log.bytes_rate), (None, None));
    let log = c.reply(Request::ManualUnblock { ip: 0x0808_0808 }, true, 8, 2).unwrap();
    assert_eq!((log.event_type.as_str(), log.timestamp), ("MANUAL-UNBLOCK", 2));
    assert!(c.blocked.is_empty());
    assert_eq!(
        c.dashboard.logs,
        vec![
            "[*] [MANUAL-BLOCK] Manually blocked IP 8.8.8.8",
            "[*] [MANUAL-UNBLOCK] Manually unblocked IP 8.8.8.8",
        ]
    );
}

#[test]
fn what_the_kernel_does_not_grant_changes_nothing() {
    let mut c = Controller::new();
    c.reply(Request::ManualBlock { ip: 1 }, true, 3, 0);
    for request in [
        Request::AiBlock { ip: 2, packets: 1, bytes: 1 },
        Request::ManualBlock { ip: 2 },
        Request::ManualUnblock { ip: 1 },
        Request::Expire { ip: 1 },
    ] {
        assert!(c.reply(request, false, 9, 9).is_none());
    }
    assert_eq!(c.blocked.len(), 1);
    assert_eq!(c.blocked.get(&1), Some(&3));
    assert_eq!(c.dashboard.logs.len(), 1);
}

#[test]
fn a_block_lasts_sixty_seconds_to_the_nanosecond() {
    let mut c = Controller::new();
    c.reply(Request::ManualBlock { ip: 1 }, true, 10, 0);
    c.reply(Request::ManualBlock { ip: 2 }, true, 20, 0);
    assert!(c.expired(5).is_empty());
    assert!(c.expired(60 * SEC + 9).is_empty());
    assert_eq!(c.expired(60 * SEC + 10), vec![1]);
    let mut both = c.expired(60 * SEC + 20);
    both.sort();
    assert_eq!(both, vec![1, 2]);
    let log = c.reply(Request::Expire { ip: 1 }, true, 60 * SEC + 10, 4).unwrap();
    assert_eq!((log.event_type.as_str(), log.ip.as_str()), ("TTL-EXPIRED", "0.0.0.1"));
    assert_eq!(c.dashboard.logs.last().unwrap(), "[*] [TTL-EXPIRED] Unblocked IP 0.0.0.1");
    assert_eq!(c.expired(60 * SEC + 20), vec![2]);
}

#[test]
fn a_source_that_is_not_let_go_is_tried_again() {
    let mut c = Controller::new();
    c.reply(Request::ManualBlock { ip: 1 }, true, 0, 0);
    assert!(c.reply(Request::Expire { ip: 1 }, false, 60 * SEC, 0).is_none());
    assert_eq!(c.expired(61 * SEC), vec![1]);
}

#[test]
fn blocking_again_begins_the_time_anew() {
    let mut c = Controller::new();
    c.reply(Request::ManualBlock { ip: 1 }, true, 0, 0);
    c.reply(Request::AiBlock { ip: 1, packets: 0, bytes: 0 }, true, 30 * SEC, 0);
    assert!(c.expired(60 * SEC).is_empty());
    assert_eq!(c.expired(90 * SEC), vec![1]);
}

#[test]
fn the_list_on_display_counts_down() {
    let mut c = Controller::new();
    c.reply(Request::ManualBlock { ip: 1 }, true, 0, 0);
    c.reply(Request::ManualBlock { ip: 2 }, true, 5 * SEC, 0);
    c.refresh(10 * SEC + 1);
    let mut rows = c.dashboard.blocked_ips.clone();
    rows.sort();
    assert_eq!(rows, vec![("0.0.0.1".to_string(), 50), ("0.0.0.2".to_string(), 55)]);
    c.refresh(0);
    assert!(c.dashboard.blocked_ips.iter().all(|row| row.1 == 60));
    c.refresh(1000 * SEC);
    assert!(c.dashboard.blocked_ips.iter().all(|row| row.1 == 0));
}

#[test]
fn refreshing_discards_the_oldest_lines_of_a_long_log() {
    let mut c = Controller::new();
    for i in 0..100 {
        c.dashboard.push_log(format!("{}", i));
    }
    c.refresh(0);
    assert_eq!(c.dashboard.logs.len(), 100);
    c.dashboard.push_log("100".to_string());
    c.refresh(0);
    assert_eq!(c.dashboard.logs.len(), 51);
    assert_eq!(c.dashboard.logs[0], "50");
    assert_eq!(c.dashboard.logs[50], "100");
}

#[test]
fn a_sweep_collects_every_sample() {
    let mut c = Controller::new();
    let mut sweep = Sweep::new();
    assert_eq!(sweep.observe(0x0a00_0001, &metrics(10, 2048), false), None);
    assert_eq!(
        sweep.observe(0x0a00_0002, &metrics(500, 30_000), true),
        Some(Request::AiBlock { ip: 0x0a00_0002, packets: 500, bytes: 30_000 })
    );
    c.finish_sweep(sweep);
    assert_eq!(c.dashboard.total_packets, 510);
    assert_eq!(c.dashboard.total_bytes, 32_048);
    assert_eq!(
        c.dashboard.active_ips,
        vec![
            ("10.0.0.1".to_string(), 10, 2048, false),
            ("10.0.0.2".to_string(), 500, 30_000, true),
        ]
    );
    let mut next = Sweep::new();
    next.observe(3, &metrics(1, 1), false);
    c.finish_sweep(next);
    assert_eq!(c.dashboard.active_ips.len(), 1);
    assert_eq!(c.dashboard.total_packets, 511);
    assert_eq!(c.dashboard.total_bytes, 32_049);
}

#[test]
fn totals_wrap_at_the_end_of_their_width() {
    let mut c = Controller::new();
    c.dashboard.total_packets = u64::MAX;
    let mut sweep = Sweep::new();
    sweep.observe(1, &metrics(u64::MAX, 0), false);
    sweep.observe(2, &metrics(3, 0), false);
    assert_eq!(sweep.packets, 2);
    c.finish_sweep(sweep);
    assert_eq!(c.dashboard.total_packets, 1);
}

#[test]
fn a_source_is_blocked_from_its_hundred_and_first_packet_on() {
    let mut counter = PacketCounter::new();
    let event = PacketEvent { src_ip: 9, dst_port: 80, protocol: 6 };
    let other = PacketEvent { src_ip: 8, dst_port: 53, protocol: 17 };
    for n in 1..=100u32 {
        assert_eq!(counter.observe(&event), (n, false));
        assert_eq!(counter.observe(&other).0, n);
    }
    assert_eq!(counter.observe(&event), (101, true));
    assert_eq!(counter.observe(&event), (102, true));
}

#[test]
fn a_source_is_blocked_if_and_only_if_it_is_judged_anomalous() {
    let mut c = Controller::new();
    let mut sweep = Sweep::new();
    assert_eq!(sweep.judge(&None, &[], 100, 1, &metrics(100, 7)), None);
    assert_eq!(
        sweep.judge(&None, &[], 100, 2, &metrics(101, 8)),
        Some(Request::AiBlock { ip: 2, packets: 101, bytes: 8 })
    );
    let centroids = vec![vec![0u64], vec![0u64]];
    let model = Some(ModelConfig { centroids, anomaly_cluster_index: 1 });
    let near = 1.0f64.to_bits();
    let far = 2.0f64.to_bits();
    assert_eq!(sweep.judge(&model, &[near, far], 100, 3, &metrics(9000, 9)), None);
    assert_eq!(
        sweep.judge(&model, &[far, near], 100, 4, &metrics(5, 10)),
        Some(Request::AiBlock { ip: 4, packets: 5, bytes: 10 })
    );
    c.finish_sweep(sweep);
    let judgements: Vec<bool> = c.dashboard.active_ips.iter().map(|row| row.3).collect();
    assert_eq!(judgements, vec![false, true, false, true]);
    assert_eq!((c.dashboard.total_packets, c.dashboard.total_bytes), (9206, 34));
}

#[test]
fn a_record_tells_of_a_packet() {
    let record = [0x01, 0x02, 0xa8, 0xc0, 0xbb, 0x01, 6, 0];
    let least_first = PacketEvent { src_ip: 0xc0a8_0201, dst_port: 443, protocol: 6 };
    let most_first = PacketEvent { src_ip: 0x0102_a8c0, dst_port: 0xbb01, protocol: 6 };
    assert_eq!(read_event_in_order(&record, true), Some(least_first));
    assert_eq!(read_event_in_order(&record, false), Some(most_first));
    let mut longer = record.to_vec();
    longer.push(0xff);
    assert_eq!(read_event_in_order(&longer, true), Some(least_first));
    assert_eq!(read_event_in_order(&record[..7], true), None);
    assert_eq!(read_event_in_order(&[], false), None);
    for order in [true, false] {
        assert_eq!(
            read_event_in_order(&[0xff; 8], order),
            Some(PacketEvent { src_ip: u32::MAX, dst_port: u16::MAX, protocol: u8::MAX })
        );
    }
}

#[test]
fn a_record_is_read_in_the_order_of_this_machine() {
    let event = PacketEvent { src_ip: 0xc0a8_0201, dst_port: 443, protocol: 17 };
    let mut record = event.src_ip.to_ne_bytes().to_vec();
    record.extend_from_slice(&event.dst_port.to_ne_bytes());
    record.extend_from_slice(&[event.protocol, 0]);
    assert_eq!(read_event(&record), Some(event));
    assert_eq!(read_event(&record[..7]), None);
}
