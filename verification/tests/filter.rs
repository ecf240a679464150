use ai_firewall::filter::{
    ai_firewall, blocklist_reply, metrics_reply, metrics_written, try_ai_firewall, FilterOutcome,
    FilterStep, MetricsWrite, Verdict,
};
use ai_firewall::metrics::{KernelMetrics, PacketInfo, Protocol};
use ai_firewall::packet::{parse_frame, source_of};

/// A frame of the given length that carries IPv4 from 192.168.1.10.
fn frame(len: usize, proto: u8, flags: u8) -> Vec<u8> {
    let mut bytes = vec![0u8; len];
    bytes[12] = 0x08;
    bytes[13] = 0x00;
    bytes[14] = 0x45;
    bytes[23] = proto;
    bytes[26] = 192;
    bytes[27] = 168;
    bytes[28] = 1;
    bytes[29] = 10;
    if len >= 48 {
        bytes[47] = flags;
    }
    bytes
}

const SRC: u32 = 0xc0a8_010a;

#[test]
fn a_frame_names_its_source_in_host_order() {
    assert_eq!(source_of(&frame(60, 17, 0)), Some(SRC));
}

#[test]
fn a_tcp_segment_with_syn_alone_opens_a_connection() {
    let info = parse_frame(&frame(60, 6, 0x02)).unwrap();
    assert_eq!(info, PacketInfo { src_ip: SRC, proto: Protocol::Tcp, len: 60, syn: true });
    assert!(!parse_frame(&frame(60, 6, 0x12)).unwrap().syn);
    assert!(!parse_frame(&frame(60, 6, 0x10)).unwrap().syn);
    assert!(parse_frame(&frame(60, 6, 0xc2)).unwrap().syn);
    assert!(!parse_frame(&frame(60, 17, 0x02)).unwrap().syn);
}

#[test]
fn a_cut_tcp_header_opens_nothing() {
    assert!(!parse_frame(&frame(53, 6, 0x02)).unwrap().syn);
    assert!(parse_frame(&frame(54, 6, 0x02)).unwrap().syn);
}

#[test]
fn protocols_go_by_their_numbers() {
    assert_eq!(parse_frame(&frame(60, 6, 0)).unwrap().proto, Protocol::Tcp);
    assert_eq!(parse_frame(&frame(60, 17, 0)).unwrap().proto, Protocol::Udp);
    assert_eq!(parse_frame(&frame(60, 1, 0)).unwrap().proto, Protocol::Icmp);
    assert_eq!(parse_frame(&frame(60, 47, 0)).unwrap().proto, Protocol::Other);
}

#[test]
fn short_frames_and_other_ethertypes_are_not_read() {
    assert_eq!(parse_frame(&[]), None);
    assert_eq!(parse_frame(&[0u8; 13]), None);
    assert_eq!(parse_frame(&frame(34, 17, 0)[..33]), None);
    assert!(parse_frame(&frame(34, 17, 0)).is_some());
    let mut arp = frame(60, 17, 0);
    arp[13] = 0x06;
    assert_eq!(parse_frame(&arp), None);
    assert_eq!(source_of(&arp), None);
}

#[test]
fn other_frames_pass_unseen() {
    assert_eq!(try_ai_firewall(&[0u8; 20]), FilterStep::Finish(Verdict::Pass));
    assert_eq!(
        ai_firewall(&[0u8; 20], true, None),
        FilterOutcome { verdict: Verdict::Pass, write: None }
    );
}

#[test]
fn frames_from_blocked_sources_are_dropped_uncounted() {
    let counted = KernelMetrics { packet_count: 5, ..KernelMetrics::default() };
    assert_eq!(
        ai_firewall(&frame(60, 17, 0), true, Some(counted)),
        FilterOutcome { verdict: Verdict::Drop, write: None }
    );
}

#[test]
fn a_first_frame_starts_the_counters() {
    let expected = KernelMetrics {
        packet_count: 1,
        bytes_count: 74,
        tcp_count: 1,
        udp_count: 0,
        icmp_count: 0,
        syn_count: 1,
        last_seen_ts: 0,
    };
    assert_eq!(
        ai_firewall(&frame(74, 6, 0x02), false, None),
        FilterOutcome {
            verdict: Verdict::Pass,
            write: Some(MetricsWrite::Insert(SRC, expected))
        }
    );
}

#[test]
fn a_later_frame_adds_to_the_counters() {
    let before = KernelMetrics {
        packet_count: 9,
        bytes_count: 1000,
        tcp_count: 4,
        udp_count: 3,
        icmp_count: 2,
        syn_count: 1,
        last_seen_ts: 77,
    };
    let after = KernelMetrics { packet_count: 10, bytes_count: 1060, icmp_count: 3, ..before };
    assert_eq!(
        ai_firewall(&frame(60, 1, 0), false, Some(before)),
        FilterOutcome { verdict: Verdict::Pass, write: Some(MetricsWrite::Update(SRC, after)) }
    );
}

#[test]
fn the_steps_do_what_the_whole_does() {
    let bytes = frame(60, 17, 0);
    let info = match try_ai_firewall(&bytes) {
        FilterStep::CheckBlocklist(info) => info,
        other => panic!("{:?}", other),
    };
    assert_eq!(blocklist_reply(info, true), FilterStep::Finish(Verdict::Drop));
    assert_eq!(blocklist_reply(info, false), FilterStep::FetchMetrics(info));
    let write = ai_firewall(&bytes, false, None).write.unwrap();
    match (metrics_reply(info, None), write) {
        (FilterStep::InsertMetrics(src, m), MetricsWrite::Insert(src2, m2)) => {
            assert_eq!((src, m), (src2, m2));
        }
        other => panic!("{:?}", other),
    }
    assert_eq!(metrics_written(false), FilterStep::Finish(Verdict::Pass));
    assert_eq!(metrics_written(true), FilterStep::Finish(Verdict::Pass));
}

#[test]
fn verdicts_have_the_codes_of_the_kernel() {
    assert_eq!(Verdict::Drop.code(), 1);
    assert_eq!(Verdict::Pass.code(), 2);
}

#[test]
fn counters_wrap_at_the_end_of_their_width() {
    let mut m = KernelMetrics {
        packet_count: u64::MAX,
        bytes_count: u64::MAX - 1,
        tcp_count: u32::MAX,
        syn_count: u32::MAX,
        ..KernelMetrics::default()
    };
    m.record(&PacketInfo { src_ip: 1, proto: Protocol::Tcp, len: 60, syn: true });
    assert_eq!(m.packet_count, 0);
    assert_eq!(m.bytes_count, 58);
    assert_eq!(m.tcp_count, 0);
    assert_eq!(m.syn_count, 0);
}

#[test]
fn counting_frame_by_frame_tallies_them() {
    let frames = vec![
        frame(60, 6, 0x02),
        frame(100, 17, 0),
        frame(60, 6, 0x10),
        frame(42, 1, 0),
        frame(50, 89, 0),
    ];
    let mut table: Option<KernelMetrics> = None;
    for bytes in &frames {
        match ai_firewall(bytes, false, table).write {
            Some(MetricsWrite::Insert(_, m)) => {
                assert!(table.is_none());
                table = Some(m);
            }
            Some(MetricsWrite::Update(_, m)) => {
                assert!(table.is_some());
                table = Some(m);
            }
            None => panic!("not counted"),
        }
    }
    assert_eq!(
        table.unwrap(),
        KernelMetrics {
            packet_count: 5,
            bytes_count: 312,
            tcp_count: 2,
            udp_count: 1,
            icmp_count: 1,
            syn_count: 1,
            last_seen_ts: 0,
        }
    );
}

#[test]
fn the_first_packet_counts_like_any_other() {
    let info = PacketInfo { src_ip: 1, proto: Protocol::Tcp, len: 60, syn: true };
    let mut m = KernelMetrics::default();
    m.record(&info);
    assert_eq!(m, KernelMetrics::first(&info));
    assert!(m.tcp_count + m.udp_count + m.icmp_count <= m.packet_count as u32);
    assert!(m.syn_count <= m.tcp_count);
}

/// Takes a frame through the steps, where the tables answer so. Returns the
/// outcome and how many answers it took.
fn run(
    bytes: &[u8],
    listed: bool,
    found: Option<KernelMetrics>,
    stored: bool,
) -> (FilterOutcome, usize) {
    let mut step = try_ai_firewall(bytes);
    let mut write = None;
    for turns in 0..4 {
        step = match step {
            FilterStep::CheckBlocklist(info) => blocklist_reply(info, listed),
            FilterStep::FetchMetrics(info) => metrics_reply(info, found),
            FilterStep::UpdateMetrics(src, m) => {
                write = Some(MetricsWrite::Update(src, m));
                metrics_written(stored)
            }
            FilterStep::InsertMetrics(src, m) => {
                write = Some(MetricsWrite::Insert(src, m));
                metrics_written(stored)
            }
            FilterStep::Finish(verdict) => return (FilterOutcome { verdict, write }, turns),
        }
    }
    panic!("no verdict");
}

#[test]
fn the_steps_end_in_the_outcome() {
    let seen = KernelMetrics { packet_count: 7, bytes_count: 700, ..KernelMetrics::default() };
    for bytes in [frame(60, 6, 0x02), frame(60, 17, 0), frame(34, 1, 0), vec![0u8; 10]] {
        for listed in [false, true] {
            for found in [None, Some(seen)] {
                for stored in [false, true] {
                    let (outcome, turns) = run(&bytes, listed, found, stored);
                    assert_eq!(outcome, ai_firewall(&bytes, listed, found));
                    let expected = if bytes.len() < 34 {
                        0
                    } else if listed {
                        1
                    } else {
                        3
                    };
                    assert_eq!(turns, expected);
                }
            }
        }
    }
}
