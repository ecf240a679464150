use ai_firewall::text::{decimal_text, dotted_text, parse_ipv4, push_decimal};
use ai_firewall::units::{exceeds, kilobytes_text, rate_text};

#[test]
fn numbers_are_written_in_decimal() {
    for n in [0u128, 7, 10, 99, 100, 12345, u64::MAX as u128, 1 << 64] {
        assert_eq!(decimal_text(n), format!("{}", n));
    }
    let mut s = "n=".to_string();
    push_decimal(&mut s, 1024);
    assert_eq!(s, "n=1024");
}

#[test]
fn addresses_are_written_in_dotted_decimal() {
    assert_eq!(dotted_text(0x0808_0808), "8.8.8.8");
    assert_eq!(dotted_text(0xc0a8_010a), "192.168.1.10");
    assert_eq!(dotted_text(0), "0.0.0.0");
    assert_eq!(dotted_text(u32::MAX), "255.255.255.255");
}

#[test]
fn reading_an_address_undoes_writing_it() {
    let mut ip: u32 = 1;
    for _ in 0..2000 {
        ip = ip.wrapping_mul(1_664_525).wrapping_add(1_013_904_223);
        assert_eq!(parse_ipv4(&dotted_text(ip)), Some(ip));
    }
}

#[test]
fn only_canonical_dotted_decimal_is_read() {
    assert_eq!(parse_ipv4("127.0.0.1"), Some(0x7f00_0001));
    for text in [
        "",
        ".",
        "1.2.3",
        "1.2.3.",
        "1.2.3.4.",
        ".1.2.3.4",
        "1..2.3",
        "1.2.3.4.5",
        "256.0.0.1",
        "1.2.3.999",
        "01.2.3.4",
        "1.2.3.00",
        " 1.2.3.4",
        "1.2.3.4 ",
        "1.2.3.a",
        "+1.2.3.4",
        "0x1.2.3.4",
        "16909060",
        "1,2,3,4",
        "1.2.3.\u{663}",
        "1111111111111111111111111111111111",
    ] {
        assert_eq!(parse_ipv4(text), None, "{}", text);
    }
}

#[test]
fn rates_read_as_double_precision_numbers_do() {
    let mut counts = vec![0u64, 1, 101, (1 << 53) - 1, 1 << 53, (1 << 53) + 1, (1 << 53) + 3];
    counts.extend([(1 << 54) + 2, (1 << 54) + 6, u64::MAX, u64::MAX - 1023, u64::MAX - 1024]);
    let mut n: u64 = 1;
    for _ in 0..5000 {
        n = n.wrapping_mul(6_364_136_223_846_793_005).wrapping_add(1_442_695_040_888_963_407);
        counts.push(n);
        counts.push(n >> 8);
        counts.push(n >> 40);
    }
    for n in counts {
        assert_eq!(rate_text(n), format!("{:.0}", n as f64));
    }
}

#[test]
fn kilobytes_read_as_double_precision_numbers_do() {
    let mut counts: Vec<u64> = (0..5000).collect();
    counts.extend([256, 768, 1280, (1 << 53) + 1, u64::MAX]);
    let mut n: u64 = 1;
    for _ in 0..5000 {
        n = n.wrapping_mul(6_364_136_223_846_793_005).wrapping_add(1_442_695_040_888_963_407);
        counts.push(n);
        counts.push(n >> 12);
        counts.push(n >> 44);
    }
    for n in counts {
        assert_eq!(kilobytes_text(n), format!("{:.1} KB", n as f64 / 1024.0));
    }
    assert_eq!(kilobytes_text(1536), "1.5 KB");
    assert_eq!(kilobytes_text(256), "0.2 KB");
    assert_eq!(kilobytes_text(768), "0.8 KB");
}

#[test]
fn a_threshold_is_exceeded_as_double_precision_numbers_are() {
    for threshold in [0u32, 1, 100, u32::MAX] {
        for n in [0u64, 1, 2, 99, 100, 101, u32::MAX as u64, u32::MAX as u64 + 1, u64::MAX] {
            assert_eq!(exceeds(n, threshold), n as f64 > threshold as f64);
        }
    }
}
