use proxmox_exporter::counter::parse_counter;
use proxmox_exporter::number::{digit_of, parse_digits, render};
use proxmox_exporter::ProxmoxExporter;

#[test]
fn counter_starts_at_the_increment() {
    assert_eq!(ProxmoxExporter::add_or_create(None, 25000), "25000");
    assert_eq!(ProxmoxExporter::add_or_create(None, 0), "0");
}

#[test]
fn counter_adds_to_what_is_there() {
    assert_eq!(ProxmoxExporter::add_or_create(Some("25000"), 25000), "50000");
    assert_eq!(ProxmoxExporter::add_or_create(Some("0"), 7), "7");
    assert_eq!(ProxmoxExporter::add_or_create(Some("999"), 1), "1000");
    assert_eq!(ProxmoxExporter::add_or_create(Some("41"), 0), "41");
}

#[test]
fn counter_in_two_steps_or_in_one() {
    for (a, b) in [(0u64, 0u64), (1, 2), (25000, 25000), (999, 1), (u64::MAX - 5, 5), (0, u64::MAX)] {
        let first = ProxmoxExporter::add_or_create(None, a);
        let second = ProxmoxExporter::add_or_create(Some(&first), b);
        assert_eq!(second, (a + b).to_string());
        assert_eq!(second, ProxmoxExporter::add_or_create(None, a + b));
    }
}

#[test]
fn counter_drops_content_that_is_no_number() {
    for content in ["", "garbage", "12abc", "-5", "1.5", " 12", "12\n", "12 ", "0x1f", "1_000", "+", "١٢"] {
        assert_eq!(ProxmoxExporter::add_or_create(Some(content), 42), "42", "{content:?}");
    }
}

#[test]
fn counter_drops_content_too_large_to_hold() {
    assert_eq!(ProxmoxExporter::add_or_create(Some("18446744073709551616"), 42), "42");
    assert_eq!(ProxmoxExporter::add_or_create(Some("99999999999999999999999999"), 1), "1");
}

#[test]
fn counter_reads_sign_and_leading_zeros() {
    assert_eq!(ProxmoxExporter::add_or_create(Some("+10"), 5), "15");
    assert_eq!(ProxmoxExporter::add_or_create(Some("0010"), 5), "15");
    assert_eq!(ProxmoxExporter::add_or_create(Some("+0010"), 5), "15");
}

#[test]
fn counter_stays_full_once_full() {
    let full = u64::MAX.to_string();
    assert_eq!(ProxmoxExporter::add_or_create(Some(&full), 1), full);
    assert_eq!(ProxmoxExporter::add_or_create(Some("18446744073709551610"), 100), full);
    assert_eq!(ProxmoxExporter::add_or_create(Some(&full), 0), full);
    assert_eq!(ProxmoxExporter::add_or_create(None, u64::MAX), full);
}

#[test]
fn counter_never_decreases() {
    let mut content: Option<String> = None;
    let mut last = 0u64;
    for increment in [5u64, 0, 17, u64::MAX / 2, u64::MAX / 2, 3, 0, 9] {
        let next = ProxmoxExporter::add_or_create(content.as_deref(), increment);
        let total = parse_counter(&next).unwrap();
        assert!(total >= last);
        last = total;
        content = Some(next);
    }
    assert_eq!(last, u64::MAX);
}

#[test]
fn parse_counter_agrees_with_std() {
    let contents = [
        "", "0", "7", "42", "007", "+7", "+", "++7", "-7", "7+", "18446744073709551615",
        "18446744073709551616", "+18446744073709551615", "1 ", " 1", "1\n", "a", "1a", "a1",
        "٣", "1.0", "00000000000000000000000000001",
    ];
    for content in contents {
        assert_eq!(parse_counter(content), content.parse::<u64>().ok(), "{content:?}");
    }
}

#[test]
fn render_agrees_with_std() {
    for value in [0u64, 1, 9, 10, 11, 99, 100, 101, 25000, 1234567890, u64::MAX - 1, u64::MAX] {
        assert_eq!(render(value), value.to_string());
        assert_eq!(parse_counter(&render(value)), Some(value));
    }
}

#[test]
fn parse_digits_reads_digits_only() {
    let chars = |text: &str| -> Vec<char> { text.chars().collect() };
    assert_eq!(parse_digits(&chars("0")), Some(0));
    assert_eq!(parse_digits(&chars("0123")), Some(123));
    assert_eq!(parse_digits(&chars("18446744073709551615")), Some(u64::MAX));
    assert_eq!(parse_digits(&chars("18446744073709551616")), None);
    assert_eq!(parse_digits(&chars("184467440737095516150")), None);
    assert_eq!(parse_digits(&chars("")), None);
    assert_eq!(parse_digits(&chars("+1")), None);
    assert_eq!(parse_digits(&chars("12a")), None);
    assert_eq!(parse_digits(&chars("99999999999999999999x")), None);
}

#[test]
fn digit_of_knows_the_ten_digits() {
    for (value, c) in "0123456789".chars().enumerate() {
        assert_eq!(digit_of(c), Some(value as u8));
    }
    for c in ['/', ':', 'a', ' ', '+', '-', '.', '٣', '０'] {
        assert_eq!(digit_of(c), None);
    }
}
