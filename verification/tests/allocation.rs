use proxmox_exporter::allocation::parse_decimal;
use proxmox_exporter::{Decimal, ProxmoxExporter};

fn decimal(text: &str) -> Option<(u64, usize)> {
    parse_decimal(text).map(|number| (number.mantissa, number.scale))
}

#[test]
fn allocate_a_quarter_of_the_host() {
    assert_eq!(ProxmoxExporter::allocate("25.0", "100000"), Some(25000));
    assert_eq!(ProxmoxExporter::allocate("25", "100000"), Some(25000));
}

#[test]
fn allocate_rounds_down() {
    assert_eq!(ProxmoxExporter::allocate("33.3", "100"), Some(33));
    assert_eq!(ProxmoxExporter::allocate("99.999", "100"), Some(99));
    assert_eq!(ProxmoxExporter::allocate("1", "99"), Some(0));
    assert_eq!(ProxmoxExporter::allocate("1", "100"), Some(1));
    assert_eq!(ProxmoxExporter::allocate("50", "3"), Some(1));
    assert_eq!(ProxmoxExporter::allocate("12.5", "1000.8"), Some(125));
}

#[test]
fn allocate_is_exact_where_binary_fractions_are_not() {
    // 0.57 has no exact binary form: 0.57 * 10000 / 100 falls just short of 57 there.
    assert_eq!(ProxmoxExporter::allocate("0.57", "10000"), Some(57));
    assert_eq!(ProxmoxExporter::allocate("0.29", "10000"), Some(29));
    assert_eq!(ProxmoxExporter::allocate("33.333333333333336", "300"), Some(100));
}

#[test]
fn allocate_nothing_for_no_cpu_time() {
    for energy in ["0", "1", "100000", "18446744073709551615", "12.75"] {
        assert_eq!(ProxmoxExporter::allocate("0", energy), Some(0));
        assert_eq!(ProxmoxExporter::allocate("0.000", energy), Some(0));
    }
}

#[test]
fn allocate_nothing_of_no_energy() {
    for percentage in ["0", "0.5", "25.0", "100", "18446744073709551615"] {
        assert_eq!(ProxmoxExporter::allocate(percentage, "0"), Some(0));
        assert_eq!(ProxmoxExporter::allocate(percentage, "0.0"), Some(0));
    }
}

#[test]
fn allocate_all_of_it_at_one_hundred_percent() {
    assert_eq!(ProxmoxExporter::allocate("100", "123456789"), Some(123456789));
    assert_eq!(ProxmoxExporter::allocate("100.0", "18446744073709551615"), Some(u64::MAX));
}

#[test]
fn allocate_stops_at_the_largest_value() {
    assert_eq!(ProxmoxExporter::allocate("200", "18446744073709551615"), Some(u64::MAX));
    assert_eq!(
        ProxmoxExporter::allocate("18446744073709551615", "18446744073709551615"),
        Some(u64::MAX)
    );
    assert_eq!(
        ProxmoxExporter::allocate("99.99999999", "18446744073709551615"),
        Some(18446744071864877207)
    );
}

#[test]
fn allocate_with_long_fractions() {
    assert_eq!(ProxmoxExporter::allocate("0.0000000000000000000000001", "100000"), Some(0));
    assert_eq!(
        ProxmoxExporter::allocate("10.00000000000000000", "1000.00000000000000000"),
        None
    );
    assert_eq!(ProxmoxExporter::allocate("10.0000000", "1000.0000000"), Some(100));
}

#[test]
fn allocate_refuses_what_is_no_number() {
    for text in ["", "abc", "1e3", "NaN", "inf", "-5", "1,5", "1.2.3", ".", "+", " 5", "5 ", "0x10"] {
        assert_eq!(ProxmoxExporter::allocate(text, "100"), None, "{text:?}");
        assert_eq!(ProxmoxExporter::allocate("50", text), None, "{text:?}");
    }
}

#[test]
fn decimal_reads_digits_around_one_point() {
    assert_eq!(decimal("0"), Some((0, 0)));
    assert_eq!(decimal("25.0"), Some((250, 1)));
    assert_eq!(decimal("25"), Some((25, 0)));
    assert_eq!(decimal("0.125"), Some((125, 3)));
    assert_eq!(decimal("007.50"), Some((750, 2)));
    assert_eq!(decimal(".5"), Some((5, 1)));
    assert_eq!(decimal("5."), Some((5, 0)));
    assert_eq!(decimal("+3.25"), Some((325, 2)));
    assert_eq!(decimal("18446744073709551615"), Some((u64::MAX, 0)));
    assert_eq!(decimal("1844674407370955161.5"), Some((u64::MAX, 1)));
}

#[test]
fn decimal_refuses_the_rest() {
    for text in ["", ".", "+", "+.", "-1", "1-", "1e5", "1.2.3", "1..2", "++1", "1+", "٣", "1 "] {
        assert_eq!(decimal(text), None, "{text:?}");
    }
    assert_eq!(decimal("18446744073709551616"), None);
    assert_eq!(decimal("1844674407370955161.6"), None);
    assert_eq!(decimal("99999999999999999999999"), None);
}

#[test]
fn percent_of_multiplies_then_divides() {
    let quarter = Decimal { mantissa: 250, scale: 1 };
    let energy = Decimal { mantissa: 100000, scale: 0 };
    assert_eq!(quarter.percent_of(&energy), 25000);
    let tiny = Decimal { mantissa: 1, scale: usize::MAX };
    let huge = Decimal { mantissa: u64::MAX, scale: usize::MAX };
    assert_eq!(tiny.percent_of(&huge), 0);
    assert_eq!(huge.percent_of(&huge), 0);
    let all = Decimal { mantissa: u64::MAX, scale: 0 };
    assert_eq!(all.percent_of(&all), u64::MAX);
}
