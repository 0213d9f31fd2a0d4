use speedtest::units::format_bytes;

fn float_formula(bytes: u64) -> String {
    if bytes >= 1_000_000_000 {
        format!("{:.2} GBytes", bytes as f64 / 1_000_000_000.0)
    } else if bytes >= 1_000_000 {
        format!("{:.2} MBytes", bytes as f64 / 1_000_000.0)
    } else if bytes >= 1_000 {
        format!("{:.2} KBytes", bytes as f64 / 1_000.0)
    } else {
        format!("{} Bytes", bytes)
    }
}

#[test]
fn format_bytes_small_counts_are_plain() {
    assert_eq!(format_bytes(0), "0 Bytes");
    assert_eq!(format_bytes(7), "7 Bytes");
    assert_eq!(format_bytes(999), "999 Bytes");
}

#[test]
fn format_bytes_unit_boundaries() {
    assert_eq!(format_bytes(1_000), "1.00 KBytes");
    assert_eq!(format_bytes(1_000_000), "1.00 MBytes");
    assert_eq!(format_bytes(999_999), "1000.00 KBytes");
    assert_eq!(format_bytes(1_000_000_000), "1.00 GBytes");
    assert_eq!(format_bytes(1_536_000_000), "1.54 GBytes");
    assert_eq!(format_bytes(123_456_789), "123.46 MBytes");
}

#[test]
fn format_bytes_ties_follow_the_double() {
    // 1.125 is a double: the tie goes to the even digit.
    assert_eq!(format_bytes(1_125), "1.12 KBytes");
    // 1.005 is not a double; its nearest double lies below the tie.
    assert_eq!(format_bytes(1_005), float_formula(1_005));
    assert_eq!(format_bytes(2_675_000), float_formula(2_675_000));
}

#[test]
fn format_bytes_matches_float_formula_on_every_small_count() {
    for b in 0u64..200_000 {
        assert_eq!(format_bytes(b), float_formula(b), "bytes = {}", b);
    }
}

#[test]
fn format_bytes_matches_float_formula_on_ties_and_edges() {
    let mut samples: Vec<u64> = Vec::new();
    for k in 0u64..20_000 {
        samples.push(1_000_000 + k * 5_000 + 5);
        samples.push(1_000_000 + k * 10_000 + 5_000);
        samples.push(1_000_000_000 + k * 10_000_000 + 5_000_000);
        samples.push(7_000_000_000_000 + k * 1_234_567_891);
    }
    samples.push(u64::MAX);
    samples.push(u64::MAX - 1);
    samples.push(1u64 << 53);
    samples.push((1u64 << 53) + 1);
    samples.push((1u64 << 53) - 1);
    samples.push((1u64 << 60) + 12_345);
    samples.push(999_999_999);
    samples.push(999_995_000);
    samples.push(999_994_999);
    for b in samples {
        assert_eq!(format_bytes(b), float_formula(b), "bytes = {}", b);
    }
}

#[test]
fn format_bytes_large_counts() {
    assert_eq!(format_bytes(u64::MAX), "18446744073.71 GBytes");
}
