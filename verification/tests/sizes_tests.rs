use izole::sizes::format_size;

fn reference(bytes: u64) -> String {
    const KB: u64 = 1024;
    const MB: u64 = KB * 1024;
    const GB: u64 = MB * 1024;
    if bytes >= GB {
        format!("{:.2} GB", bytes as f64 / GB as f64)
    } else if bytes >= MB {
        format!("{:.2} MB", bytes as f64 / MB as f64)
    } else if bytes >= KB {
        format!("{:.2} KB", bytes as f64 / KB as f64)
    } else {
        format!("{} B", bytes)
    }
}

#[test]
fn small_sizes_in_bytes() {
    assert_eq!(format_size(0), "0 B");
    assert_eq!(format_size(1023), "1023 B");
}

#[test]
fn units_and_rounding() {
    assert_eq!(format_size(1024), "1.00 KB");
    assert_eq!(format_size(1536), "1.50 KB");
    assert_eq!(format_size(1048576), "1.00 MB");
    assert_eq!(format_size(1073741824), "1.00 GB");
    assert_eq!(format_size(5 * 1073741824 + 536870912), "5.50 GB");
}

#[test]
fn matches_double_formatting() {
    let mut samples: Vec<u64> = vec![
        1024, 1025, 1029, 1030, 1034, 2047, 2048, 10240, 1048575, 1048577, 1073741823,
        1073741825, 9007199254740991, 9007199254740993, 18014398509481985, u64::MAX, u64::MAX - 1,
        1u64 << 63, (1u64 << 63) + 1023, 123456789012345678,
    ];
    // exact ties of the hundredths
    for n in 0..2048u64 {
        samples.push(1024 * 7 + n);
    }
    let mut x: u64 = 1;
    for _ in 0..2000 {
        x = x.wrapping_mul(6364136223846793005).wrapping_add(1442695040888963407);
        samples.push(x >> (x % 60));
    }
    for b in samples {
        assert_eq!(format_size(b), reference(b), "{}", b);
    }
}
