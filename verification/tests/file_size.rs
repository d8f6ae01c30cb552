use novaforge::file_size::human_file_size;

/// The size text as a float division printed with one decimal.
fn float_size(bytes: u64) -> String {
    const KB: u64 = 1_024;
    const MB: u64 = 1_024 * KB;
    const GB: u64 = 1_024 * MB;
    if bytes >= GB {
        format!("{:.1} GB", bytes as f64 / GB as f64)
    } else if bytes >= MB {
        format!("{:.1} MB", bytes as f64 / MB as f64)
    } else if bytes >= KB {
        format!("{:.1} KB", bytes as f64 / KB as f64)
    } else {
        format!("{bytes} B")
    }
}

#[test]
fn file_size_below_one_kib_is_in_bytes() {
    assert_eq!(human_file_size(0), "0 B");
    assert_eq!(human_file_size(512), "512 B");
    assert_eq!(human_file_size(1023), "1023 B");
}

#[test]
fn file_size_units() {
    assert_eq!(human_file_size(1024), "1.0 KB");
    assert_eq!(human_file_size(1536), "1.5 KB");
    assert_eq!(human_file_size(1024 * 1024), "1.0 MB");
    assert_eq!(human_file_size(5 * 1024 * 1024 + 512 * 1024), "5.5 MB");
    assert_eq!(human_file_size(1024 * 1024 * 1024), "1.0 GB");
    assert_eq!(human_file_size(1_048_575), "1024.0 KB");
}

#[test]
fn file_size_matches_float_formatting_below_300k() {
    for b in 0..300_000u64 {
        assert_eq!(human_file_size(b), float_size(b), "bytes = {b}");
    }
}

#[test]
fn file_size_matches_float_formatting_on_ties() {
    // 1280 bytes is exactly 1.25 KB; the MB and GB values are exact halves
    // of a tenth too.
    for j in 0..2_000u64 {
        for unit in [1_024u64, 1_048_576, 1_073_741_824] {
            let tie = unit / 4 * (10 * j + 5) / 5;
            for b in [tie.saturating_sub(1), tie, tie + 1] {
                assert_eq!(human_file_size(b), float_size(b), "bytes = {b}");
            }
        }
    }
}

#[test]
fn file_size_matches_float_formatting_on_large_values() {
    let mut x: u64 = 0x9E37_79B9_7F4A_7C15;
    for _ in 0..200_000 {
        x = x.wrapping_mul(6_364_136_223_846_793_005).wrapping_add(1_442_695_040_888_963_407);
        for b in [x, x >> 7, x >> 20, x >> 33, x >> 44] {
            assert_eq!(human_file_size(b), float_size(b), "bytes = {b}");
        }
    }
    for shift in 0..64u32 {
        let p = 1u64 << shift;
        for b in [p - 1, p, p.saturating_add(1), p | (p >> 1), p | (p >> 11)] {
            assert_eq!(human_file_size(b), float_size(b), "bytes = {b}");
        }
    }
    for b in [u64::MAX, u64::MAX - 1, u64::MAX - 1024, (1u64 << 53) + 1, (1u64 << 54) + 2] {
        assert_eq!(human_file_size(b), float_size(b), "bytes = {b}");
    }
}
