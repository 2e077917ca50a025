use checkpoint_ts::profiler::{format_bytes, PerformanceProfileState, SortDirection, SortKey};

fn reference_format_bytes(bytes: i64) -> String {
    let abs = bytes.unsigned_abs();
    let sign = if bytes < 0 {
        "-"
    } else if bytes > 0 {
        "+"
    } else {
        ""
    };
    if abs < 1024 {
        format!("{}{} B", sign, abs)
    } else if abs < 1024 * 1024 {
        format!("{}{:.1} KB", sign, abs as f64 / 1024.0)
    } else if abs < 1024 * 1024 * 1024 {
        format!("{}{:.1} MB", sign, abs as f64 / (1024.0 * 1024.0))
    } else {
        format!("{}{:.2} GB", sign, abs as f64 / (1024.0 * 1024.0 * 1024.0))
    }
}

#[test]
fn format_bytes_small_values() {
    assert_eq!(format_bytes(0), "0 B");
    assert_eq!(format_bytes(512), "+512 B");
    assert_eq!(format_bytes(-12), "-12 B");
}

#[test]
fn format_bytes_rounds_half_to_even() {
    assert_eq!(format_bytes(1280), "+1.2 KB");
    assert_eq!(format_bytes(1536), "+1.5 KB");
    assert_eq!(format_bytes(-2 * 1024 * 1024), "-2.0 MB");
}

#[test]
fn format_bytes_matches_float_formatting() {
    let mut samples: Vec<i64> = vec![i64::MIN, i64::MAX, i64::MIN + 1, 1 << 53, (1 << 53) + 1, (1 << 60) + 12345];
    let mut x: u64 = 0x9E37_79B9_7F4A_7C15;
    for _ in 0..20000 {
        x ^= x << 13;
        x ^= x >> 7;
        x ^= x << 17;
        let shift = (x % 64) as u32;
        samples.push(((x >> shift) as i64) * if x & 1 == 0 { 1 } else { -1 });
    }
    for k in 0..5000i64 {
        samples.push(k * 256);
        samples.push(-k * 1023);
    }
    for b in samples {
        assert_eq!(format_bytes(b), reference_format_bytes(b), "bytes = {}", b);
    }
}

#[test]
fn set_sort_flips_and_resets() {
    let mut s = PerformanceProfileState::new();
    s.scroll_offset = 4;
    s.set_sort(SortKey::Total);
    assert_eq!(s.sort_direction, SortDirection::Asc);
    assert_eq!(s.scroll_offset, 0);
    s.set_sort(SortKey::Name);
    assert_eq!(s.sort_key, SortKey::Name);
    assert_eq!(s.sort_direction, SortDirection::Asc);
    s.set_sort(SortKey::Calls);
    assert_eq!(s.sort_direction, SortDirection::Desc);
}
