use portctl::units::{fmt_bytes, fmt_size};

fn float_bytes(bytes: u64) -> String {
    const KB: u64 = 1024;
    const MB: u64 = KB * 1024;
    const GB: u64 = MB * 1024;
    if bytes >= GB {
        format!("{:.2} GB", bytes as f64 / GB as f64)
    } else if bytes >= MB {
        format!("{:.2} MB", bytes as f64 / MB as f64)
    } else if bytes >= KB {
        format!("{:.2} KB", bytes as f64 / KB as f64)
    } else {
        format!("{} B", bytes)
    }
}

fn float_size(bytes: u64) -> String {
    const MB: u64 = 1024 * 1024;
    const GB: u64 = MB * 1024;
    if bytes >= GB {
        format!("{:.2} GB", bytes as f64 / GB as f64)
    } else {
        format!("{:.2} MB", bytes as f64 / MB as f64)
    }
}

#[test]
fn fmt_bytes_exact_values() {
    assert_eq!(fmt_bytes(0), "0 B");
    assert_eq!(fmt_bytes(1023), "1023 B");
    assert_eq!(fmt_bytes(1024), "1.00 KB");
    assert_eq!(fmt_bytes(1536), "1.50 KB");
    assert_eq!(fmt_bytes(1048576), "1.00 MB");
    assert_eq!(fmt_bytes(5 * 1073741824), "5.00 GB");
}

#[test]
fn fmt_size_exact_values() {
    assert_eq!(fmt_size(0), "0.00 MB");
    assert_eq!(fmt_size(1048576), "1.00 MB");
    assert_eq!(fmt_size(1073741824), "1.00 GB");
    assert_eq!(fmt_size(1610612736), "1.50 GB");
}

#[test]
fn fmt_bytes_tie_rounds_to_even() {
    // 1152 bytes is exactly 1.125 KB, 1.375 KB is 1408 bytes.
    assert_eq!(fmt_bytes(1152), float_bytes(1152));
    assert_eq!(fmt_bytes(1408), float_bytes(1408));
}

#[test]
fn fmt_bytes_matches_float_formatting() {
    let mut n: u64 = 1;
    let mut samples: Vec<u64> = Vec::new();
    for i in 0..5000u64 {
        samples.push(i);
        samples.push(1024 + i * 7);
        samples.push(1048576 + i * 7919);
        samples.push(1073741824 + i * 104729 * 31);
    }
    for _ in 0..52 {
        samples.push(n);
        samples.push(n + 1);
        samples.push(n.wrapping_mul(3) / 2);
        n *= 2;
    }
    for b in samples {
        assert_eq!(fmt_bytes(b), float_bytes(b), "bytes = {b}");
        assert_eq!(fmt_size(b), float_size(b), "bytes = {b}");
    }
}
