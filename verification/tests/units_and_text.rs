use broom::text::{decimal_string, trim};
use broom::units::{human, human_trimmed};

/// The size text as a double formatted by the standard library.
fn formatted(bytes: u64) -> String {
    let units = ["B", "KB", "MB", "GB", "TB"];
    let mut size = bytes as f64;
    let mut unit = 0;
    while size >= 1024.0 && unit < units.len() - 1 {
        size /= 1024.0;
        unit += 1;
    }
    format!("{:>6.1} {:<2}", size, units[unit])
}

#[test]
fn human_small_counts() {
    assert_eq!(human(0), "   0.0 B ");
    assert_eq!(human(1), "   1.0 B ");
    assert_eq!(human(1023), "1023.0 B ");
}

#[test]
fn human_units() {
    assert_eq!(human(1024), "   1.0 KB");
    assert_eq!(human(1536), "   1.5 KB");
    assert_eq!(human(1048576), "   1.0 MB");
    assert_eq!(human(5 * 1073741824), "   5.0 GB");
    assert_eq!(human(1099511627776), "   1.0 TB");
}

#[test]
fn human_rounds_ties_to_even() {
    // 1.25 KB and 1.75 KB are exact ties between tenths.
    assert_eq!(human(1280), "   1.2 KB");
    assert_eq!(human(1792), "   1.8 KB");
    // 9.96 KB rounds up into a longer number.
    assert_eq!(human(10199), "  10.0 KB");
}

#[test]
fn human_stays_in_terabytes() {
    assert_eq!(human(u64::MAX), "16777216.0 TB");
    assert_eq!(human(1024 * 1099511627776), "1024.0 TB");
}

#[test]
fn human_matches_double_formatting() {
    let mut samples: Vec<u64> = vec![
        0,
        999,
        1000,
        1023,
        1024,
        1025,
        1100,
        1126,
        1127,
        52428,
        52429,
        1048575,
        1048576,
        123456789,
        987654321012,
        (1u64 << 53) - 1,
        1u64 << 53,
        (1u64 << 53) + 1,
        (1u64 << 53) + 3,
        (1u64 << 60) - 1,
        (1u64 << 63) + 1025,
        u64::MAX - 1,
        u64::MAX,
    ];
    let mut x: u64 = 7;
    for _ in 0..2000 {
        x = x.wrapping_mul(6364136223846793005).wrapping_add(1442695040888963407);
        samples.push(x >> (x % 64));
    }
    for b in samples {
        assert_eq!(human(b), formatted(b), "bytes = {}", b);
    }
}

#[test]
fn human_trimmed_drops_padding() {
    assert_eq!(human_trimmed(0), "0.0 B");
    assert_eq!(human_trimmed(1536), "1.5 KB");
    assert_eq!(human_trimmed(u64::MAX), "16777216.0 TB");
    for b in [0u64, 17, 2048, 3_000_000, 1 << 50] {
        assert_eq!(human_trimmed(b), human(b).trim());
    }
}

#[test]
fn trim_removes_unicode_white_space() {
    assert_eq!(trim("  \t hello world \n\u{3000}"), "hello world");
    assert_eq!(trim("   "), "");
    assert_eq!(trim("x"), "x");
    let odd = "\u{85}\u{a0}é ü\u{2029}";
    assert_eq!(trim(odd), odd.trim());
}

#[test]
fn decimal_notation() {
    assert_eq!(decimal_string(0), "0");
    assert_eq!(decimal_string(42), "42");
    assert_eq!(decimal_string(u64::MAX), u64::MAX.to_string());
}
