use alts::{decimal_text, format_size_kb, size_label};

#[test]
fn sizes_in_each_unit() {
    assert_eq!(format_size_kb(0), "0.00 KB");
    assert_eq!(format_size_kb(1023), "1023.00 KB");
    assert_eq!(format_size_kb(1024), "1.00 MB");
    assert_eq!(format_size_kb(1536), "1.50 MB");
    assert_eq!(format_size_kb(1_048_576), "1.00 GB");
    assert_eq!(format_size_kb(1_073_741_824), "1.00 TB");
    assert_eq!(format_size_kb(1_099_511_627_776), "1024.00 TB");
}

#[test]
fn sizes_round_half_to_even() {
    assert_eq!(format_size_kb(1152), "1.12 MB");
    assert_eq!(format_size_kb(1408), "1.38 MB");
}

#[test]
fn largest_size() {
    assert_eq!(format_size_kb(u64::MAX), "17179869184.00 TB");
}

#[test]
fn size_labels() {
    assert_eq!(size_label(false, Some(5)), "N/A");
    assert_eq!(size_label(true, None), "Unknown");
    assert_eq!(size_label(true, Some(2048)), "2.00 MB");
}

#[test]
fn decimal_texts() {
    assert_eq!(decimal_text(0), "0");
    assert_eq!(decimal_text(1234), "1234");
    assert_eq!(decimal_text(u64::MAX), "18446744073709551615");
}
