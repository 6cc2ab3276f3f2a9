use uffs::format::format_duration;
use uffs::format::format_number;
use uffs::format::format_seconds;
use uffs::format::format_size;
use uffs::format::left_align;
use uffs::format::repeat_char;
use uffs::format::right_align;
use uffs::format::u64_to_string;

#[test]
fn decimal_rendering() {
    assert_eq!(u64_to_string(0), "0");
    assert_eq!(u64_to_string(7), "7");
    assert_eq!(u64_to_string(105), "105");
    assert_eq!(u64_to_string(u64::MAX), "18446744073709551615");
}

#[test]
fn alignment() {
    assert_eq!(right_align(String::from("ab"), 5), "   ab");
    assert_eq!(left_align(String::from("ab"), 5), "ab   ");
    assert_eq!(right_align(String::from("abcdef"), 5), "abcdef");
    assert_eq!(repeat_char('-', 4), "----");
}

#[test]
fn thousands_separators() {
    assert_eq!(format_number(0, 0), "0");
    assert_eq!(format_number(999, 0), "999");
    assert_eq!(format_number(1000, 0), "1,000");
    assert_eq!(format_number(1234567, 12), "   1,234,567");
    assert_eq!(format_number(1000000007, 0), "1,000,000,007");
}

#[test]
fn capacity_example_in_terabytes() {
    // 1 932 735 217 664 bytes read as 1.80 TB.
    let s = format_size(1932735217664);
    assert_eq!(s.trim(), "1.80 TB");
    assert_eq!(s, "     1.80 TB");
}

#[test]
fn capacity_in_gigabytes() {
    // 5 GiB exactly.
    assert_eq!(format_size(5368709120), "     5.00 GB");
    assert_eq!(format_size(0), "     0.00 GB");
    // Half a GiB rounds to 0.50.
    assert_eq!(format_size(536870912), "     0.50 GB");
}

#[test]
fn duration_example_seconds_bucket() {
    // 1 500 000 000 ns falls in the seconds+milliseconds bucket.
    assert_eq!(format_duration(1_500_000_000), "  1 s  500 ms");
}

#[test]
fn duration_buckets() {
    assert_eq!(format_duration(0), "  0ns");
    assert_eq!(format_duration(999), "999ns");
    assert_eq!(format_duration(1_000), "  1 μs   0 ns");
    assert_eq!(format_duration(2_500_000), "  2 ms 500 μs");
    assert_eq!(format_duration(65_000_000_000), "  1 m    5 s ");
    assert_eq!(format_duration(3_661_000_000_000), " 1h  1m  1s");
    assert_eq!(format_duration(90_061_000_000_000), " 1d  1h  1m  1s");
}

#[test]
fn seconds_with_three_decimals() {
    assert_eq!(format_seconds(1_500_000_000), "1.500");
    assert_eq!(format_seconds(0), "0.000");
    assert_eq!(format_seconds(999_500_000), "1.000");
    assert_eq!(format_seconds(12_345_678), "0.012");
}
