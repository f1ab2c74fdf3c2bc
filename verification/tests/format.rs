use kdam::styles::format::{
    divmod, format_interval, format_sizeof, format_sizeof_fraction, format_time,
};

#[test]
fn divmod_gives_quotient_and_remainder() {
    assert_eq!(divmod(7, 2), (3, 1));
    assert_eq!(divmod(3661, 60), (61, 1));
    assert_eq!(divmod(0, 9), (0, 0));
}

#[test]
fn interval_of_zero_seconds() {
    assert_eq!(format_interval(0, false), "00:00");
}

#[test]
fn interval_with_hours() {
    assert_eq!(format_interval(3661, false), "01:01:01");
    assert_eq!(format_interval(3600, false), "01:00:00");
    assert_eq!(format_interval(360_000, false), "100:00:00");
}

#[test]
fn interval_without_hours() {
    assert_eq!(format_interval(59, false), "00:59");
    assert_eq!(format_interval(60, false), "01:00");
    assert_eq!(format_interval(3599, false), "59:59");
}

#[test]
fn interval_for_humans() {
    assert_eq!(format_interval(59, true), "59s");
    assert_eq!(format_interval(0, true), "0s");
    assert_eq!(format_interval(60, true), "01:00");
    assert_eq!(format_interval(3661, true), "01:01:01");
}

#[test]
fn sizeof_below_the_first_prefix() {
    assert_eq!(format_sizeof(0, 1000), "0.00");
    assert_eq!(format_sizeof(5, 1000), "5.00");
    assert_eq!(format_sizeof(10, 1000), "10.0");
    assert_eq!(format_sizeof(99, 1000), "99.0");
    assert_eq!(format_sizeof(100, 1000), "100");
    assert_eq!(format_sizeof(999, 1000), "999");
}

#[test]
fn sizeof_at_the_first_prefix() {
    assert_eq!(format_sizeof(1000, 1000), "1.00k");
    assert_eq!(format_sizeof(1500, 1000), "1.50k");
    assert_eq!(format_sizeof(12_345, 1000), "12.3k");
    assert_eq!(format_sizeof(123_456, 1000), "123k");
}

#[test]
fn sizeof_boundary_is_at_999_5() {
    assert_eq!(format_sizeof(999_499, 1000), "999k");
    assert_eq!(format_sizeof(999_500, 1000), "1.00M");
    assert_eq!(format_sizeof(9_994, 1000), "9.99k");
    assert_eq!(format_sizeof(9_995, 1000), "10.0k");
    assert_eq!(format_sizeof(99_949, 1000), "99.9k");
    assert_eq!(format_sizeof(99_950, 1000), "100k");
}

#[test]
fn sizeof_rounds_ties_to_even() {
    assert_eq!(format_sizeof(1005, 1000), "1.00k");
    assert_eq!(format_sizeof(1015, 1000), "1.02k");
    assert_eq!(format_sizeof(1025, 1000), "1.02k");
}

#[test]
fn sizeof_with_binary_divisor() {
    assert_eq!(format_sizeof(1023, 1024), "1.00k");
    assert_eq!(format_sizeof(1024, 1024), "1.00k");
    assert_eq!(format_sizeof(1536, 1024), "1.50k");
    assert_eq!(format_sizeof(1_048_576, 1024), "1.00M");
}

#[test]
fn sizeof_of_the_largest_count() {
    assert_eq!(format_sizeof(u64::MAX, 1000), "18.4E");
    assert_eq!(format_sizeof(u64::MAX, 1024), "16.0E");
}

#[test]
fn sizeof_runs_out_of_prefixes() {
    assert_eq!(format_sizeof(1000, 1), "1000.0Y");
    assert_eq!(format_sizeof(25_600, 2), "800P");
    assert_eq!(format_sizeof(256_000, 2), "1000.0Y");
}

#[test]
fn sizeof_with_divisor_zero() {
    assert_eq!(format_sizeof(999, 0), "999");
    assert_eq!(format_sizeof(1000, 0), "infY");
}

#[test]
fn time_in_seconds() {
    assert_eq!(format_time(0), "0.00s");
    assert_eq!(format_time(1_500_000_000), "1.50s");
    assert_eq!(format_time(59_994_999_999), "59.99s");
}

#[test]
fn time_in_minutes() {
    assert_eq!(format_time(59_995_000_000), "1.00min");
    assert_eq!(format_time(90_000_000_000), "1.50min");
}

#[test]
fn time_in_hours_and_days() {
    assert_eq!(format_time(3_600_000_000_000), "1.00hr");
    assert_eq!(format_time(5_400_000_000_000), "1.50hr");
    assert_eq!(format_time(86_400_000_000_000), "1.00days");
    assert_eq!(format_time(129_600_000_000_000), "1.50days");
}

#[test]
fn first_prefix_sets_in_at_999_5() {
    assert_eq!(format_sizeof_fraction(999, 1, 1000), "999");
    assert_eq!(format_sizeof_fraction(19_989, 20, 1000), "999");
    assert_eq!(format_sizeof_fraction(1_998_999, 2000, 1000), "999");
    assert_eq!(format_sizeof_fraction(1999, 2, 1000), "1.00k");
    assert_eq!(format_sizeof_fraction(9996, 10, 1000), "1.00k");
    assert_eq!(format_sizeof_fraction(1000, 1, 1000), "1.00k");
}

#[test]
fn fractions_are_scaled_like_whole_numbers() {
    assert_eq!(format_sizeof_fraction(1, 2, 1000), "0.50");
    assert_eq!(format_sizeof_fraction(2_469, 2, 1000), "1.23k");
    assert_eq!(format_sizeof_fraction(19_989, 2, 1000), "9.99k");
    assert_eq!(format_sizeof_fraction(1999, 2, 1024), "0.98k");
    assert_eq!(format_sizeof_fraction(1997, 2, 1024), "998");
    assert_eq!(format_sizeof_fraction(7, 0, 1000), "infY");
    assert_eq!(format_sizeof_fraction(u64::MAX, u64::MAX, 1000), "1.00");
}
