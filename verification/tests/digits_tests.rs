use statusline::digits::{decimal_string, fixed1_string, fixed2_string, gib_hundredths, kib_hundredths};

#[test]
fn decimal_zero_is_one_digit() {
    assert_eq!(decimal_string(0), "0");
}

#[test]
fn decimal_large_value() {
    assert_eq!(decimal_string(18_446_744_073_709_551_615), "18446744073709551615");
}

#[test]
fn fixed2_pads_the_fraction() {
    assert_eq!(fixed2_string(0), "0.00");
    assert_eq!(fixed2_string(5), "0.05");
    assert_eq!(fixed2_string(50), "0.50");
    assert_eq!(fixed2_string(100), "1.00");
    assert_eq!(fixed2_string(1234), "12.34");
}

#[test]
fn fixed1_single_fraction_digit() {
    assert_eq!(fixed1_string(0), "0.0");
    assert_eq!(fixed1_string(7), "0.7");
    assert_eq!(fixed1_string(123), "12.3");
}

#[test]
fn kib_scaling_is_exact_on_whole_kib() {
    assert_eq!(kib_hundredths(1024), 100);
    assert_eq!(kib_hundredths(1536), 150);
    assert_eq!(kib_hundredths(0), 0);
}

#[test]
fn kib_scaling_truncates() {
    // 3 * 100 / 1024 = 0 remainder 300.
    assert_eq!(kib_hundredths(3), 0);
    assert_eq!(kib_hundredths(11), 1);
}

#[test]
fn kib_scaling_handles_the_largest_counter_delta() {
    assert_eq!(kib_hundredths(u64::MAX), u64::MAX / 1024 * 100 + (u64::MAX % 1024) * 100 / 1024);
}

#[test]
fn gib_scaling_is_exact_on_whole_gib() {
    assert_eq!(gib_hundredths(2_147_483_648), 200);
    assert_eq!(gib_hundredths(8_589_934_592), 800);
}

#[test]
fn gib_scaling_handles_summed_counters() {
    // Two maximal byte counters summed still scale without overflow.
    let sum = (u64::MAX as u128) + (u64::MAX as u128);
    assert_eq!(gib_hundredths(sum), ((sum * 100) / 1_073_741_824) as u64);
}
