use console_toolkit::input::parse_index;
use console_toolkit::text::{render_signed, render_unsigned};

#[test]
fn unsigned_numbers() {
    assert_eq!(render_unsigned(0), "0");
    assert_eq!(render_unsigned(7), "7");
    assert_eq!(render_unsigned(10), "10");
    assert_eq!(render_unsigned(1234567890), "1234567890");
    assert_eq!(render_unsigned(u64::MAX), "18446744073709551615");
}

#[test]
fn signed_numbers() {
    assert_eq!(render_signed(0), "0");
    assert_eq!(render_signed(6), "6");
    assert_eq!(render_signed(-1), "-1");
    assert_eq!(render_signed(-120), "-120");
    assert_eq!(render_signed(i64::MAX), "9223372036854775807");
    assert_eq!(render_signed(i64::MIN), "-9223372036854775808");
}

#[test]
fn rendering_agrees_with_the_formatter() {
    let mut n: u64 = 1;
    for _ in 0..64 {
        for m in [n - 1, n, n + 1] {
            assert_eq!(render_unsigned(m), format!("{}", m));
            let signed = m as i64;
            assert_eq!(render_signed(signed), format!("{}", signed));
            assert_eq!(render_signed(signed.wrapping_neg()), format!("{}", signed.wrapping_neg()));
        }
        n = n.wrapping_mul(2);
    }
    for m in 0..2000u64 {
        assert_eq!(render_unsigned(m), format!("{}", m));
    }
}

#[test]
fn what_is_rendered_reads_back() {
    for n in [0u32, 1, 9, 10, 99, 100, 65535, 4294967295] {
        assert_eq!(parse_index(&render_unsigned(n as u64)), Ok(n));
    }
}
