use payment_flow::fee_sats;
use payment_flow::render::{push_btc_amount, push_fixed_digits, push_u64_decimal};

fn btc_string(sats: u64) -> String {
    let mut v: Vec<u8> = Vec::new();
    push_btc_amount(&mut v, sats);
    String::from_utf8(v).unwrap()
}

#[test]
fn whole_bitcoins_render_with_eight_zeros() {
    assert_eq!(btc_string(5_000_000_000), "50.00000000");
    assert_eq!(btc_string(2_000_000_000), "20.00000000");
}

#[test]
fn zero_renders_as_zero_bitcoin() {
    assert_eq!(btc_string(0), "0.00000000");
}

#[test]
fn single_satoshi_renders_in_the_last_place() {
    assert_eq!(btc_string(1), "0.00000001");
}

#[test]
fn fractional_amounts_keep_their_trailing_zeros() {
    assert_eq!(btc_string(2_999_999_000), "29.99999000");
    assert_eq!(btc_string(1_000), "0.00001000");
}

#[test]
fn largest_amount_renders_exactly() {
    assert_eq!(btc_string(u64::MAX), "184467440737.09551615");
}

#[test]
fn decimal_digits_of_counters() {
    let mut v: Vec<u8> = Vec::new();
    push_u64_decimal(&mut v, 0);
    v.push(b' ');
    push_u64_decimal(&mut v, 101);
    v.push(b' ');
    push_u64_decimal(&mut v, u64::MAX);
    assert_eq!(String::from_utf8(v).unwrap(), "0 101 18446744073709551615");
}

#[test]
fn fixed_digits_pad_with_zeros() {
    let mut v: Vec<u8> = Vec::new();
    push_fixed_digits(&mut v, 7, 3);
    assert_eq!(v, b"007".to_vec());
    let mut w: Vec<u8> = Vec::new();
    push_fixed_digits(&mut w, 123_456, 3);
    assert_eq!(w, b"456".to_vec());
}

#[test]
fn fee_is_input_less_outputs() {
    assert_eq!(fee_sats(5_000_000_000, 2_000_000_000, 2_999_999_000), Some(1_000));
    assert_eq!(fee_sats(100, 60, 40), Some(0));
}

#[test]
fn fee_refused_when_outputs_exceed_input() {
    assert_eq!(fee_sats(100, 60, 41), None);
    assert_eq!(fee_sats(0, 1, 0), None);
}
