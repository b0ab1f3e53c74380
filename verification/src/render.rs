//! Decimal rendering of amounts and counters, over byte sequences.
//!
//! Amounts are held as whole satoshis and written as bitcoin values
//! with a full eight fractional digits, so nothing is ever rounded.

use vstd::prelude::*;

verus! {

/// Number of satoshis in one bitcoin.
pub const SATS_PER_BTC: u64 = 100_000_000;

/// The dot that separates whole bitcoins from the fraction.
pub const DOT_BYTE: u8 = 46;

/// The byte that ends each line of the report.
pub const NL_BYTE: u8 = 10;

/// Fractional digits of a bitcoin amount.
pub const BTC_FRAC_DIGITS: u64 = 8;

/// Decimal digit bytes of `n`, most significant first, no leading
/// zeros (`0` itself is the single byte `b'0'`).
pub open spec fn dec_digits(n: nat) -> Seq<u8>
    decreases n,
{
    if n < 10 {
        seq![(48 + n) as u8]
    } else {
        dec_digits(n / 10) + seq![(48 + n % 10) as u8]
    }
}

/// The low `k` decimal digits of `n`, most significant first, padded
/// with leading zeros to exactly `k` bytes.
pub open spec fn fixed_digits(n: nat, k: nat) -> Seq<u8>
    decreases k,
{
    if k == 0 {
        Seq::empty()
    } else {
        fixed_digits(n / 10, (k - 1) as nat) + seq![(48 + n % 10) as u8]
    }
}

/// A satoshi amount written in bitcoin: the whole bitcoins, a dot,
/// and the remaining satoshis as eight zero-padded digits.
pub open spec fn btc_bytes(sats: nat) -> Seq<u8> {
    dec_digits(sats / 100_000_000) + seq![DOT_BYTE] + fixed_digits(sats % 100_000_000, 8)
}

/// The number a string of digit bytes stands for.
pub open spec fn digits_val(s: Seq<u8>) -> nat
    decreases s.len(),
{
    if s.len() == 0 {
        0
    } else {
        (digits_val(s.drop_last()) * 10 + (s.last() - 48)) as nat
    }
}

/// Rendering a number loses nothing: the digits of `dec_digits(n)`
/// stand for `n` itself.
pub proof fn lemma_dec_digits_val(n: nat)
    ensures
        digits_val(dec_digits(n)) == n,
    decreases n,
{
    if n < 10 {
        assert(dec_digits(n).last() == (48 + n) as u8);
        assert(dec_digits(n).drop_last() =~= Seq::<u8>::empty());
        assert(digits_val(Seq::<u8>::empty()) == 0);
    } else {
        lemma_dec_digits_val(n / 10);
        assert(dec_digits(n).last() == (48 + n % 10) as u8);
        assert(dec_digits(n).drop_last() =~= dec_digits(n / 10));
    }
}

/// Ten to the `k`th power.
pub open spec fn pow10(k: nat) -> nat
    decreases k,
{
    if k == 0 {
        1
    } else {
        10 * pow10((k - 1) as nat)
    }
}

/// Powers of ten are positive.
pub proof fn lemma_pow10_pos(k: nat)
    ensures
        pow10(k) >= 1,
    decreases k,
{
    if k > 0 {
        lemma_pow10_pos((k - 1) as nat);
    }
}

/// The digits of `fixed_digits(n, k)` stand for the low `k` decimal
/// digits of `n`.
pub proof fn lemma_fixed_digits_val(n: nat, k: nat)
    ensures
        digits_val(fixed_digits(n, k)) == n % pow10(k),
    decreases k,
{
    if k == 0 {
    } else {
        lemma_fixed_digits_val(n / 10, (k - 1) as nat);
        assert(fixed_digits(n, k).drop_last() =~= fixed_digits(n / 10, (k - 1) as nat));
        let p = pow10((k - 1) as nat);
        lemma_pow10_pos((k - 1) as nat);
        vstd::arithmetic::div_mod::lemma_mod_breakdown(n as int, 10, p as int);
    }
}

/// An amount is written faithfully: the whole-bitcoin digits and the
/// eight fractional digits of `btc_bytes(sats)` together stand for
/// exactly `sats`, to the last satoshi.
pub proof fn lemma_btc_bytes_faithful(sats: nat)
    ensures
        btc_bytes(sats) == dec_digits(sats / 100_000_000) + seq![DOT_BYTE] + fixed_digits(
            sats % 100_000_000,
            8,
        ),
        digits_val(dec_digits(sats / 100_000_000)) * 100_000_000 + digits_val(
            fixed_digits(sats % 100_000_000, 8),
        ) == sats,
{
    lemma_dec_digits_val(sats / 100_000_000);
    lemma_fixed_digits_val(sats % 100_000_000, 8);
    assert(pow10(8) == 100_000_000) by {
        reveal_with_fuel(pow10, 9);
    }
    vstd::arithmetic::div_mod::lemma_small_mod(sats % 100_000_000, 100_000_000);
}

/// Every byte of `dec_digits(n)` is a decimal digit.
pub proof fn lemma_dec_digits_are_digits(n: nat)
    ensures
        forall|i: int|
            0 <= i < dec_digits(n).len() ==> 48 <= #[trigger] dec_digits(n)[i] <= 57,
    decreases n,
{
    if n >= 10 {
        lemma_dec_digits_are_digits(n / 10);
        assert forall|i: int| 0 <= i < dec_digits(n).len() implies 48 <= #[trigger] dec_digits(
            n,
        )[i] <= 57 by {
            if i < dec_digits(n / 10).len() {
                assert(dec_digits(n)[i] == dec_digits(n / 10)[i]);
            }
        }
    }
}

/// Every byte of `fixed_digits(n, k)` is a decimal digit.
pub proof fn lemma_fixed_digits_are_digits(n: nat, k: nat)
    ensures
        forall|i: int|
            0 <= i < fixed_digits(n, k).len() ==> 48 <= #[trigger] fixed_digits(n, k)[i] <= 57,
    decreases k,
{
    if k > 0 {
        lemma_fixed_digits_are_digits(n / 10, (k - 1) as nat);
        assert forall|i: int| 0 <= i < fixed_digits(n, k).len() implies 48 <= #[trigger] fixed_digits(
            n,
            k,
        )[i] <= 57 by {
            if i < fixed_digits(n / 10, (k - 1) as nat).len() {
                assert(fixed_digits(n, k)[i] == fixed_digits(n / 10, (k - 1) as nat)[i]);
            }
        }
    }
}

/// Every byte of a rendered amount is a digit or the dot; in
/// particular none of them is a line break.
pub proof fn lemma_btc_bytes_in_line(sats: nat)
    ensures
        forall|i: int|
            0 <= i < btc_bytes(sats).len() ==> 46 <= #[trigger] btc_bytes(sats)[i] <= 57,
{
    lemma_dec_digits_are_digits(sats / 100_000_000);
    lemma_fixed_digits_are_digits(sats % 100_000_000, 8);
    assert forall|i: int| 0 <= i < btc_bytes(sats).len() implies 46 <= #[trigger] btc_bytes(
        sats,
    )[i] <= 57 by {
        let whole = dec_digits(sats / 100_000_000);
        let frac = fixed_digits(sats % 100_000_000, 8);
        if i < whole.len() {
            assert(btc_bytes(sats)[i] == whole[i]);
        } else if i == whole.len() {
            assert(btc_bytes(sats)[i] == DOT_BYTE);
        } else {
            assert(btc_bytes(sats)[i] == frac[i - whole.len() - 1]);
        }
    }
}

/// Appends the decimal digits of `n` to `out`.
pub fn push_u64_decimal(out: &mut Vec<u8>, n: u64)
    ensures
        final(out)@ == old(out)@ + dec_digits(n as nat),
{
    let mut digits: Vec<u8> = Vec::new();
    let mut m: u64 = n;
    digits.push(48 + (m % 10) as u8);
    m = m / 10;
    assert(digits@ =~= seq![(48 + n as nat % 10) as u8]);
    while m > 0
        invariant
            m > 0 ==> dec_digits(n as nat) == dec_digits(m as nat) + digits@,
            m == 0 ==> dec_digits(n as nat) == digits@,
        decreases m,
    {
        let ghost pre = digits@;
        let d: u8 = 48 + (m % 10) as u8;
        digits.insert(0, d);
        proof {
            assert(digits@ =~= seq![d] + pre);
            if m >= 10 {
                assert(dec_digits(m as nat) == dec_digits(m as nat / 10) + seq![d]);
                assert(dec_digits(n as nat) =~= dec_digits((m / 10) as nat) + digits@);
            } else {
                assert(dec_digits(m as nat) == seq![d]);
                assert(dec_digits(n as nat) =~= digits@);
            }
        }
        m = m / 10;
    }
    let ghost pre_out = out@;
    out.append(&mut digits);
    assert(out@ == pre_out + dec_digits(n as nat));
}

/// Appends exactly `k` decimal digits of `n` to `out`, zero padded.
pub fn push_fixed_digits(out: &mut Vec<u8>, n: u64, k: u64)
    requires
        k <= 20,
    ensures
        final(out)@ == old(out)@ + fixed_digits(n as nat, k as nat),
{
    let mut digits: Vec<u8> = Vec::new();
    let mut m: u64 = n;
    let mut i: u64 = 0;
    assert(fixed_digits(n as nat, k as nat) =~= fixed_digits(n as nat, k as nat) + digits@);
    while i < k
        invariant
            i <= k,
            fixed_digits(n as nat, k as nat) == fixed_digits(m as nat, (k - i) as nat) + digits@,
        decreases k - i,
    {
        let ghost pre = digits@;
        let d: u8 = 48 + (m % 10) as u8;
        digits.insert(0, d);
        proof {
            assert(digits@ =~= seq![d] + pre);
            assert(fixed_digits(m as nat, (k - i) as nat) == fixed_digits(
                m as nat / 10,
                (k - i - 1) as nat,
            ) + seq![d]);
            assert(fixed_digits(n as nat, k as nat) =~= fixed_digits(
                (m / 10) as nat,
                (k - i - 1) as nat,
            ) + (seq![d] + pre));
        }
        m = m / 10;
        i = i + 1;
    }
    assert(fixed_digits(n as nat, k as nat) =~= digits@);
    let ghost pre_out = out@;
    out.append(&mut digits);
    assert(out@ =~= pre_out + fixed_digits(n as nat, k as nat));
}

/// Appends the bitcoin rendering of `sats` to `out`.
pub fn push_btc_amount(out: &mut Vec<u8>, sats: u64)
    ensures
        final(out)@ == old(out)@ + btc_bytes(sats as nat),
{
    push_u64_decimal(out, sats / SATS_PER_BTC);
    out.push(DOT_BYTE);
    push_fixed_digits(out, sats % SATS_PER_BTC, BTC_FRAC_DIGITS);
    assert(out@ =~= old(out)@ + btc_bytes(sats as nat));
}

} // verus!
