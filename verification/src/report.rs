//! The accounting report of one confirmed payment.
//!
//! The report is ten fields written as ten newline-terminated lines,
//! in a fixed order: transaction id, funding address, funding amount,
//! recipient address, paid amount, change address, change amount, fee,
//! confirming block height, confirming block hash.  When the payment
//! produced no change, the two change lines are empty.

use crate::render::{btc_bytes, dec_digits, push_btc_amount, push_u64_decimal, NL_BYTE};
use crate::txout::{change_of, find_change, TxOut};
use vstd::prelude::*;

verus! {

/// The derived accounting record of one confirmed payment.
pub struct Report {
    /// Identifier of the payment transaction.
    pub txid: Vec<u8>,
    /// Address whose coins funded the payment.
    pub miner_input_address: Vec<u8>,
    /// Amount that funded the payment, in satoshis.
    pub miner_input_sats: u64,
    /// Address the payment went to.
    pub trader_output_address: Vec<u8>,
    /// Amount the recipient received, in satoshis.
    pub trader_output_sats: u64,
    /// The change output, when the transaction has one.
    pub change: Option<TxOut>,
    /// Fee paid, in satoshis.
    pub fee_sats: u64,
    /// Height of the confirming block.
    pub block_height: u64,
    /// Hash of the confirming block.
    pub block_hash: Vec<u8>,
}

/// Why a report could not be assembled.
#[derive(Debug)]
pub enum ReportError {
    /// The recipient's amount plus the change exceed the funding
    /// amount, so the fee would be negative.
    OutputsExceedInput,
}

/// One report line: the field's bytes and a line break.
pub open spec fn line(s: Seq<u8>) -> Seq<u8> {
    s + seq![NL_BYTE]
}

/// The change-address field: empty when there is no change.
pub open spec fn change_address_bytes(c: Option<TxOut>) -> Seq<u8> {
    match c {
        Some(o) => o.address@,
        None => Seq::empty(),
    }
}

/// The change-amount field: empty when there is no change.
pub open spec fn change_amount_bytes(c: Option<TxOut>) -> Seq<u8> {
    match c {
        Some(o) => btc_bytes(o.amount_sats as nat),
        None => Seq::empty(),
    }
}

/// The satoshis of the change, zero when there is none.
pub open spec fn change_sats(c: Option<TxOut>) -> nat {
    match c {
        Some(o) => o.amount_sats as nat,
        None => 0,
    }
}

/// The ten fields of the report, in the order they are written.
pub open spec fn report_fields(r: Report) -> Seq<Seq<u8>> {
    seq![
        r.txid@,
        r.miner_input_address@,
        btc_bytes(r.miner_input_sats as nat),
        r.trader_output_address@,
        btc_bytes(r.trader_output_sats as nat),
        change_address_bytes(r.change),
        change_amount_bytes(r.change),
        btc_bytes(r.fee_sats as nat),
        dec_digits(r.block_height as nat),
        r.block_hash@,
    ]
}

/// The rendered report: the ten fields, each as one line.
pub open spec fn report_bytes(r: Report) -> Seq<u8> {
    line(r.txid@) + line(r.miner_input_address@) + line(btc_bytes(r.miner_input_sats as nat))
        + line(r.trader_output_address@) + line(btc_bytes(r.trader_output_sats as nat)) + line(
        change_address_bytes(r.change),
    ) + line(change_amount_bytes(r.change)) + line(btc_bytes(r.fee_sats as nat)) + line(
        dec_digits(r.block_height as nat),
    ) + line(r.block_hash@)
}

/// Whether a field may stand on a line of its own.
pub open spec fn newline_free(s: Seq<u8>) -> bool {
    forall|i: int| 0 <= i < s.len() ==> s[i] != NL_BYTE
}

/// The lines of a byte string: what stands between the start, each
/// line break, and the end.  A trailing piece without a line break
/// counts as a line of its own.
pub open spec fn split_lines(s: Seq<u8>) -> Seq<Seq<u8>>
    decreases s.len(),
{
    if s.len() == 0 {
        Seq::empty()
    } else if s[0] == NL_BYTE {
        seq![Seq::<u8>::empty()] + split_lines(s.skip(1))
    } else {
        let rest = split_lines(s.skip(1));
        if rest.len() == 0 {
            seq![s]
        } else {
            seq![seq![s[0]] + rest[0]] + rest.skip(1)
        }
    }
}

/// Splitting undoes writing one line: a line-break-free field,
/// terminated and followed by anything, splits off as the first line.
pub proof fn lemma_split_one_line(l: Seq<u8>, t: Seq<u8>)
    requires
        newline_free(l),
    ensures
        split_lines(line(l) + t) == seq![l] + split_lines(t),
    decreases l.len(),
{
    let s = line(l) + t;
    if l.len() == 0 {
        assert(s[0] == NL_BYTE);
        assert(s.skip(1) =~= t);
        assert(l =~= Seq::<u8>::empty());
        assert(seq![Seq::<u8>::empty()] + split_lines(t) =~= seq![l] + split_lines(t));
    } else {
        assert(s[0] == l[0]);
        assert(s.skip(1) =~= line(l.skip(1)) + t);
        assert(newline_free(l.skip(1)));
        lemma_split_one_line(l.skip(1), t);
        let rest = split_lines(s.skip(1));
        assert(rest == seq![l.skip(1)] + split_lines(t));
        assert(rest[0] == l.skip(1));
        assert(seq![s[0]] + rest[0] =~= l);
        assert(rest.skip(1) =~= split_lines(t));
        assert(split_lines(s) =~= seq![l] + split_lines(t));
    }
}

/// The report is always exactly ten lines, and splitting them apart
/// gives back the ten fields in their fixed order.  The identifier
/// and address fields must not carry a line break of their own; the
/// amount and height fields never do, being digits and a dot.
#[verifier::rlimit(50)]
pub proof fn lemma_report_ten_lines(r: Report)
    requires
        newline_free(r.txid@),
        newline_free(r.miner_input_address@),
        newline_free(r.trader_output_address@),
        newline_free(change_address_bytes(r.change)),
        newline_free(r.block_hash@),
    ensures
        split_lines(report_bytes(r)) == report_fields(r),
        split_lines(report_bytes(r)).len() == 10,
{
    let f = report_fields(r);
    crate::render::lemma_btc_bytes_in_line(r.miner_input_sats as nat);
    crate::render::lemma_btc_bytes_in_line(r.trader_output_sats as nat);
    crate::render::lemma_btc_bytes_in_line(r.fee_sats as nat);
    crate::render::lemma_dec_digits_are_digits(r.block_height as nat);
    if r.change is Some {
        crate::render::lemma_btc_bytes_in_line(change_sats(r.change));
        assert(change_amount_bytes(r.change) == btc_bytes(change_sats(r.change)));
    }
    let t9 = line(r.block_hash@);
    let t8 = line(dec_digits(r.block_height as nat)) + t9;
    let t7 = line(btc_bytes(r.fee_sats as nat)) + t8;
    let t6 = line(change_amount_bytes(r.change)) + t7;
    let t5 = line(change_address_bytes(r.change)) + t6;
    let t4 = line(btc_bytes(r.trader_output_sats as nat)) + t5;
    let t3 = line(r.trader_output_address@) + t4;
    let t2 = line(btc_bytes(r.miner_input_sats as nat)) + t3;
    let t1 = line(r.miner_input_address@) + t2;
    let t0 = line(r.txid@) + t1;
    assert(report_bytes(r) =~= t0);
    lemma_split_one_line(r.block_hash@, Seq::empty());
    assert(t9 =~= line(r.block_hash@) + Seq::<u8>::empty());
    assert(split_lines(t9) =~= seq![f[9]]);
    lemma_split_one_line(dec_digits(r.block_height as nat), t9);
    assert(split_lines(t8) =~= seq![f[8], f[9]]);
    lemma_split_one_line(btc_bytes(r.fee_sats as nat), t8);
    assert(split_lines(t7) =~= seq![f[7], f[8], f[9]]);
    lemma_split_one_line(change_amount_bytes(r.change), t7);
    assert(split_lines(t6) =~= seq![f[6], f[7], f[8], f[9]]);
    lemma_split_one_line(change_address_bytes(r.change), t6);
    assert(split_lines(t5) =~= seq![f[5], f[6], f[7], f[8], f[9]]);
    lemma_split_one_line(btc_bytes(r.trader_output_sats as nat), t5);
    assert(split_lines(t4) =~= seq![f[4], f[5], f[6], f[7], f[8], f[9]]);
    lemma_split_one_line(r.trader_output_address@, t4);
    assert(split_lines(t3) =~= seq![f[3], f[4], f[5], f[6], f[7], f[8], f[9]]);
    lemma_split_one_line(btc_bytes(r.miner_input_sats as nat), t3);
    assert(split_lines(t2) =~= seq![f[2], f[3], f[4], f[5], f[6], f[7], f[8], f[9]]);
    lemma_split_one_line(r.miner_input_address@, t2);
    assert(split_lines(t1) =~= seq![f[1], f[2], f[3], f[4], f[5], f[6], f[7], f[8], f[9]]);
    lemma_split_one_line(r.txid@, t1);
    assert(split_lines(t0) =~= f);
    assert(split_lines(report_bytes(r)) =~= f);
}

/// Appends one field of the report and its line break.
fn push_line(out: &mut Vec<u8>, field: &Vec<u8>)
    ensures
        final(out)@ == old(out)@ + line(field@),
{
    out.extend_from_slice(field.as_slice());
    out.push(NL_BYTE);
    assert(final(out)@ =~= old(out)@ + line(field@));
}

/// Appends an amount field and its line break.
fn push_btc_line(out: &mut Vec<u8>, sats: u64)
    ensures
        final(out)@ == old(out)@ + line(btc_bytes(sats as nat)),
{
    push_btc_amount(out, sats);
    out.push(NL_BYTE);
    assert(final(out)@ =~= old(out)@ + line(btc_bytes(sats as nat)));
}

/// Writes the report as its ten lines.
pub fn render_report(r: &Report) -> (v: Vec<u8>)
    ensures
        v@ == report_bytes(*r),
{
    let mut v: Vec<u8> = Vec::new();
    push_line(&mut v, &r.txid);
    push_line(&mut v, &r.miner_input_address);
    push_btc_line(&mut v, r.miner_input_sats);
    push_line(&mut v, &r.trader_output_address);
    push_btc_line(&mut v, r.trader_output_sats);
    match &r.change {
        Some(c) => {
            push_line(&mut v, &c.address);
            push_btc_line(&mut v, c.amount_sats);
        },
        None => {
            v.push(NL_BYTE);
            v.push(NL_BYTE);
            assert(line(change_address_bytes(r.change)) =~= seq![NL_BYTE]);
        },
    }
    push_btc_line(&mut v, r.fee_sats);
    push_u64_decimal(&mut v, r.block_height);
    v.push(NL_BYTE);
    push_line(&mut v, &r.block_hash);
    assert(v@ =~= report_bytes(*r));
    v
}

/// Assembles the report of a confirmed payment from what the node
/// showed: the outputs of the transaction decide the change, and the
/// fee is the funding amount less everything the outputs carry.
///
/// Fails exactly when the recipient's amount and the change together
/// exceed the funding amount.
pub fn build_report(
    txid: Vec<u8>,
    miner_input_address: Vec<u8>,
    miner_input_sats: u64,
    trader_output_address: Vec<u8>,
    trader_output_sats: u64,
    outputs: Vec<TxOut>,
    block_height: u64,
    block_hash: Vec<u8>,
) -> (r: Result<Report, ReportError>)
    ensures
        r is Ok <==> trader_output_sats + change_sats(
            change_of(outputs@, trader_output_address@),
        ) <= miner_input_sats,
        r matches Ok(rep) ==> {
            &&& rep.txid@ == txid@
            &&& rep.miner_input_address@ == miner_input_address@
            &&& rep.miner_input_sats == miner_input_sats
            &&& rep.trader_output_address@ == trader_output_address@
            &&& rep.trader_output_sats == trader_output_sats
            &&& rep.change == change_of(outputs@, trader_output_address@)
            &&& rep.fee_sats == miner_input_sats - trader_output_sats - change_sats(
                change_of(outputs@, trader_output_address@),
            )
            &&& rep.block_height == block_height
            &&& rep.block_hash@ == block_hash@
        },
{
    let mut outputs = outputs;
    let change: Option<TxOut> = match find_change(&outputs, &trader_output_address) {
        Some(i) => Some(outputs.remove(i)),
        None => None,
    };
    let change_amount: u64 = match &change {
        Some(c) => c.amount_sats,
        None => 0,
    };
    let fee: u64 = match crate::fee_sats(miner_input_sats, trader_output_sats, change_amount) {
        Some(f) => f,
        None => {
            return Err(ReportError::OutputsExceedInput);
        },
    };
    Ok(
        Report {
            txid,
            miner_input_address,
            miner_input_sats,
            trader_output_address,
            trader_output_sats,
            change,
            fee_sats: fee,
            block_height,
            block_hash,
        },
    )
}

} // verus!
