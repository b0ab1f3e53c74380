//! Verified core of a wallet-to-wallet payment demonstration.
//!
//! The library holds the pure logic of the flow: satoshi amount
//! arithmetic, selection of the change output of a transaction,
//! rendering of the ten-line accounting report, and the decision
//! machine that creates or loads a wallet.  All node communication
//! lives outside the library and hands it plain values.

pub mod render;
pub mod report;
pub mod txout;
pub mod wallet;

use vstd::prelude::*;

verus! {

/// Blocks a coinbase reward must wait below before it may be spent.
pub const COINBASE_MATURITY: u64 = 100;

/// Blocks to mine so that the first reward becomes spendable: the
/// maturity span and the rewarded block itself.
pub const BLOCKS_TO_FUND: u64 = COINBASE_MATURITY + 1;

/// Fee of a transaction: what went in, less what came out.
///
/// Returns `None` exactly when the outputs exceed the input, which a
/// valid transaction never shows.
pub fn fee_sats(input: u64, output: u64, change: u64) -> (r: Option<u64>)
    ensures
        (output + change <= input) <==> r is Some,
        r is Some ==> r->0 == input - output - change,
{
    if let Some(rest) = input.checked_sub(output) {
        rest.checked_sub(change)
    } else {
        None
    }
}

/// The transaction id of a payment the node accepted, and nothing
/// for one it reported incomplete.
///
/// A payment submitted without a fee-rate choice comes back with a
/// completeness flag; only a complete one has been given to the
/// network, so only then is its id worth recording.
pub fn confirm_send(complete: bool, txid: Vec<u8>) -> (r: Option<Vec<u8>>)
    ensures
        complete <==> r is Some,
        r matches Some(t) ==> t@ == txid@,
{
    if complete {
        Some(txid)
    } else {
        None
    }
}

} // verus!
