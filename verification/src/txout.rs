//! Transaction outputs and selection of the change output.
//!
//! A confirmed payment shows a list of outputs; the change is the
//! first output whose address is not the receiver's.  Addresses and
//! identifiers are carried as plain bytes.

use vstd::prelude::*;

verus! {

/// One output of a transaction: an address and an amount in satoshis.
pub struct TxOut {
    pub address: Vec<u8>,
    pub amount_sats: u64,
}

/// The change among `outs` when paying `recipient`: the first output
/// addressed to anyone else, if there is one.
pub open spec fn change_of(outs: Seq<TxOut>, recipient: Seq<u8>) -> Option<TxOut>
    decreases outs.len(),
{
    if outs.len() == 0 {
        None
    } else if outs[0].address@ != recipient {
        Some(outs[0])
    } else {
        change_of(outs.skip(1), recipient)
    }
}

/// The change, if any, never goes back to the recipient's own address.
pub proof fn lemma_change_not_recipient(outs: Seq<TxOut>, recipient: Seq<u8>)
    ensures
        change_of(outs, recipient) matches Some(o) ==> o.address@ != recipient,
    decreases outs.len(),
{
    if outs.len() > 0 && outs[0].address@ == recipient {
        lemma_change_not_recipient(outs.skip(1), recipient);
    }
}

/// Whether two byte strings hold the same bytes.
pub fn bytes_eq(a: &Vec<u8>, b: &Vec<u8>) -> (r: bool)
    ensures
        r == (a@ == b@),
{
    if a.len() != b.len() {
        assert(a@ != b@);
        return false;
    }
    let n: usize = a.len();
    let mut i: usize = 0;
    while i < n
        invariant
            i <= n,
            a@.len() == n,
            b@.len() == n,
            forall|j: int| 0 <= j < i ==> a@[j] == b@[j],
        decreases n - i,
    {
        if a[i] != b[i] {
            assert(a@ != b@);
            return false;
        }
        i = i + 1;
    }
    assert(a@ =~= b@);
    true
}

/// Finds the change output: the index of the first output whose
/// address differs from the recipient's, or `None` when every output
/// pays the recipient.
pub fn find_change(outs: &Vec<TxOut>, recipient: &Vec<u8>) -> (r: Option<usize>)
    ensures
        match r {
            Some(i) => i < outs@.len() && change_of(outs@, recipient@) == Some(outs@[i as int]),
            None => change_of(outs@, recipient@) is None,
        },
{
    let n: usize = outs.len();
    let mut i: usize = 0;
    assert(outs@.skip(0) =~= outs@);
    while i < n
        invariant
            i <= n,
            outs@.len() == n,
            change_of(outs@, recipient@) == change_of(outs@.skip(i as int), recipient@),
        decreases n - i,
    {
        let differs = !bytes_eq(&outs[i].address, recipient);
        proof {
            assert(outs@.skip(i as int)[0] == outs@[i as int]);
            assert(outs@.skip(i as int).skip(1) =~= outs@.skip(i as int + 1));
        }
        if differs {
            return Some(i);
        }
        i = i + 1;
    }
    assert(outs@.skip(n as int) =~= Seq::<TxOut>::empty());
    None
}

} // verus!
