//! The decision machine behind creating or loading a named wallet.
//!
//! The node is first asked to load the wallet.  If that fails the
//! wallet is created; if creation fails too (someone may have created
//! it in between) one more load is attempted, and only when that also
//! fails does the run give up, surfacing the creation error.  The
//! machine holds the decisions; issuing the calls and judging their
//! outcome is the driver's business.

use vstd::prelude::*;

verus! {

/// Where the wallet setup stands.
#[derive(PartialEq, Eq, Structural, Clone, Copy, Debug)]
pub enum SetupState {
    /// The first load request is outstanding.
    AwaitLoad,
    /// Loading failed; the create request is outstanding.
    AwaitCreate,
    /// Creating failed too; the second load request is outstanding.
    AwaitRetryLoad,
    /// The wallet was loaded.
    Loaded,
    /// The wallet was created.
    Created,
    /// Loading, creating and loading again all failed; the error of
    /// the creation attempt is the one to surface.
    Failed,
}

/// What the driver is to do in a given state.
#[derive(PartialEq, Eq, Structural, Clone, Copy, Debug)]
pub enum SetupAction {
    /// Ask the node to load the wallet.
    Load,
    /// Ask the node to create the wallet.
    Create,
    /// The setup is over; act on the final state.
    Done,
}

/// Whether the setup is over.
pub open spec fn is_terminal(s: SetupState) -> bool {
    s == SetupState::Loaded || s == SetupState::Created || s == SetupState::Failed
}

/// The state after one answer from the node: `ok` says whether the
/// outstanding request succeeded.
pub open spec fn spec_step(s: SetupState, ok: bool) -> SetupState {
    match s {
        SetupState::AwaitLoad => if ok {
            SetupState::Loaded
        } else {
            SetupState::AwaitCreate
        },
        SetupState::AwaitCreate => if ok {
            SetupState::Created
        } else {
            SetupState::AwaitRetryLoad
        },
        SetupState::AwaitRetryLoad => if ok {
            SetupState::Loaded
        } else {
            SetupState::Failed
        },
        _ => s,
    }
}

/// How many answers the setup can still consume.
pub open spec fn rounds_left(s: SetupState) -> nat {
    match s {
        SetupState::AwaitLoad => 3,
        SetupState::AwaitCreate => 2,
        SetupState::AwaitRetryLoad => 1,
        _ => 0,
    }
}

/// The state in which every setup starts.
pub fn setup_init() -> (s: SetupState)
    ensures
        s == SetupState::AwaitLoad,
{
    SetupState::AwaitLoad
}

/// Feeds one answer to the machine.  Each answer brings the setup
/// strictly closer to its end, so a driver that alternates
/// `setup_action` and `setup_step` always terminates.
pub fn setup_step(s: SetupState, ok: bool) -> (r: SetupState)
    ensures
        r == spec_step(s, ok),
        !is_terminal(s) ==> rounds_left(r) < rounds_left(s),
        is_terminal(s) ==> r == s,
{
    match s {
        SetupState::AwaitLoad => if ok {
            SetupState::Loaded
        } else {
            SetupState::AwaitCreate
        },
        SetupState::AwaitCreate => if ok {
            SetupState::Created
        } else {
            SetupState::AwaitRetryLoad
        },
        SetupState::AwaitRetryLoad => if ok {
            SetupState::Loaded
        } else {
            SetupState::Failed
        },
        _ => s,
    }
}

/// What the driver does next in state `s`.
pub fn setup_action(s: SetupState) -> (a: SetupAction)
    ensures
        a == SetupAction::Load <==> (s == SetupState::AwaitLoad || s
            == SetupState::AwaitRetryLoad),
        a == SetupAction::Create <==> s == SetupState::AwaitCreate,
        a == SetupAction::Done <==> is_terminal(s),
{
    match s {
        SetupState::AwaitLoad => SetupAction::Load,
        SetupState::AwaitCreate => SetupAction::Create,
        SetupState::AwaitRetryLoad => SetupAction::Load,
        _ => SetupAction::Done,
    }
}

/// The bytes of `/wallet/`, the path under which a node serves the
/// endpoints of one named wallet.
pub open spec fn wallet_path_bytes() -> Seq<u8> {
    seq![47u8, 119u8, 97u8, 108u8, 108u8, 101u8, 116u8, 47u8]
}

/// The endpoint of one named wallet: the node's own address, the
/// wallet path, and the wallet's name.
pub fn wallet_url(base: &Vec<u8>, name: &Vec<u8>) -> (r: Vec<u8>)
    ensures
        r@ == base@ + wallet_path_bytes() + name@,
{
    let mut r: Vec<u8> = Vec::new();
    r.extend_from_slice(base.as_slice());
    r.push(47);
    r.push(119);
    r.push(97);
    r.push(108);
    r.push(108);
    r.push(101);
    r.push(116);
    r.push(47);
    r.extend_from_slice(name.as_slice());
    assert(r@ =~= base@ + wallet_path_bytes() + name@);
    r
}

/// A wallet that already exists loads at once: when the node answers
/// the first load with success, the setup ends in `Loaded` without a
/// creation attempt.
pub proof fn lemma_existing_wallet_loads()
    ensures
        spec_step(SetupState::AwaitLoad, true) == SetupState::Loaded,
        is_terminal(SetupState::Loaded),
{
}

/// The setup gives up only after all three attempts failed: `Failed`
/// is reached from no state but a failed retry load, which itself
/// follows only a failed create after a failed first load.
pub proof fn lemma_failure_needs_three_failures(s: SetupState, ok: bool)
    ensures
        spec_step(s, ok) == SetupState::Failed && !is_terminal(s) ==> s
            == SetupState::AwaitRetryLoad && !ok,
        spec_step(s, ok) == SetupState::AwaitRetryLoad && !is_terminal(s) ==> s
            == SetupState::AwaitCreate && !ok,
        spec_step(s, ok) == SetupState::AwaitCreate && !is_terminal(s) ==> s
            == SetupState::AwaitLoad && !ok,
{
}

} // verus!
