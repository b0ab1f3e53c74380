use payment_flow::confirm_send;
use payment_flow::wallet::{
    setup_action, setup_init, setup_step, wallet_url, SetupAction, SetupState,
};
use payment_flow::BLOCKS_TO_FUND;

#[test]
fn existing_wallet_loads_at_once() {
    let s = setup_init();
    assert_eq!(setup_action(s), SetupAction::Load);
    let s = setup_step(s, true);
    assert_eq!(s, SetupState::Loaded);
    assert_eq!(setup_action(s), SetupAction::Done);
}

#[test]
fn missing_wallet_is_created() {
    let s = setup_init();
    let s = setup_step(s, false);
    assert_eq!(setup_action(s), SetupAction::Create);
    let s = setup_step(s, true);
    assert_eq!(s, SetupState::Created);
    assert_eq!(setup_action(s), SetupAction::Done);
}

#[test]
fn wallet_created_meanwhile_is_loaded_on_retry() {
    let s = setup_step(setup_step(setup_init(), false), false);
    assert_eq!(setup_action(s), SetupAction::Load);
    let s = setup_step(s, true);
    assert_eq!(s, SetupState::Loaded);
}

#[test]
fn setup_fails_only_after_three_failures() {
    let s = setup_step(setup_step(setup_step(setup_init(), false), false), false);
    assert_eq!(s, SetupState::Failed);
    assert_eq!(setup_action(s), SetupAction::Done);
}

#[test]
fn terminal_states_absorb_further_answers() {
    assert_eq!(setup_step(SetupState::Loaded, false), SetupState::Loaded);
    assert_eq!(setup_step(SetupState::Created, false), SetupState::Created);
    assert_eq!(setup_step(SetupState::Failed, true), SetupState::Failed);
}

#[test]
fn wallet_url_joins_base_path_and_name() {
    let url = wallet_url(
        &b"http://127.0.0.1:18443".to_vec(),
        &b"Miner".to_vec(),
    );
    assert_eq!(
        String::from_utf8(url).unwrap(),
        "http://127.0.0.1:18443/wallet/Miner"
    );
}

#[test]
fn complete_send_yields_its_transaction_id() {
    assert_eq!(confirm_send(true, b"abc123".to_vec()), Some(b"abc123".to_vec()));
    assert_eq!(confirm_send(false, b"abc123".to_vec()), None);
}

#[test]
fn funding_takes_the_maturity_span_and_one_block() {
    assert_eq!(BLOCKS_TO_FUND, 101);
}
