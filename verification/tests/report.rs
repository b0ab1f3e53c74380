use payment_flow::report::{build_report, render_report, ReportError};
use payment_flow::txout::{bytes_eq, find_change, TxOut};

fn bytes(s: &str) -> Vec<u8> {
    s.as_bytes().to_vec()
}

fn sample_outputs() -> Vec<TxOut> {
    vec![
        TxOut { address: bytes("trader-addr"), amount_sats: 2_000_000_000 },
        TxOut { address: bytes("change-addr"), amount_sats: 2_999_999_000 },
    ]
}

#[test]
fn bytes_eq_tells_equal_from_unequal() {
    assert!(bytes_eq(&bytes("abc"), &bytes("abc")));
    assert!(!bytes_eq(&bytes("abc"), &bytes("abd")));
    assert!(!bytes_eq(&bytes("abc"), &bytes("ab")));
    assert!(bytes_eq(&bytes(""), &bytes("")));
}

#[test]
fn change_is_first_output_not_paying_the_trader() {
    let outs = sample_outputs();
    assert_eq!(find_change(&outs, &bytes("trader-addr")), Some(1));
}

#[test]
fn change_address_differs_from_the_traders() {
    let outs = sample_outputs();
    let i = find_change(&outs, &bytes("trader-addr")).unwrap();
    assert_ne!(outs[i].address, bytes("trader-addr"));
}

#[test]
fn no_change_when_every_output_pays_the_trader() {
    let outs = vec![
        TxOut { address: bytes("trader-addr"), amount_sats: 10 },
        TxOut { address: bytes("trader-addr"), amount_sats: 20 },
    ];
    assert_eq!(find_change(&outs, &bytes("trader-addr")), None);
    assert_eq!(find_change(&Vec::new(), &bytes("trader-addr")), None);
}

#[test]
fn report_renders_ten_lines_in_order() {
    let report = build_report(
        bytes("txid-0123"),
        bytes("miner-addr"),
        5_000_000_000,
        bytes("trader-addr"),
        2_000_000_000,
        sample_outputs(),
        102,
        bytes("blockhash-abcd"),
    )
    .unwrap();
    let text = String::from_utf8(render_report(&report)).unwrap();
    assert_eq!(
        text,
        "txid-0123\n\
         miner-addr\n\
         50.00000000\n\
         trader-addr\n\
         20.00000000\n\
         change-addr\n\
         29.99999000\n\
         0.00001000\n\
         102\n\
         blockhash-abcd\n"
    );
    let lines: Vec<&str> = text.split_terminator('\n').collect();
    assert_eq!(lines.len(), 10);
}

#[test]
fn fee_line_is_input_less_output_less_change() {
    let report = build_report(
        bytes("t"),
        bytes("m"),
        5_000_000_000,
        bytes("trader"),
        2_000_000_000,
        vec![
            TxOut { address: bytes("trader"), amount_sats: 2_000_000_000 },
            TxOut { address: bytes("change"), amount_sats: 2_999_999_000 },
        ],
        1,
        bytes("h"),
    )
    .unwrap();
    assert_eq!(report.fee_sats, 5_000_000_000 - 2_000_000_000 - 2_999_999_000);
}

#[test]
fn report_without_change_leaves_the_change_lines_empty() {
    let report = build_report(
        bytes("txid"),
        bytes("miner"),
        5_000_000_000,
        bytes("trader"),
        2_000_000_000,
        vec![TxOut { address: bytes("trader"), amount_sats: 2_000_000_000 }],
        7,
        bytes("hash"),
    )
    .unwrap();
    let text = String::from_utf8(render_report(&report)).unwrap();
    assert_eq!(
        text,
        "txid\nminer\n50.00000000\ntrader\n20.00000000\n\n\n30.00000000\n7\nhash\n"
    );
}

#[test]
fn report_refused_when_outputs_exceed_the_input() {
    let r = build_report(
        bytes("txid"),
        bytes("miner"),
        1_000_000_000,
        bytes("trader"),
        2_000_000_000,
        sample_outputs(),
        7,
        bytes("hash"),
    );
    assert!(matches!(r, Err(ReportError::OutputsExceedInput)));
}
