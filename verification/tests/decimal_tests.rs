//! Decimal text: amount parsing and formatting, row conversion.

use payment::command::{CsvRow, TransactionTypeCommand};
use payment::decimal::{parse_amount, parse_u16_dec, parse_u32_dec, parse_u64_dec, trim};

#[test]
fn test_parse_amount_four_decimals() {
    assert_eq!(parse_amount("1.2345"), Some(12345));
    assert_eq!(parse_amount("100.0"), Some(1_000_000));
    assert_eq!(parse_amount("100"), Some(1_000_000));
    assert_eq!(parse_amount("0.0001"), Some(1));
    assert_eq!(parse_amount("-5.5"), Some(-55_000));
    assert_eq!(parse_amount("0"), Some(0));
}

#[test]
fn test_parse_amount_rejects_malformed() {
    assert_eq!(parse_amount(""), None);
    assert_eq!(parse_amount("abc"), None);
    assert_eq!(parse_amount("1.23456"), None, "more than four fractional digits");
    assert_eq!(parse_amount("1."), None, "point without fractional digits");
    assert_eq!(parse_amount(".5"), None, "missing integer part");
    assert_eq!(parse_amount("1.2.3"), None);
    assert_eq!(parse_amount("1 2"), None);
    assert_eq!(parse_amount("999999999999999999999999"), None, "magnitude overflow");
}

#[test]
fn test_parse_integers() {
    assert_eq!(parse_u64_dec("0"), Some(0));
    assert_eq!(parse_u64_dec("18446744073709551615"), Some(u64::MAX));
    assert_eq!(parse_u64_dec("18446744073709551616"), None);
    assert_eq!(parse_u64_dec("12x"), None);
    assert_eq!(parse_u64_dec(""), None);

    assert_eq!(parse_u32_dec("4294967295"), Some(u32::MAX));
    assert_eq!(parse_u32_dec("4294967296"), None);

    assert_eq!(parse_u16_dec("65535"), Some(u16::MAX));
    assert_eq!(parse_u16_dec("65536"), None);
    assert_eq!(parse_u16_dec("7"), Some(7));
}

#[test]
fn test_trim_blanks() {
    assert_eq!(trim("  deposit \t"), "deposit");
    assert_eq!(trim("deposit"), "deposit");
    assert_eq!(trim("   "), "");
    assert_eq!(trim("a b"), "a b");
    assert_eq!(trim("100.0\r"), "100.0");
}

#[test]
fn test_row_conversion() {
    let row = CsvRow {
        transaction_type: String::from("Deposit"),
        client: String::from(" 7 "),
        tx: String::from("9"),
        amount: String::from(" 2.5 "),
    };
    match TransactionTypeCommand::try_from(&row).unwrap() {
        TransactionTypeCommand::Deposit(d) => {
            assert_eq!(d.client_id, 7);
            assert_eq!(d.tx_id, 9);
            assert_eq!(d.amount, 25_000);
        }
        _ => panic!("expected a deposit"),
    }

    let row = CsvRow {
        transaction_type: String::from("dispute"),
        client: String::from("1"),
        tx: String::from("2"),
        amount: String::from(""),
    };
    assert!(matches!(
        TransactionTypeCommand::try_from(&row).unwrap(),
        TransactionTypeCommand::Dispute(_)
    ));

    let row = CsvRow {
        transaction_type: String::from("deposit"),
        client: String::from("1"),
        tx: String::from("2"),
        amount: String::from(""),
    };
    assert!(TransactionTypeCommand::try_from(&row).is_err(), "deposit requires amount");

    let row = CsvRow {
        transaction_type: String::from("teleport"),
        client: String::from("1"),
        tx: String::from("2"),
        amount: String::from("1.0"),
    };
    assert!(TransactionTypeCommand::try_from(&row).is_err(), "unknown transaction type");
}

#[test]
fn test_row_from_line() {
    let row = CsvRow::from_line("deposit,1,2,3.5").unwrap();
    assert_eq!(row.transaction_type, "deposit");
    assert_eq!(row.client, "1");
    assert_eq!(row.tx, "2");
    assert_eq!(row.amount, "3.5");

    let row = CsvRow::from_line("dispute,1,2,").unwrap();
    assert_eq!(row.amount, "");

    assert!(CsvRow::from_line("deposit,1,2").is_none(), "three fields");
    assert!(CsvRow::from_line("deposit,1,2,3,4").is_none(), "five fields");
    assert!(CsvRow::from_line("no commas at all").is_none());
}
