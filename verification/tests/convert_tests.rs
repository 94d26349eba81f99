//! Tests of row conversion: amount and date parsing, the content-derived
//! identifier, the kind codes, and the small helpers.

use perfin::convert::{convert_record, parse_amount_cents, parse_date_yyyymmdd};
use perfin::text::{replace_all, trim};
use perfin::{
    clamp, first_letter_to_uppper_case, Account, Accounts, BankFormat, BankFormats, Date,
    IngImport, Period, TransactionCode,
};

#[test]
fn amounts_parse_to_cents() {
    assert_eq!(parse_amount_cents("123,45"), Some(12345));
    assert_eq!(parse_amount_cents("0,5"), Some(50));
    assert_eq!(parse_amount_cents("-12,34"), Some(-1234));
    assert_eq!(parse_amount_cents("1234"), Some(123400));
    assert_eq!(parse_amount_cents("12.34"), Some(1234));
    assert_eq!(parse_amount_cents("0,00"), Some(0));
}

#[test]
fn malformed_amounts_are_rejected() {
    assert_eq!(parse_amount_cents(""), None);
    assert_eq!(parse_amount_cents("-"), None);
    assert_eq!(parse_amount_cents("12,345"), None);
    assert_eq!(parse_amount_cents("a,b"), None);
    assert_eq!(parse_amount_cents("12,"), None);
    assert_eq!(parse_amount_cents(",50"), None);
}

#[test]
fn compact_dates_parse() {
    assert_eq!(
        parse_date_yyyymmdd("20220126"),
        Some(Date { year: 2022, month: 1, day: 26 })
    );
    assert_eq!(parse_date_yyyymmdd("20220230"), None);
    assert_eq!(parse_date_yyyymmdd("garbage"), None);
}

#[test]
fn converted_row_has_stable_content_derived_id() {
    let record = IngImport {
        date: "20220126".to_string(),
        name: "Acme".to_string(),
        iban: "NL01OWN0000000001".to_string(),
        counter_iban: None,
        code: "IC".to_string(),
        debit_or_credit: "Af".to_string(),
        info: "Machtiging ID: X1 Omschrijving: monthly fee".to_string(),
        amount: "12,34".to_string(),
        balance_after_transaction: "100,00".to_string(),
        tag: Some("#books".to_string()),
    };
    let tx = convert_record(2, record).unwrap();
    assert_eq!(
        tx.id,
        "92d6a734208ce4730639fca1c19805d802ae27077d876cd7c0c467032a0c950b"
    );
    assert_eq!(tx.amount, -1234);
    assert_eq!(tx.balance_after, 10000);
    assert_eq!(tx.balance_before, 11234);
    assert_eq!(tx.date, Date { year: 2022, month: 1, day: 26 });
    assert_eq!(tx.properties.get("Naam"), Some(&"Acme".to_string()));
    assert_eq!(tx.properties.get("Tag"), Some(&"books".to_string()));
    assert_eq!(
        tx.properties.get("Machtiging ID"),
        Some(&"X1".to_string())
    );
    assert_eq!(tx.name(), Some("Acme".to_string()));
}

#[test]
fn transaction_codes_round_trip() {
    assert!(matches!(TransactionCode::from_code("GT"), Some(TransactionCode::Girotel)));
    assert!(matches!(TransactionCode::from_code("GM"), Some(TransactionCode::ATM)));
    assert!(matches!(TransactionCode::from_code("BA"), Some(TransactionCode::PayTerminal)));
    assert!(matches!(TransactionCode::from_code("DV"), Some(TransactionCode::Other)));
    assert!(matches!(TransactionCode::from_code("ID"), Some(TransactionCode::IDeal)));
    assert!(matches!(TransactionCode::from_code("IC"), Some(TransactionCode::Collect)));
    assert!(matches!(TransactionCode::from_code("VZ"), Some(TransactionCode::Giro)));
    assert!(matches!(TransactionCode::from_code("OV"), Some(TransactionCode::Transfer)));
    assert!(TransactionCode::from_code("XX").is_none());
    assert_eq!(TransactionCode::Collect.label(), "Collect");
}

#[test]
fn first_letter_is_upper_cased() {
    assert_eq!(first_letter_to_uppper_case("hello".to_string()), "Hello");
    assert_eq!(first_letter_to_uppper_case("Hello".to_string()), "Hello");
    assert_eq!(first_letter_to_uppper_case(String::new()), "");
    assert_eq!(first_letter_to_uppper_case("x".to_string()), "X");
}

#[test]
fn clamp_forces_into_bounds() {
    assert_eq!(clamp(&5, 1, 12), 5);
    assert_eq!(clamp(&0, 1, 12), 1);
    assert_eq!(clamp(&42, 1, 12), 12);
}

#[test]
fn periods_cover_their_months() {
    assert_eq!(Period::Quarter(2).as_range(), 4..=6);
    assert_eq!(Period::Month(3).as_range(), 3..=3);
    assert_eq!(Period::Month(99).as_range(), 12..=12);
    assert_eq!(Period::Months(2, 5).as_range(), 2..=5);
    assert_eq!(Period::Halfyear(2).as_range(), 7..=12);
    assert_eq!(Period::Year.as_range(), 1..=12);
    assert!(Period::Quarter(1).contains(Date { year: 2022, month: 2, day: 1 }));
    assert!(!Period::Quarter(1).contains(Date { year: 2022, month: 4, day: 1 }));
}

#[test]
fn text_helpers_behave() {
    assert_eq!(trim("  a b  "), "a b");
    assert_eq!(trim(""), "");
    assert_eq!(trim("   "), "");
    assert_eq!(replace_all("a{naam}b{naam}", "{naam}", "X"), "aXbX");
    assert_eq!(replace_all("abc", "zz", "X"), "abc");
}

#[test]
fn accounts_collection_keeps_last_record_per_code() {
    let accounts = Accounts::from_records(vec![
        Account { code: "4300".to_string(), description: "Old".to_string() },
        Account { code: "4400".to_string(), description: "Groceries".to_string() },
        Account { code: "4300".to_string(), description: "New".to_string() },
    ]);
    assert_eq!(accounts.len(), 2);
    assert_eq!(accounts.get("4300").unwrap().description, "New");
    assert_eq!(accounts.get("4400").unwrap().description, "Groceries");
    assert!(accounts.get("9999").is_none());
}

#[test]
fn bank_formats_collection_keeps_last_record_per_name() {
    let formats = BankFormats::from_records(vec![
        BankFormat { name: "ing".to_string(), description: "Old".to_string() },
        BankFormat { name: "ing".to_string(), description: "ING CSV".to_string() },
    ]);
    assert_eq!(formats.get("ing").unwrap().description, "ING CSV");
    assert!(formats.get("other").is_none());
}
