//! Tests of the classification resolver and the ledger repositories.

use perfin::{
    classify, Account, AssignByContractDefinition, AssignByDescriptionDefinition, AssignmentReason,
    BankAccount, Date, IngImport, Ledger, LedgerError, PropMap, Relation,
};
use perfin::convert::process_row;

fn test_ledger() -> Ledger {
    Ledger::from_parts(
        "org1".to_string(),
        2022,
        "EUR".to_string(),
        vec![BankAccount {
            iban: "NL01OWN0000000001".to_string(),
            cost_center_code: "main".to_string(),
            description: "Main account".to_string(),
        }],
        vec!["main".to_string()],
        vec![
            Account { code: "4300".to_string(), description: "Utility".to_string() },
            Account { code: "4400".to_string(), description: "Groceries".to_string() },
            Account { code: "8000".to_string(), description: "Fees".to_string() },
        ],
        vec![Relation {
            reference: "NL00AAAA0000000001".to_string(),
            name: "ACME Corp".to_string(),
        }],
        vec![("4400".to_string(), vec!["Albert Heijn".to_string()])],
        vec![(
            "main & ACME Corp".to_string(),
            vec![AssignByDescriptionDefinition {
                account_code: "8000".to_string(),
                search_expression: "fee".to_string(),
                note: None,
            }],
        )],
        vec![(
            "X1".to_string(),
            AssignByContractDefinition {
                account_code: "4300".to_string(),
                description: Some("Utility".to_string()),
                note: None,
            },
        )],
    )
    .unwrap()
}

#[test]
fn contract_match_assigns_account_and_merges_description() {
    let ledger = test_ledger();
    let mut attrs = PropMap::new();
    attrs.insert("Machtiging ID".to_string(), "X1".to_string());
    attrs.insert("Omschrijving".to_string(), "monthly fee".to_string());
    let r = classify(&ledger, &ledger, "main", None, attrs);
    assert_eq!(r.account_code, Some("4300".to_string()));
    assert!(matches!(r.assignment_reason, Some(AssignmentReason::Contract)));
    assert_eq!(
        r.attributes.get("Omschrijving"),
        Some(&"Utility monthly fee".to_string())
    );
    assert!(r.attributes.get("Machtiging ID").is_none());
}

#[test]
fn contract_without_canonical_description_keeps_existing() {
    let ledger = Ledger::from_parts(
        "org1".to_string(),
        2022,
        "EUR".to_string(),
        vec![],
        vec![],
        vec![Account { code: "4300".to_string(), description: "Utility".to_string() }],
        vec![],
        vec![],
        vec![],
        vec![(
            "X2".to_string(),
            AssignByContractDefinition {
                account_code: "4300".to_string(),
                description: None,
                note: None,
            },
        )],
    )
    .unwrap();
    let mut attrs = PropMap::new();
    attrs.insert("Machtiging ID".to_string(), "X2".to_string());
    attrs.insert("Omschrijving".to_string(), "keep me".to_string());
    let r = classify(&ledger, &ledger, "main", None, attrs);
    assert_eq!(r.account_code, Some("4300".to_string()));
    assert_eq!(r.attributes.get("Omschrijving"), Some(&"keep me".to_string()));
}

#[test]
fn tag_reference_assigns_account_and_consumes_tag() {
    let ledger = test_ledger();
    let mut attrs = PropMap::new();
    attrs.insert("Tag".to_string(), "4400".to_string());
    let r = classify(&ledger, &ledger, "main", None, attrs);
    assert_eq!(r.account_code, Some("4400".to_string()));
    assert!(matches!(r.assignment_reason, Some(AssignmentReason::Reference)));
    assert!(r.attributes.get("Tag").is_none());
}

#[test]
fn unknown_tag_is_still_consumed() {
    let ledger = test_ledger();
    let mut attrs = PropMap::new();
    attrs.insert("Tag".to_string(), "9999".to_string());
    let r = classify(&ledger, &ledger, "main", None, attrs);
    assert!(r.account_code.is_none());
    assert!(r.assignment_reason.is_none());
    assert!(r.attributes.get("Tag").is_none());
}

#[test]
fn description_search_overwrites_contract_assignment() {
    // The description rule fires even though the contract step already
    // assigned an account: the configured rule precedence is preserved.
    let ledger = test_ledger();
    let counter = "NL00AAAA0000000001".to_string();
    let mut attrs = PropMap::new();
    attrs.insert("Machtiging ID".to_string(), "X1".to_string());
    attrs.insert("Omschrijving".to_string(), "monthly fee".to_string());
    let r = classify(&ledger, &ledger, "main", Some(&counter), attrs);
    assert_eq!(r.account_code, Some("8000".to_string()));
    assert!(matches!(r.assignment_reason, Some(AssignmentReason::Description)));
    assert_eq!(r.relation_name, Some("ACME Corp".to_string()));
    assert_eq!(r.relation_iban, Some(counter));
}

#[test]
fn relation_name_search_assigns_account_and_full_name() {
    let ledger = test_ledger();
    let mut attrs = PropMap::new();
    attrs.insert("Naam".to_string(), "ALBERT HEIJN 1234 AMS".to_string());
    let r = classify(&ledger, &ledger, "main", None, attrs);
    assert_eq!(r.account_code, Some("4400".to_string()));
    assert!(matches!(r.assignment_reason, Some(AssignmentReason::RelationName)));
    assert_eq!(r.relation_name, Some("ALBERT HEIJN".to_string()));
    assert!(r.attributes.get("Naam").is_none());
}

#[test]
fn unmatched_transaction_carries_no_assignment() {
    let ledger = test_ledger();
    let mut attrs = PropMap::new();
    attrs.insert("Omschrijving".to_string(), "nothing special".to_string());
    let r = classify(&ledger, &ledger, "main", None, attrs);
    assert!(r.account_code.is_none());
    assert!(r.assignment_reason.is_none());
    assert!(r.relation_name.is_none());
}

fn row(iban: &str, info: &str) -> IngImport {
    IngImport {
        date: "20220126".to_string(),
        name: "Acme".to_string(),
        iban: iban.to_string(),
        counter_iban: None,
        code: "IC".to_string(),
        debit_or_credit: "Af".to_string(),
        info: info.to_string(),
        amount: "12,34".to_string(),
        balance_after_transaction: "100,00".to_string(),
        tag: None,
    }
}

#[test]
fn process_row_converts_and_classifies() {
    let ledger = test_ledger();
    let tx = process_row(
        2,
        row("NL01OWN0000000001", "Machtiging ID: X1 Omschrijving: monthly fee"),
        &ledger,
        &ledger,
        &ledger,
    )
    .unwrap()
    .unwrap();
    assert_eq!(tx.cost_center, "main");
    assert_eq!(tx.date, Date { year: 2022, month: 1, day: 26 });
    assert_eq!(tx.amount, -1234);
    assert_eq!(tx.account_code, Some("4300".to_string()));
    assert!(matches!(tx.assignment_reason, Some(AssignmentReason::Contract)));
    assert_eq!(tx.id.len(), 64);
}

#[test]
fn unmapped_iban_is_silently_dropped() {
    let ledger = test_ledger();
    assert!(process_row(2, row("NL99XXXX0000000009", "x"), &ledger, &ledger, &ledger).is_none());
}

#[test]
fn bad_date_is_a_conversion_error() {
    let ledger = test_ledger();
    let mut r = row("NL01OWN0000000001", "x");
    r.date = "not-a-date".to_string();
    match process_row(7, r, &ledger, &ledger, &ledger) {
        Some(Err(LedgerError::RecordConversionFailed { line_nr, field })) => {
            assert_eq!(line_nr, 7);
            assert_eq!(field, "date");
        }
        _ => panic!("expected a conversion error"),
    }
}

#[test]
fn unknown_cost_center_is_rejected() {
    let err = Ledger::from_parts(
        "org1".to_string(),
        2022,
        "EUR".to_string(),
        vec![BankAccount {
            iban: "NL01OWN0000000001".to_string(),
            cost_center_code: "nowhere".to_string(),
            description: String::new(),
        }],
        vec!["main".to_string()],
        vec![],
        vec![],
        vec![],
        vec![],
        vec![],
    )
    .unwrap_err();
    match err {
        LedgerError::UnrecognisedCostCenterCode(c) => assert_eq!(c, "nowhere"),
        _ => panic!("expected an unrecognised cost center"),
    }
}

#[test]
fn unknown_account_in_name_rules_is_rejected() {
    let err = Ledger::from_parts(
        "org1".to_string(),
        2022,
        "EUR".to_string(),
        vec![],
        vec![],
        vec![],
        vec![],
        vec![("9999".to_string(), vec!["term".to_string()])],
        vec![],
        vec![],
    )
    .unwrap_err();
    match err {
        LedgerError::UnrecognisedAccountCode(c) => assert_eq!(c, "9999"),
        _ => panic!("expected an unrecognised account code"),
    }
}

#[test]
fn invalid_search_expression_is_rejected() {
    let err = Ledger::from_parts(
        "org1".to_string(),
        2022,
        "EUR".to_string(),
        vec![],
        vec![],
        vec![Account { code: "4400".to_string(), description: String::new() }],
        vec![],
        vec![("4400".to_string(), vec!["(".to_string()])],
        vec![],
        vec![],
    )
    .unwrap_err();
    assert!(matches!(err, LedgerError::IncorrectRegex { .. }));
}

#[test]
fn accounts_flatten_for_rendering() {
    let ledger = test_ledger();
    let flat = ledger.accounts_for_hibernate();
    assert_eq!(flat.len(), 3);
    assert_eq!(flat[0].code, "4300");
    assert_eq!(flat[0].description, "Utility");
}
