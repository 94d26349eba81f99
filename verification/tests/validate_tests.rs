//! Tests of the consistency validator of the audit path.

use indexmap::IndexMap;
use perfin::{normalize_relation_name, ParseError, RelationRegistry};

fn attrs(pairs: Vec<(&str, &str)>) -> IndexMap<String, String> {
    let mut m = IndexMap::new();
    for (k, v) in pairs {
        m.insert(k.to_string(), v.to_string());
    }
    m
}

#[test]
fn second_name_for_same_iban_is_a_clash() {
    let iban = "NL00AAAA0000000001".to_string();
    let mut reg = RelationRegistry::new();
    reg.register("ACME Corp", Some(&iban), "OV", "first", attrs(vec![]))
        .unwrap();
    let err = reg
        .register("Other Co", Some(&iban), "OV", "second", attrs(vec![("K", "V")]))
        .unwrap_err();
    match err {
        ParseError::NameClash { new_name, existing, iban: i, attributes } => {
            assert_eq!(new_name, "Other Co");
            assert_eq!(existing, "ACME Corp");
            assert_eq!(i, "NL00AAAA0000000001");
            assert_eq!(attributes.get("K"), Some(&"V".to_string()));
        }
        _ => panic!("expected a name clash"),
    }
}

#[test]
fn same_name_for_same_iban_is_accepted_case_insensitively() {
    let iban = "NL00AAAA0000000001".to_string();
    let mut reg = RelationRegistry::new();
    reg.register("ACME Corp", Some(&iban), "OV", "first", attrs(vec![]))
        .unwrap();
    reg.register("acme corp", Some(&iban), "OV", "second", attrs(vec![]))
        .unwrap();
    assert_eq!(reg.name_for_iban("NL00AAAA0000000001"), Some(&"ACME Corp".to_string()));
}

#[test]
fn missing_iban_outside_allow_list_is_rejected() {
    let mut reg = RelationRegistry::new();
    let err = reg
        .register("Someone", None, "OV", "descr", attrs(vec![("X", "1")]))
        .unwrap_err();
    match err {
        ParseError::IbanMissing { attributes } => {
            assert_eq!(attributes.get("X"), Some(&"1".to_string()));
        }
        _ => panic!("expected a missing-IBAN error"),
    }
}

#[test]
fn cash_and_terminal_codes_may_lack_an_iban() {
    let mut reg = RelationRegistry::new();
    reg.register("Someone", None, "BA", "d", attrs(vec![])).unwrap();
    reg.register("Someone", None, "DV", "d", attrs(vec![])).unwrap();
    reg.register("Someone", None, "GM", "d", attrs(vec![])).unwrap();
}

#[test]
fn transfer_and_correction_markers_may_lack_an_iban() {
    let mut reg = RelationRegistry::new();
    reg.register("Someone", None, "OV", "d", attrs(vec![("Van/Naar", "savings")]))
        .unwrap();
    reg.register("Someone", None, "OV", "d", attrs(vec![("Correctie", "x")]))
        .unwrap();
}

#[test]
fn extracted_name_must_match_declared_name() {
    let mut reg = RelationRegistry::new();
    let err = reg
        .register(
            "ACME Corp",
            None,
            "BA",
            "the description",
            attrs(vec![("Naam", "Someone Else")]),
        )
        .unwrap_err();
    match err {
        ParseError::NameMismatch { name, description, attributes } => {
            assert_eq!(name, "ACME Corp");
            assert_eq!(description, "the description");
            assert_eq!(attributes.get("Naam"), Some(&"Someone Else".to_string()));
        }
        _ => panic!("expected a name mismatch"),
    }
}

#[test]
fn extracted_name_matching_up_to_case_is_accepted() {
    let mut reg = RelationRegistry::new();
    reg.register("ACME Corp", None, "BA", "d", attrs(vec![("Naam", "acme CORP")]))
        .unwrap();
}

#[test]
fn machine_prefix_is_stripped_from_names() {
    assert_eq!(normalize_relation_name("BCK &*Cafe Zurich"), "Cafe Zurich");
    assert_eq!(normalize_relation_name("  BCK *Cafe  "), "Cafe");
    assert_eq!(normalize_relation_name("Plain Name"), "Plain Name");
    assert_eq!(normalize_relation_name("*starts with star"), "*starts with star");
    assert_eq!(normalize_relation_name("lower *case"), "lower *case");
}
