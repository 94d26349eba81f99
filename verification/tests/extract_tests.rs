//! Tests of the heuristic property extractor and the reserved-label
//! normalizations.

use perfin::DescriptionProperties;

#[test]
fn labelled_values_are_split() {
    let props = DescriptionProperties::from_text(
        "Naam: GBLT Omschrijving: incasso maandelijkse termijn Kenmerk: K2BGBL01",
    );
    assert_eq!(
        props.properties.get("Naam"),
        Some(&"GBLT".to_string())
    );
    assert_eq!(
        props.properties.get("Omschrijving"),
        Some(&"incasso maandelijkse termijn".to_string())
    );
    assert_eq!(props.properties.get("Kenmerk"), Some(&"K2BGBL01".to_string()));
    assert_eq!(props.properties.len(), 3);
}

#[test]
fn noise_labels_are_dropped() {
    let props = DescriptionProperties::from_text(
        "Machtiging ID: 11740450 IBAN: NL82DEUT0319804615 Incassant ID: NL07ZZZ0820 Valutadatum: 26-01-2022 Check: x",
    );
    assert_eq!(
        props.properties.get("Machtiging ID"),
        Some(&"11740450".to_string())
    );
    assert!(props.properties.get("IBAN").is_none());
    assert!(props.properties.get("Incassant ID").is_none());
    assert!(props.properties.get("Valutadatum").is_none());
    assert!(props.properties.get("Check").is_none());
    assert_eq!(props.properties.len(), 1);
}

#[test]
fn leading_prefix_is_merged_into_description() {
    let props = DescriptionProperties::from_text("Some intro Omschrijving: rest");
    assert_eq!(
        props.properties.get("Omschrijving"),
        Some(&"Some intro rest".to_string())
    );
}

#[test]
fn leading_prefix_without_description_label_becomes_description() {
    let props = DescriptionProperties::from_text("Some intro Kenmerk: K1");
    assert_eq!(
        props.properties.get("Omschrijving"),
        Some(&"Some intro".to_string())
    );
    assert_eq!(props.properties.get("Kenmerk"), Some(&"K1".to_string()));
}

#[test]
fn text_without_labels_extracts_nothing() {
    let props = DescriptionProperties::from_text("just some plain narrative text");
    assert_eq!(props.properties.len(), 0);
}

#[test]
fn merged_description_does_not_duplicate_prefix() {
    // Re-running the extractor on the already-merged description value
    // finds no label boundary, so the prefix cannot be prepended twice.
    let first = DescriptionProperties::from_text("Some intro Omschrijving: rest");
    let merged = first.properties.get("Omschrijving").unwrap().clone();
    assert_eq!(merged, "Some intro rest");
    let again = DescriptionProperties::from_text(merged.as_str());
    assert_eq!(again.properties.len(), 0);
}

#[test]
fn empty_values_are_skipped() {
    let props = DescriptionProperties::from_text("Kenmerk:    ");
    assert_eq!(props.properties.len(), 0);
}

#[test]
fn values_are_trimmed_at_the_end() {
    let props = DescriptionProperties::from_text("Kenmerk: K1   Naam: Acme");
    assert_eq!(props.properties.get("Kenmerk"), Some(&"K1".to_string()));
    assert_eq!(props.properties.get("Naam"), Some(&"Acme".to_string()));
}

#[test]
fn define_name_strips_terminal_prefix() {
    let mut props = DescriptionProperties::empty();
    props.define_name("CCVAlbert Heijn");
    assert_eq!(props.properties.get("Naam"), Some(&"Albert Heijn".to_string()));
    props.define_name("Plain Name");
    assert_eq!(props.properties.get("Naam"), Some(&"Plain Name".to_string()));
}

#[test]
fn define_tag_strips_marker() {
    let mut props = DescriptionProperties::empty();
    props.define_tag("#groceries".to_string());
    assert_eq!(props.properties.get("Tag"), Some(&"groceries".to_string()));
    props.define_tag("plain".to_string());
    assert_eq!(props.properties.get("Tag"), Some(&"plain".to_string()));
}

#[test]
fn description_accessor_reads_reserved_label() {
    let mut props = DescriptionProperties::empty();
    assert!(props.description().is_none());
    props.define_description("hello".to_string());
    assert_eq!(props.description(), Some(&"hello".to_string()));
}

#[test]
fn rendering_puts_description_first() {
    let mut props = DescriptionProperties::empty();
    props.define_description("the description".to_string());
    props.properties.insert("Kenmerk".to_string(), "K1".to_string());
    props.properties.insert("Naam".to_string(), "Acme".to_string());
    assert_eq!(props.to_text(), "the description, Kenmerk: K1, Naam: Acme");

    let mut only_descr = DescriptionProperties::empty();
    only_descr.define_description("alone".to_string());
    assert_eq!(only_descr.to_text(), "alone");

    let mut no_descr = DescriptionProperties::empty();
    no_descr.properties.insert("Kenmerk".to_string(), "K1".to_string());
    assert_eq!(no_descr.to_text(), "Kenmerk: K1");

    assert_eq!(DescriptionProperties::empty().to_text(), "");
}
