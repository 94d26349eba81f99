//! Tests of the pattern compiler and the backward sequential matcher.

use perfin::{DescriptionParser, FormatDefinitions, ParseError};

fn defs(
    aliases: Vec<(&str, &str)>,
    kinds: Vec<(&str, Vec<Vec<(&str, &str)>>)>,
) -> FormatDefinitions {
    FormatDefinitions {
        aliases: aliases
            .into_iter()
            .map(|(k, v)| (k.to_string(), v.to_string()))
            .collect(),
        definitions_per_mutation_kind: kinds
            .into_iter()
            .map(|(k, cands)| {
                (
                    k.to_string(),
                    cands
                        .into_iter()
                        .map(|c| {
                            c.into_iter()
                                .map(|(n, f)| (n.to_string(), f.to_string()))
                                .collect()
                        })
                        .collect(),
                )
            })
            .collect(),
    }
}

#[test]
fn datum_tijd_both_captured() {
    // The fields stand in logical text order in the configuration and are
    // tried in reverse: the time is peeled off the end first.
    let parser = DescriptionParser::try_from(&defs(
        vec![],
        vec![("GT", vec![vec![("^Datum", "[0-9-]+"), ("^Tijd", "[0-9:]+")]])],
    ))
    .unwrap();
    let result = parser.parse("GT", "Datum/Tijd: 26-01-2022 15:42").unwrap();
    assert_eq!(result.get("Tijd"), Some(&"15:42".to_string()));
    assert_eq!(result.get("Datum"), Some(&"26-01-2022".to_string()));
    assert_eq!(result.len(), 2);
}

#[test]
fn datum_tijd_without_values_is_no_match() {
    let parser = DescriptionParser::try_from(&defs(
        vec![],
        vec![("GT", vec![vec![("^Datum", "[0-9-]+"), ("^Tijd", "[0-9:]+")]])],
    ))
    .unwrap();
    assert!(parser.parse("GT", "Datum/Tijd:").is_none());
}

#[test]
fn unknown_kind_parses_nothing() {
    let parser = DescriptionParser::try_from(&defs(
        vec![],
        vec![("GT", vec![vec![("Code", "[0-9]+")]])],
    ))
    .unwrap();
    assert!(parser.parse("ZZ", "Code: 42").is_none());
}

#[test]
fn kind_without_candidates_parses_nothing() {
    let parser = DescriptionParser::try_from(&defs(vec![], vec![("OV", vec![])])).unwrap();
    assert!(parser.parse("OV", "Code: 42").is_none());
}

#[test]
fn first_listed_candidate_wins() {
    let parser = DescriptionParser::try_from(&defs(
        vec![],
        vec![("OV", vec![vec![("Code", "4.")], vec![("^Rest", ".+")]])],
    ))
    .unwrap();
    let result = parser.parse("OV", "Code: 42").unwrap();
    assert_eq!(result.get("Code"), Some(&"42".to_string()));
    assert_eq!(result.len(), 1);

    let swapped = DescriptionParser::try_from(&defs(
        vec![],
        vec![("OV", vec![vec![("^Rest", ".+")], vec![("Code", "4.")]])],
    ))
    .unwrap();
    let result = swapped.parse("OV", "Code: 42").unwrap();
    assert_eq!(result.get("Rest"), Some(&"Code: 42".to_string()));
    assert_eq!(result.len(), 1);
}

#[test]
fn alias_is_substituted() {
    let parser = DescriptionParser::try_from(&defs(
        vec![("num", "[0-9]+")],
        vec![("IC", vec![vec![("Value", "~num~")]])],
    ))
    .unwrap();
    let result = parser.parse("IC", "Value: 123").unwrap();
    assert_eq!(result.get("Value"), Some(&"123".to_string()));
}

#[test]
fn nested_aliases_are_substituted() {
    let parser = DescriptionParser::try_from(&defs(
        vec![("digit", "[0-9]"), ("num", "~digit~+")],
        vec![("IC", vec![vec![("Value", "~num~")]])],
    ))
    .unwrap();
    let result = parser.parse("IC", "Value: 4711").unwrap();
    assert_eq!(result.get("Value"), Some(&"4711".to_string()));
}

#[test]
fn undefined_alias_is_reported() {
    let err = DescriptionParser::try_from(&defs(
        vec![],
        vec![("IC", vec![vec![("Value", "~missing~")]])],
    ))
    .unwrap_err();
    match err {
        ParseError::AliasNotDefined { alias, definition } => {
            assert_eq!(alias, "missing");
            assert_eq!(definition, "Value: ~missing~");
        }
        _ => panic!("expected an undefined-alias error"),
    }
}

#[test]
fn circular_alias_is_rejected() {
    let err = DescriptionParser::try_from(&defs(
        vec![("a", "~b~"), ("b", "~a~")],
        vec![("IC", vec![vec![("Value", "~a~")]])],
    ))
    .unwrap_err();
    match err {
        ParseError::CircularAlias { alias } => {
            assert!(alias == "a" || alias == "b");
        }
        _ => panic!("expected a circular-alias error"),
    }
}

#[test]
fn self_referential_alias_is_rejected() {
    let err = DescriptionParser::try_from(&defs(
        vec![("a", "x~a~y")],
        vec![("IC", vec![vec![("Value", "~a~")]])],
    ))
    .unwrap_err();
    match err {
        ParseError::CircularAlias { alias } => assert_eq!(alias, "a"),
        _ => panic!("expected a circular-alias error"),
    }
}

#[test]
fn invalid_pattern_syntax_is_reported() {
    let err = DescriptionParser::try_from(&defs(vec![], vec![("IC", vec![vec![("Value", "(")]])]))
        .unwrap_err();
    match err {
        ParseError::RegexDefinitionError { .. } => {}
        _ => panic!("expected a pattern-syntax error"),
    }
}

#[test]
fn optional_element_may_be_absent() {
    let parser = DescriptionParser::try_from(&defs(
        vec![],
        vec![("BA", vec![vec![("Opt?", "x+"), ("Req", "y+")]])],
    ))
    .unwrap();
    let result = parser.parse("BA", "Req: yy").unwrap();
    assert_eq!(result.get("Req"), Some(&"yy".to_string()));
    assert_eq!(result.len(), 1);
}

#[test]
fn all_optional_elements_failing_is_no_match() {
    // A candidate whose optional elements all fail yields an empty
    // mapping, which counts as no match and falls through.
    let parser = DescriptionParser::try_from(&defs(
        vec![],
        vec![(
            "BA",
            vec![
                vec![("Opt?", "x+"), ("Also?", "z+")],
                vec![("^Any", ".+")],
            ],
        )],
    ))
    .unwrap();
    let result = parser.parse("BA", "yy").unwrap();
    assert_eq!(result.get("Any"), Some(&"yy".to_string()));
}

#[test]
fn mandatory_element_failing_abandons_candidate() {
    let parser = DescriptionParser::try_from(&defs(
        vec![],
        vec![("BA", vec![vec![("Req", "x+")]])],
    ))
    .unwrap();
    assert!(parser.parse("BA", "Req: yy").is_none());
}
