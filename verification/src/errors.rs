//! Error kinds surfaced by the engine: configuration defects found while
//! compiling the pattern grammar, and data defects found while auditing
//! parsed transactions.

use vstd::prelude::*;

verus! {

/// Errors of the pattern grammar and of the audit path.
#[derive(Debug)]
pub enum ParseError {
    /// An alias marker referred to a name the alias table does not define.
    AliasNotDefined { alias: String, definition: String },
    /// Alias substitution ran into a reference cycle.
    CircularAlias { alias: String },
    /// A fully substituted pattern is not valid regular-expression syntax.
    RegexDefinitionError { source: regex::Error },
    /// The name extracted from a description disagrees with the
    /// transaction's own declared name.
    NameMismatch { name: String, description: String, attributes: indexmap::IndexMap<String, String> },
    /// A counter-IBAN was already registered under a different name.
    NameClash {
        new_name: String,
        existing: String,
        iban: String,
        attributes: indexmap::IndexMap<String, String>,
    },
    /// A transaction without a counter-IBAN that is not allowed to lack one.
    IbanMissing { attributes: indexmap::IndexMap<String, String> },
}

/// Errors of ledger construction and row conversion.
#[derive(Debug)]
pub enum LedgerError {
    /// A bank account referred to a cost center the ledger does not define.
    UnrecognisedCostCenterCode(String),
    /// A rule referred to an account code the ledger does not define.
    UnrecognisedAccountCode(String),
    /// A search expression is not valid regular-expression syntax.
    IncorrectRegex { source: regex::Error },
    /// A field of an imported row could not be converted.
    RecordConversionFailed { line_nr: usize, field: String },
}

} // verus!
