//! Core engine for importing bank-statement rows: a data-driven pattern
//! grammar over free-text description fields, a heuristic label extractor,
//! a fixed-priority account classifier, and a consistency validator for the
//! relation registry.

pub mod convert;
pub mod errors;
pub mod extract;
pub mod imap;
pub mod laws;
pub mod matcher;
pub mod models;
pub mod pattern;
pub mod re;
pub mod repos;
pub mod resolve;
pub mod props;
pub mod text;
pub mod util;
pub mod validate;

pub use convert::{convert_record, parse_amount_cents, process_row, IngImport, TransactionCode};
pub use errors::{LedgerError, ParseError};
pub use matcher::{DescriptionParser, FormatDefinitions};
pub use models::{
    Account, AccountHibernate, AssignByContractDefinition, AssignByDescription,
    AssignByDescriptionDefinition, AssignByNameSearch, AssignmentReason, BankAccount, BankFormat,
    BankTransaction, Date, DebitOrCredit, IngTransaction, Relation,
};
pub use props::{DescriptionProperties, PropMap};
pub use repos::{
    AccountsRepository, CostCentersRepository, Ledger, RelationsRepository,
};
pub use resolve::{classify, Classification};
pub use util::{clamp, first_letter_to_uppper_case, Accounts, BankFormats, Period};
pub use validate::{normalize_relation_name, RelationRegistry};
