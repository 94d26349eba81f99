//! The ledger's record types and the transaction record the import
//! produces.

use vstd::prelude::*;
use vstd::string::*;
use crate::props::{lookup, PropMap};

verus! {

/// A ledger account: its code and a human-readable description.
#[derive(Debug, Clone)]
pub struct Account {
    pub code: String,
    pub description: String,
}

/// The flat account shape handed to the rendering layer.
#[derive(Debug)]
pub struct AccountHibernate {
    pub code: String,
    pub description: String,
}

impl From<&Account> for AccountHibernate {
    fn from(model: &Account) -> (r: AccountHibernate) {
        AccountHibernate { code: model.code.clone(), description: model.description.clone() }
    }
}

impl vstd::std_specs::convert::FromSpecImpl<&Account> for AccountHibernate {
    open spec fn obeys_from_spec() -> bool {
        true
    }

    open spec fn from_spec(model: &Account) -> AccountHibernate {
        AccountHibernate { code: model.code, description: model.description }
    }
}

/// A rule assigning an account to a direct-debit contract reference.
#[derive(Debug)]
pub struct AssignByContractDefinition {
    pub account_code: String,
    pub description: Option<String>,
    pub note: Option<String>,
}

/// A configured description-search rule, before compilation.
#[derive(Debug)]
pub struct AssignByDescriptionDefinition {
    pub account_code: String,
    pub search_expression: String,
    pub note: Option<String>,
}

/// A compiled description-search rule.
#[derive(Debug)]
pub struct AssignByDescription {
    pub account_code: String,
    pub search_expression: regex::Regex,
}

/// A compiled relation-name search rule.
#[derive(Debug)]
pub struct AssignByNameSearch {
    pub account_code: String,
    pub name: String,
    pub search_expression: regex::Regex,
}

/// A bank account of the organisation, tied to a cost center.
#[derive(Debug)]
pub struct BankAccount {
    pub iban: String,
    pub cost_center_code: String,
    pub description: String,
}

/// A supported bank-statement format.
#[derive(Debug)]
pub struct BankFormat {
    pub name: String,
    pub description: String,
}

/// A counterparty, identified by its IBAN reference and canonical name.
#[derive(Debug, Clone)]
pub struct Relation {
    pub reference: String,
    pub name: String,
}

/// The heuristic that produced a transaction's account assignment.
#[derive(Debug, Clone, Copy, PartialEq, Eq, Structural)]
pub enum AssignmentReason {
    Reference,
    RelationName,
    Contract,
    Description,
}

/// A calendar date as plain year, month and day numbers.
#[derive(Debug, Clone, Copy, PartialEq, Eq, Structural)]
pub struct Date {
    pub year: i32,
    pub month: u32,
    pub day: u32,
}

/// The debit/credit flag of an imported row.
#[derive(Debug, Clone, Copy, PartialEq, Eq, Structural)]
pub enum DebitOrCredit {
    Credit,
    Debit,
}

/// A converted statement row, before classification.
pub struct IngTransaction {
    pub id: String,
    pub iban: String,
    pub contra_iban: Option<String>,
    pub date: Date,
    pub balance_before: i64,
    pub amount: i64,
    pub balance_after: i64,
    pub properties: PropMap,
}

impl IngTransaction {
    /// The counterparty name stored among the properties, if any.
    pub fn name(&self) -> (r: Option<String>)
        ensures
            match r {
                Some(n) => lookup(self.properties@, crate::props::name_key()) == Some(n@),
                None => lookup(self.properties@, crate::props::name_key()) is None,
            },
    {
        proof {
            reveal_strlit("Naam");
        }
        match self.properties.get("Naam") {
            Some(name) => Some(name.clone()),
            None => None,
        }
    }
}

/// The classified transaction record the import hands to its caller.
pub struct BankTransaction {
    pub id: String,
    pub date: Date,
    pub cost_center: String,
    pub relation_name: Option<String>,
    pub relation_iban: Option<String>,
    pub attributes: PropMap,
    pub amount: i64,
    pub account_code: Option<String>,
    pub assignment_reason: Option<AssignmentReason>,
}

/// The view of an optional string.
pub open spec fn opt_view(o: Option<String>) -> Option<Seq<char>> {
    match o {
        Some(s) => Some(s@),
        None => None,
    }
}

} // verus!
