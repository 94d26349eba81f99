//! Classification resolver: assigns at most one ledger account to a
//! transaction's attributes through a fixed-priority chain — contract
//! reference, tag reference, description search, relation-name search —
//! where each step may consume attribute keys. The description search
//! deliberately overwrites an account set by the contract step, matching
//! the configured rule precedence of the ledger definitions.

use vstd::prelude::*;
use vstd::string::*;
use crate::models::AssignmentReason;
use crate::props::{
    contract_key, description_key, lookup, name_key, remove_key, tag_key, upsert, PropMap,
};
use crate::repos::{AccountsRepository, RelationsRepository};

verus! {

/// The outcome of classifying one transaction's attributes.
pub struct Classification {
    pub attributes: PropMap,
    pub account_code: Option<String>,
    pub assignment_reason: Option<AssignmentReason>,
    pub relation_name: Option<String>,
    pub relation_iban: Option<String>,
}

/// The mathematical shape of a classification outcome.
pub struct ClassView {
    pub attributes: Seq<(Seq<char>, Seq<char>)>,
    pub account_code: Option<Seq<char>>,
    pub assignment_reason: Option<AssignmentReason>,
    pub relation_name: Option<Seq<char>>,
    pub relation_iban: Option<Seq<char>>,
}

/// The view of a classification outcome.
pub open spec fn class_view(c: &Classification) -> ClassView {
    ClassView {
        attributes: c.attributes@,
        account_code: crate::models::opt_view(c.account_code),
        assignment_reason: c.assignment_reason,
        relation_name: crate::models::opt_view(c.relation_name),
        relation_iban: crate::models::opt_view(c.relation_iban),
    }
}

/// The view of an optional borrowed string.
pub open spec fn opt_ref_view(o: Option<&String>) -> Option<Seq<char>> {
    match o {
        Some(s) => Some(s@),
        None => None,
    }
}

/// The priority chain of the resolver, over the repositories' abstract
/// lookups: contract reference first, then tag reference where no account
/// is set yet, then the relation name is fixed (known IBAN name first,
/// else the extracted name, consumed from the attributes), then the
/// description search — which overwrites — and last the relation-name
/// search where still nothing is assigned.
pub open spec fn classify_spec<A: AccountsRepository + ?Sized, R: RelationsRepository + ?Sized>(
    accounts: &A,
    relations: &R,
    cost_center: Seq<char>,
    counter_iban: Option<Seq<char>>,
    attrs0: Seq<(Seq<char>, Seq<char>)>,
) -> ClassView {
    let rel = match counter_iban {
        Some(ci) => relations.relation_by_reference(ci),
        None => None,
    };
    let relation_iban = match counter_iban {
        Some(ci) => if rel is Some {
            Some(ci)
        } else {
            None
        },
        None => None,
    };
    let name_from_iban = match rel {
        Some(r) => Some(r.1),
        None => None,
    };
    // Step 1: contract reference.
    let after1 = match lookup(attrs0, contract_key()) {
        Some(code) => match accounts.account_by_contract(code) {
            Some(rule) => {
                let attrs1 = remove_key(attrs0, contract_key());
                let existing = lookup(attrs1, description_key());
                let merged = match rule.description {
                    Some(c) => match existing {
                        Some(e) => Some(c + " "@ + e),
                        None => Some(c),
                    },
                    None => existing,
                };
                let attrs2 = match merged {
                    Some(d) => upsert(attrs1, description_key(), d),
                    None => attrs1,
                };
                (attrs2, Some(rule.account_code), Some(AssignmentReason::Contract))
            },
            None => (attrs0, None::<Seq<char>>, None::<AssignmentReason>),
        },
        None => (attrs0, None::<Seq<char>>, None::<AssignmentReason>),
    };
    // Step 2: tag reference; the tag is consumed either way.
    let after2 = match lookup(after1.0, tag_key()) {
        Some(tag) => {
            let hit = if after1.1 is None {
                accounts.account_by_reference(tag)
            } else {
                None
            };
            let code2 = match hit {
                Some(a) => Some(a.0),
                None => after1.1,
            };
            let reason2 = match hit {
                Some(_) => Some(AssignmentReason::Reference),
                None => after1.2,
            };
            (remove_key(after1.0, tag_key()), code2, reason2)
        },
        None => after1,
    };
    // Step 3: the relation name; an extracted name is consumed.
    let attrs3 = match name_from_iban {
        Some(_) => after2.0,
        None => remove_key(after2.0, name_key()),
    };
    let rn0 = match name_from_iban {
        Some(n) => Some(n),
        None => lookup(after2.0, name_key()),
    };
    // Step 4: description search, not gated on an assigned account.
    let step4 = match rn0 {
        Some(nm) => match lookup(attrs3, description_key()) {
            Some(descr) => accounts.account_by_description(cost_center + " & "@ + nm, descr),
            None => None,
        },
        None => None,
    };
    let code4 = match step4 {
        Some(c) => Some(c),
        None => after2.1,
    };
    let reason4 = match step4 {
        Some(_) => Some(AssignmentReason::Description),
        None => after2.2,
    };
    // Step 5: relation-name search, only where nothing is assigned yet.
    let step5 = match rn0 {
        Some(nm) => if code4 is None {
            accounts.account_by_name(nm)
        } else {
            None
        },
        None => None,
    };
    let code5 = match step5 {
        Some(p) => Some(p.0),
        None => code4,
    };
    let reason5 = match step5 {
        Some(_) => Some(AssignmentReason::RelationName),
        None => reason4,
    };
    let rn5 = match step5 {
        Some(p) => Some(p.1),
        None => rn0,
    };
    ClassView {
        attributes: attrs3,
        account_code: code5,
        assignment_reason: reason5,
        relation_name: rn5,
        relation_iban: relation_iban,
    }
}

/// Run the priority chain against the repositories and return the
/// classification, together with the attributes left over after the chain
/// consumed its keys.
pub fn classify<A: AccountsRepository, R: RelationsRepository>(
    accounts: &A,
    relations: &R,
    cost_center: &str,
    counter_iban: Option<&String>,
    attributes: PropMap,
) -> (r: Classification)
    ensures
        class_view(&r) == classify_spec(
            accounts,
            relations,
            cost_center@,
            opt_ref_view(counter_iban),
            attributes@,
        ),
{
    let (relation_iban, relation_name_from_iban): (Option<String>, Option<String>) =
        match counter_iban {
        Some(ci) => match relations.find_relation_by_reference(ci.as_str()) {
            Some(rel) => (Some(ci.clone()), Some(rel.name.clone())),
            None => (None, None),
        },
        None => (None, None),
    };
    let mut attrs = attributes;
    let mut account_code: Option<String> = None;
    let mut assignment_reason: Option<AssignmentReason> = None;

    // Step 1: contract reference.
    let contract_code: Option<String> = match attrs.get("Machtiging ID") {
        Some(c) => Some(c.clone()),
        None => None,
    };
    if let Some(code) = contract_code {
        if let Some(rule) = accounts.search_account_by_contract(code.as_str()) {
            let rule_code: String = rule.account_code.clone();
            let proposed: Option<String> = match &rule.description {
                Some(d) => Some(d.clone()),
                None => None,
            };
            attrs.remove("Machtiging ID");
            assignment_reason = Some(AssignmentReason::Contract);
            account_code = Some(rule_code);
            let existing: Option<String> = match attrs.get("Omschrijving") {
                Some(e) => Some(e.clone()),
                None => None,
            };
            let merged: Option<String> = match proposed {
                Some(p) => match existing {
                    Some(e) => {
                        let mut t = p;
                        t.append(" ");
                        t.append(e.as_str());
                        Some(t)
                    },
                    None => Some(p),
                },
                None => existing,
            };
            if let Some(d) = merged {
                attrs.insert("Omschrijving".to_owned(), d);
            }
        }
    }

    // Step 2: tag reference.
    let tag: Option<String> = match attrs.get("Tag") {
        Some(t) => Some(t.clone()),
        None => None,
    };
    if let Some(tag_value) = tag {
        if account_code.is_none() {
            if let Some(account) = accounts.find_account_by_reference(tag_value.as_str()) {
                assignment_reason = Some(AssignmentReason::Reference);
                account_code = Some(account.code.clone());
            }
        }
        attrs.remove("Tag");
    }

    // Step 3: determine the relation name.
    let mut relation_name: Option<String> = match relation_name_from_iban {
        Some(n) => Some(n),
        None => attrs.remove("Naam"),
    };

    // Steps 4 and 5: description search, then relation-name search.
    let search_name: Option<String> = match &relation_name {
        Some(n) => Some(n.clone()),
        None => None,
    };
    if let Some(nm) = search_name {
        let mut key: String = cost_center.to_owned();
        key.append(" & ");
        key.append(nm.as_str());
        let descr: Option<String> = match attrs.get("Omschrijving") {
            Some(d) => Some(d.clone()),
            None => None,
        };
        if let Some(d) = descr {
            if let Some(rule) = accounts.search_account_by_description(key.as_str(), d.as_str()) {
                account_code = Some(rule.account_code.clone());
                assignment_reason = Some(AssignmentReason::Description);
            }
        }
        if account_code.is_none() {
            if let Some(hit) = accounts.search_account_by_name(nm.as_str()) {
                relation_name = Some(hit.1);
                assignment_reason = Some(AssignmentReason::RelationName);
                account_code = Some(hit.0.account_code.clone());
            }
        }
    }
    Classification {
        attributes: attrs,
        account_code,
        assignment_reason,
        relation_name,
        relation_iban,
    }
}

} // verus!
