//! Consistency validator of the audit path.
//!
//! While a batch of parsed transactions is walked to build the relation
//! registry, three rules are enforced: a name extracted from the
//! description must match the transaction's own declared name up to ASCII
//! case; a counter-IBAN must always map to the same relation name; and a
//! transaction without a counter-IBAN must carry a cash/terminal
//! transaction code or a transfer or correction marker attribute.

use vstd::prelude::*;
use vstd::string::*;
use crate::errors::ParseError;
use crate::imap::{im_get, imap_entries};
use crate::props::{
    assoc_get, lookup, name_key, names_contain, pairs_view, strings_view,
};
use crate::resolve::opt_ref_view;
use crate::text::{fold_seq, is_ws, str_eq, str_eq_ignore_case, trim, trim_spec};

verus! {

/// Transaction-kind codes of cash and terminal operations, which
/// legitimately lack a counter-IBAN.
pub open spec fn allowed_no_iban_code(code: Seq<char>) -> bool {
    code == "BA"@ || code == "DV"@ || code == "GM"@
}

/// The attribute keys that mark a transfer or a correction.
pub open spec fn transfer_key() -> Seq<char> {
    "Van/Naar"@
}

pub open spec fn correction_key() -> Seq<char> {
    "Correctie"@
}

/// A name was extracted from the description and disagrees, up to ASCII
/// case, with the declared relation name.
pub open spec fn mismatch_cond(attrs: Seq<(Seq<char>, Seq<char>)>, name: Seq<char>) -> bool {
    match lookup(attrs, name_key()) {
        Some(n) => fold_seq(n) != fold_seq(name),
        None => false,
    }
}

/// The counter-IBAN is already registered under a different name.
pub open spec fn clash_cond(
    by_iban: Seq<(Seq<char>, Seq<char>)>,
    counter_iban: Option<Seq<char>>,
    name: Seq<char>,
) -> bool {
    match counter_iban {
        Some(ci) => match lookup(by_iban, ci) {
            Some(existing) => fold_seq(existing) != fold_seq(name),
            None => false,
        },
        None => false,
    }
}

/// The transaction lacks a counter-IBAN without being allowed to.
pub open spec fn missing_cond(
    attrs: Seq<(Seq<char>, Seq<char>)>,
    counter_iban: Option<Seq<char>>,
    code: Seq<char>,
) -> bool {
    counter_iban is None && !allowed_no_iban_code(code) && lookup(attrs, transfer_key()) is None
        && lookup(attrs, correction_key()) is None
}

/// The relation registry built while auditing a batch: one canonical name
/// per counter-IBAN, and the set of names seen without one.
pub struct RelationRegistry {
    by_iban: Vec<(String, String)>,
    relation_names: Vec<String>,
}

impl RelationRegistry {
    /// The registered (IBAN, name) bindings, in registration order.
    pub closed spec fn spec_by_iban(&self) -> Seq<(Seq<char>, Seq<char>)> {
        pairs_view(self.by_iban@)
    }

    /// The names seen on transactions without a counter-IBAN.
    pub closed spec fn spec_names(&self) -> Seq<Seq<char>> {
        strings_view(self.relation_names@)
    }

    pub fn new() -> (r: RelationRegistry)
        ensures
            r.spec_by_iban() =~= Seq::<(Seq<char>, Seq<char>)>::empty(),
            r.spec_names() =~= Seq::<Seq<char>>::empty(),
    {
        RelationRegistry { by_iban: Vec::new(), relation_names: Vec::new() }
    }

    /// The name registered for an IBAN, if any.
    pub fn name_for_iban(&self, iban: &str) -> (r: Option<&String>)
        ensures
            match r {
                Some(n) => lookup(self.spec_by_iban(), iban@) == Some(n@),
                None => lookup(self.spec_by_iban(), iban@) is None,
            },
    {
        assoc_get(&self.by_iban, iban)
    }

    /// Check one parsed transaction against the registry and register its
    /// relation: the first failing rule is reported, and a failing
    /// transaction registers nothing.
    pub fn register(
        &mut self,
        relation_name: &str,
        counter_iban: Option<&String>,
        code: &str,
        description: &str,
        attributes: indexmap::IndexMap<String, String>,
    ) -> (r: Result<(), ParseError>)
        ensures
            ({
                let attrs = imap_entries(attributes);
                let ci = opt_ref_view(counter_iban);
                let mismatch = mismatch_cond(attrs, relation_name@);
                let clash = clash_cond(old(self).spec_by_iban(), ci, relation_name@);
                let missing = missing_cond(attrs, ci, code@);
                &&& (r is Ok <==> !mismatch && !clash && !missing)
                &&& match r {
                    Ok(_) => true,
                    Err(ParseError::NameMismatch { name, description: d, attributes: a }) => {
                        &&& mismatch
                        &&& name@ == relation_name@
                        &&& d@ == description@
                        &&& imap_entries(a) == attrs
                    },
                    Err(ParseError::NameClash { new_name, existing, iban, attributes: a }) => {
                        &&& !mismatch
                        &&& clash
                        &&& new_name@ == relation_name@
                        &&& Some(existing@) == lookup(old(self).spec_by_iban(), ci->0)
                        &&& Some(iban@) == ci
                        &&& imap_entries(a) == attrs
                    },
                    Err(ParseError::IbanMissing { attributes: a }) => {
                        &&& !mismatch
                        &&& missing
                        &&& imap_entries(a) == attrs
                    },
                    Err(_) => false,
                }
                &&& final(self).spec_by_iban() == (if r is Ok && ci is Some && lookup(
                    old(self).spec_by_iban(),
                    ci->0,
                ) is None {
                    old(self).spec_by_iban().push((ci->0, relation_name@))
                } else {
                    old(self).spec_by_iban()
                })
                &&& final(self).spec_names() == (if r is Ok && ci is None && !old(
                    self,
                ).spec_names().contains(relation_name@) {
                    old(self).spec_names().push(relation_name@)
                } else {
                    old(self).spec_names()
                })
            }),
    {
        let mismatch: bool = match im_get(&attributes, "Naam") {
            Some(n) => !str_eq_ignore_case(n.as_str(), relation_name),
            None => false,
        };
        if mismatch {
            return Err(
                ParseError::NameMismatch {
                    name: relation_name.to_owned(),
                    description: description.to_owned(),
                    attributes,
                },
            );
        }
        match counter_iban {
            Some(ci) => {
                let existing: Option<String> = match assoc_get(&self.by_iban, ci.as_str()) {
                    Some(e) => Some(e.clone()),
                    None => None,
                };
                match existing {
                    Some(ex) => {
                        if !str_eq_ignore_case(ex.as_str(), relation_name) {
                            return Err(
                                ParseError::NameClash {
                                    new_name: relation_name.to_owned(),
                                    existing: ex,
                                    iban: ci.clone(),
                                    attributes,
                                },
                            );
                        }
                        Ok(())
                    },
                    None => {
                        let ghost prev = pairs_view(self.by_iban@);
                        self.by_iban.push((ci.clone(), relation_name.to_owned()));
                        proof {
                            assert(pairs_view(self.by_iban@) =~= prev.push(
                                (ci@, relation_name@),
                            ));
                        }
                        Ok(())
                    },
                }
            },
            None => {
                let allowed: bool = str_eq(code, "BA") || str_eq(code, "DV") || str_eq(
                    code,
                    "GM",
                );
                if !allowed {
                    let has_transfer: bool = match im_get(&attributes, "Van/Naar") {
                        Some(_) => true,
                        None => false,
                    };
                    let has_correction: bool = match im_get(&attributes, "Correctie") {
                        Some(_) => true,
                        None => false,
                    };
                    if !has_transfer && !has_correction {
                        return Err(ParseError::IbanMissing { attributes });
                    }
                }
                if !names_contain(&self.relation_names, relation_name) {
                    let ghost prev = strings_view(self.relation_names@);
                    self.relation_names.push(relation_name.to_owned());
                    proof {
                        assert(strings_view(self.relation_names@) =~= prev.push(relation_name@));
                    }
                }
                Ok(())
            },
        }
    }
}

/// A character the machine-generated name prefix consists of: an
/// upper-case ASCII letter, whitespace, or an ampersand.
pub open spec fn is_machine_char(c: char) -> bool {
    ('A' <= c && c <= 'Z') || is_ws(c) || c == '&'
}

/// End of the run of machine-prefix characters that starts at `i`.
pub open spec fn machine_run_end(s: Seq<char>, i: int) -> int
    decreases s.len() - i,
{
    if i < 0 {
        0
    } else if i >= s.len() {
        s.len() as int
    } else if !is_machine_char(s[i]) {
        i
    } else {
        machine_run_end(s, i + 1)
    }
}

/// A name with a leading machine-generated prefix — a nonempty run of
/// upper-case letters, whitespace and ampersands closed by an asterisk —
/// removed.
pub open spec fn strip_machine_prefix_spec(s: Seq<char>) -> Seq<char> {
    let r = machine_run_end(s, 0);
    if r >= 1 && r < s.len() && s[r] == '*' {
        s.subrange(r + 1, s.len() as int)
    } else {
        s
    }
}

/// The normalized relation name: surrounding whitespace and a
/// machine-generated prefix removed.
pub open spec fn normalize_name_spec(s: Seq<char>) -> Seq<char> {
    strip_machine_prefix_spec(trim_spec(s))
}

fn is_machine_char_exec(c: char) -> (r: bool)
    ensures
        r == is_machine_char(c),
{
    ('A' <= c && c <= 'Z') || crate::text::is_ws_exec(c) || c == '&'
}

/// Normalize a declared relation name for the audit: trim it and strip
/// the terminal operator's machine prefix.
pub fn normalize_relation_name(name: &str) -> (r: String)
    ensures
        r@ == normalize_name_spec(name@),
{
    let trimmed: String = trim(name);
    let s: &str = trimmed.as_str();
    let n: usize = s.unicode_len();
    let mut j: usize = 0;
    while j < n && is_machine_char_exec(s.get_char(j))
        invariant
            s@.len() == n,
            j <= n,
            machine_run_end(s@, 0) == machine_run_end(s@, j as int),
        decreases n - j,
    {
        j = j + 1;
    }
    if j >= 1 && j < n && s.get_char(j) == '*' {
        s.substring_char(j + 1, n).to_owned()
    } else {
        trimmed
    }
}

} // verus!
