//! The read-only lookup collaborators of the classifier, and the ledger
//! that implements them.
//!
//! Each repository trait pairs every lookup method with a specification
//! function giving its abstract result; the classifier's own contract is
//! stated over those. The `Ledger` implements all three over plain lists,
//! compiling its configured name- and description-search rules once.

use vstd::prelude::*;
use vstd::string::*;
use crate::errors::LedgerError;
use crate::models::{
    Account, AssignByContractDefinition, AssignByDescription, AssignByDescriptionDefinition,
    AssignByNameSearch, BankAccount, Relation,
};
use crate::props::lookup;
use crate::re::{re_caps, re_captures_parts, re_is_match, re_matches, re_new, re_ok, re_pattern};
use crate::text::{fold_seq, str_eq, str_eq_ignore_case, replace_all, replace_spec};

verus! {

/// The view of an account list as (code, description) pairs.
pub open spec fn accounts_view(s: Seq<Account>) -> Seq<(Seq<char>, Seq<char>)> {
    Seq::new(s.len(), |i: int| (s[i].code@, s[i].description@))
}

/// The view of a relation list as (reference, name) pairs.
pub open spec fn relations_view(s: Seq<Relation>) -> Seq<(Seq<char>, Seq<char>)> {
    Seq::new(s.len(), |i: int| (s[i].reference@, s[i].name@))
}

/// The view of a compiled name-search rule.
pub struct NameSearchView {
    pub account_code: Seq<char>,
    pub name: Seq<char>,
    pub pattern: Seq<char>,
}

impl View for AssignByNameSearch {
    type V = NameSearchView;

    open spec fn view(&self) -> NameSearchView {
        NameSearchView {
            account_code: self.account_code@,
            name: self.name@,
            pattern: re_pattern(self.search_expression),
        }
    }
}

/// The view of a compiled description-search rule.
pub struct DescrRuleView {
    pub account_code: Seq<char>,
    pub pattern: Seq<char>,
}

impl View for AssignByDescription {
    type V = DescrRuleView;

    open spec fn view(&self) -> DescrRuleView {
        DescrRuleView { account_code: self.account_code@, pattern: re_pattern(self.search_expression) }
    }
}

/// The view of a contract-assignment rule.
pub struct ContractRuleView {
    pub account_code: Seq<char>,
    pub description: Option<Seq<char>>,
}

/// The view of the contract table as (contract code, rule) pairs.
pub open spec fn contracts_view(s: Seq<(String, AssignByContractDefinition)>) -> Seq<
    (Seq<char>, ContractRuleView),
> {
    Seq::new(
        s.len(),
        |i: int|
            (
                s[i].0@,
                ContractRuleView {
                    account_code: s[i].1.account_code@,
                    description: crate::models::opt_view(s[i].1.description),
                },
            ),
    )
}

/// First-match lookup over keyed pairs of any value shape.
pub open spec fn lookup_by<V>(es: Seq<(Seq<char>, V)>, k: Seq<char>) -> Option<V>
    decreases es.len(),
{
    if es.len() == 0 {
        None
    } else if es[0].0 == k {
        Some(es[0].1)
    } else {
        lookup_by(es.drop_first(), k)
    }
}

/// The first name-search rule whose expression matches `name`, together
/// with the whole matched text.
pub open spec fn search_name_spec(rules: Seq<NameSearchView>, name: Seq<char>) -> Option<
    (Seq<char>, Seq<char>),
>
    decreases rules.len(),
{
    if rules.len() == 0 {
        None
    } else {
        match re_caps(rules[0].pattern, name) {
            Some(parts) => Some((rules[0].account_code, parts.0)),
            None => search_name_spec(rules.drop_first(), name),
        }
    }
}

/// The first description rule in the list whose expression matches.
pub open spec fn search_descr_spec(rules: Seq<DescrRuleView>, text: Seq<char>) -> Option<Seq<char>>
    decreases rules.len(),
{
    if rules.len() == 0 {
        None
    } else if re_matches(rules[0].pattern, text) {
        Some(rules[0].account_code)
    } else {
        search_descr_spec(rules.drop_first(), text)
    }
}

/// The cost center of the first bank account whose IBAN equals the given
/// one up to ASCII case.
pub open spec fn cost_center_spec(bas: Seq<(Seq<char>, Seq<char>)>, iban: Seq<char>) -> Option<
    Seq<char>,
>
    decreases bas.len(),
{
    if bas.len() == 0 {
        None
    } else if fold_seq(bas[0].0) == fold_seq(iban) {
        Some(bas[0].1)
    } else {
        cost_center_spec(bas.drop_first(), iban)
    }
}

/// The view of the bank-account list as (iban, cost center) pairs.
pub open spec fn bank_accounts_view(s: Seq<BankAccount>) -> Seq<(Seq<char>, Seq<char>)> {
    Seq::new(s.len(), |i: int| (s[i].iban@, s[i].cost_center_code@))
}

/// Account lookups and searches of the classification chain.
pub trait AccountsRepository {
    /// The account bound to a reference code.
    spec fn account_by_reference(&self, reference: Seq<char>) -> Option<(Seq<char>, Seq<char>)>;

    /// The first name-search rule matching, with the matched text.
    spec fn account_by_name(&self, name: Seq<char>) -> Option<(Seq<char>, Seq<char>)>;

    /// The contract rule for a contract code.
    spec fn account_by_contract(&self, code: Seq<char>) -> Option<ContractRuleView>;

    /// The account of the first matching description rule under the key.
    spec fn account_by_description(&self, key: Seq<char>, text: Seq<char>) -> Option<Seq<char>>;

    fn find_account_by_reference(&self, reference: &str) -> (r: Option<&Account>)
        ensures
            match r {
                Some(a) => self.account_by_reference(reference@) == Some((a.code@, a.description@)),
                None => self.account_by_reference(reference@) is None,
            },
    ;

    fn search_account_by_name(&self, name: &str) -> (r: Option<(&AssignByNameSearch, String)>)
        ensures
            match r {
                Some(p) => self.account_by_name(name@) == Some((p.0.account_code@, p.1@)),
                None => self.account_by_name(name@) is None,
            },
    ;

    fn search_account_by_contract(&self, contract_code: &str) -> (r: Option<
        &AssignByContractDefinition,
    >)
        ensures
            match r {
                Some(d) => self.account_by_contract(contract_code@) == Some(
                    ContractRuleView {
                        account_code: d.account_code@,
                        description: crate::models::opt_view(d.description),
                    },
                ),
                None => self.account_by_contract(contract_code@) is None,
            },
    ;

    fn search_account_by_description(&self, key: &str, description: &str) -> (r: Option<
        &AssignByDescription,
    >)
        ensures
            match r {
                Some(d) => self.account_by_description(key@, description@) == Some(d.account_code@),
                None => self.account_by_description(key@, description@) is None,
            },
    ;
}

/// Cost-center lookup by the organisation's own IBAN.
pub trait CostCentersRepository {
    /// The cost center the IBAN belongs to.
    spec fn cost_center_by_iban(&self, iban: Seq<char>) -> Option<Seq<char>>;

    fn find_cost_center_by_iban(&self, iban: &str) -> (r: Option<String>)
        ensures
            match r {
                Some(c) => self.cost_center_by_iban(iban@) == Some(c@),
                None => self.cost_center_by_iban(iban@) is None,
            },
    ;
}

/// Relation lookup by counter-IBAN.
pub trait RelationsRepository {
    /// The relation registered under a reference.
    spec fn relation_by_reference(&self, reference: Seq<char>) -> Option<(Seq<char>, Seq<char>)>;

    fn find_relation_by_reference(&self, reference: &str) -> (r: Option<&Relation>)
        ensures
            match r {
                Some(rel) => self.relation_by_reference(reference@) == Some(
                    (rel.reference@, rel.name@),
                ),
                None => self.relation_by_reference(reference@) is None,
            },
    ;
}

/// The organisation's ledger: its master data and the compiled assignment
/// rules, serving all three repository interfaces.
#[derive(Debug)]
pub struct Ledger {
    pub id: String,
    pub year: u32,
    pub currency_iso: String,
    bank_accounts: Vec<BankAccount>,
    cost_centers: Vec<String>,
    accounts: Vec<Account>,
    relations: Vec<Relation>,
    assign_by_contract: Vec<(String, AssignByContractDefinition)>,
    accounts_by_name: Vec<AssignByNameSearch>,
    assign_by_description: Vec<(String, Vec<AssignByDescription>)>,
}

/// The view of the name-rule list.
pub open spec fn name_rules_view(s: Seq<AssignByNameSearch>) -> Seq<NameSearchView> {
    Seq::new(s.len(), |i: int| s[i]@)
}

/// The view of one key's description-rule list.
pub open spec fn descr_rules_view(s: Seq<AssignByDescription>) -> Seq<DescrRuleView> {
    Seq::new(s.len(), |i: int| s[i]@)
}

/// The view of the whole description-rule table.
pub open spec fn descr_table_view(s: Seq<(String, Vec<AssignByDescription>)>) -> Seq<
    (Seq<char>, Seq<DescrRuleView>),
> {
    Seq::new(s.len(), |i: int| (s[i].0@, descr_rules_view(s[i].1@)))
}

impl Ledger {
    /// The ledger's accounts, as (code, description) pairs.
    pub closed spec fn spec_accounts(&self) -> Seq<(Seq<char>, Seq<char>)> {
        accounts_view(self.accounts@)
    }

    /// The ledger's relations, as (reference, name) pairs.
    pub closed spec fn spec_relations(&self) -> Seq<(Seq<char>, Seq<char>)> {
        relations_view(self.relations@)
    }

    /// The ledger's bank accounts, as (iban, cost center) pairs.
    pub closed spec fn spec_bank_accounts(&self) -> Seq<(Seq<char>, Seq<char>)> {
        bank_accounts_view(self.bank_accounts@)
    }

    /// The ledger's contract table.
    pub closed spec fn spec_contracts(&self) -> Seq<(Seq<char>, ContractRuleView)> {
        contracts_view(self.assign_by_contract@)
    }

    /// The ledger's compiled name-search rules, in configured order.
    pub closed spec fn spec_name_rules(&self) -> Seq<NameSearchView> {
        name_rules_view(self.accounts_by_name@)
    }

    /// The ledger's compiled description-search table.
    pub closed spec fn spec_descr_rules(&self) -> Seq<(Seq<char>, Seq<DescrRuleView>)> {
        descr_table_view(self.assign_by_description@)
    }

    /// The ledger's cost-center codes.
    pub closed spec fn spec_cost_centers(&self) -> Seq<Seq<char>> {
        crate::props::strings_view(self.cost_centers@)
    }

    /// The ledger's organisation identifier.
    pub closed spec fn spec_id(&self) -> Seq<char> {
        self.id@
    }

    /// The ledger's year.
    pub closed spec fn spec_year(&self) -> u32 {
        self.year
    }

    /// The ledger's currency code.
    pub closed spec fn spec_currency_iso(&self) -> Seq<char> {
        self.currency_iso@
    }

    /// The accounts in the flat shape the rendering layer consumes.
    pub fn accounts_for_hibernate(&self) -> (r: Vec<crate::models::AccountHibernate>)
        ensures
            r@.len() == self.spec_accounts().len(),
            forall|i: int|
                0 <= i < r@.len() ==> ((#[trigger] r@[i]).code@, r@[i].description@)
                    == self.spec_accounts()[i],
    {
        let n: usize = self.accounts.len();
        let mut out: Vec<crate::models::AccountHibernate> = Vec::new();
        for i in 0..n
            invariant
                n == self.accounts@.len(),
                out@.len() == i,
                forall|j: int|
                    0 <= j < i ==> ((#[trigger] out@[j]).code@, out@[j].description@)
                        == accounts_view(self.accounts@)[j],
        {
            out.push(crate::models::AccountHibernate::from(&self.accounts[i]));
        }
        out
    }
}

impl AccountsRepository for Ledger {
    closed spec fn account_by_reference(&self, reference: Seq<char>) -> Option<
        (Seq<char>, Seq<char>),
    > {
        match lookup(self.spec_accounts(), reference) {
            Some(d) => Some((reference, d)),
            None => None,
        }
    }

    closed spec fn account_by_name(&self, name: Seq<char>) -> Option<(Seq<char>, Seq<char>)> {
        search_name_spec(self.spec_name_rules(), name)
    }

    closed spec fn account_by_contract(&self, code: Seq<char>) -> Option<ContractRuleView> {
        lookup_by(self.spec_contracts(), code)
    }

    closed spec fn account_by_description(&self, key: Seq<char>, text: Seq<char>) -> Option<
        Seq<char>,
    > {
        match lookup_by(self.spec_descr_rules(), key) {
            Some(rules) => search_descr_spec(rules, text),
            None => None,
        }
    }

    fn find_account_by_reference(&self, reference: &str) -> (r: Option<&Account>) {
        let n: usize = self.accounts.len();
        let ghost av = accounts_view(self.accounts@);
        proof {
            assert(av.skip(0) =~= av);
        }
        let mut i: usize = 0;
        while i < n
            invariant
                av == accounts_view(self.accounts@),
                av.len() == n,
                i <= n,
                lookup(av, reference@) == lookup(av.skip(i as int), reference@),
            decreases n - i,
        {
            proof {
                assert(av.skip(i as int)[0] == av[i as int]);
                assert(av.skip(i as int).drop_first() =~= av.skip(i as int + 1));
            }
            if str_eq(self.accounts[i].code.as_str(), reference) {
                return Some(&self.accounts[i]);
            }
            i = i + 1;
        }
        proof {
            assert(av.skip(n as int) =~= Seq::<(Seq<char>, Seq<char>)>::empty());
        }
        None
    }

    fn search_account_by_name(&self, name: &str) -> (r: Option<(&AssignByNameSearch, String)>) {
        let n: usize = self.accounts_by_name.len();
        let ghost rv = name_rules_view(self.accounts_by_name@);
        proof {
            assert(rv.skip(0) =~= rv);
        }
        let mut i: usize = 0;
        while i < n
            invariant
                rv == name_rules_view(self.accounts_by_name@),
                rv.len() == n,
                i <= n,
                search_name_spec(rv, name@) == search_name_spec(rv.skip(i as int), name@),
            decreases n - i,
        {
            proof {
                assert(rv.skip(i as int)[0] == rv[i as int]);
                assert(rv.skip(i as int).drop_first() =~= rv.skip(i as int + 1));
            }
            let rule = &self.accounts_by_name[i];
            match re_captures_parts(&rule.search_expression, name) {
                Some(parts) => {
                    return Some((rule, parts.0));
                },
                None => {
                    i = i + 1;
                },
            }
        }
        proof {
            assert(rv.skip(n as int) =~= Seq::<NameSearchView>::empty());
        }
        None
    }

    fn search_account_by_contract(&self, contract_code: &str) -> (r: Option<
        &AssignByContractDefinition,
    >) {
        let n: usize = self.assign_by_contract.len();
        let ghost cv = contracts_view(self.assign_by_contract@);
        proof {
            assert(cv.skip(0) =~= cv);
        }
        let mut i: usize = 0;
        while i < n
            invariant
                cv == contracts_view(self.assign_by_contract@),
                cv.len() == n,
                i <= n,
                lookup_by(cv, contract_code@) == lookup_by(cv.skip(i as int), contract_code@),
            decreases n - i,
        {
            proof {
                assert(cv.skip(i as int)[0] == cv[i as int]);
                assert(cv.skip(i as int).drop_first() =~= cv.skip(i as int + 1));
            }
            if str_eq(self.assign_by_contract[i].0.as_str(), contract_code) {
                return Some(&self.assign_by_contract[i].1);
            }
            i = i + 1;
        }
        proof {
            assert(cv.skip(n as int) =~= Seq::<(Seq<char>, ContractRuleView)>::empty());
        }
        None
    }

    fn search_account_by_description(&self, key: &str, description: &str) -> (r: Option<
        &AssignByDescription,
    >) {
        let n: usize = self.assign_by_description.len();
        let ghost tv = descr_table_view(self.assign_by_description@);
        proof {
            assert(tv.skip(0) =~= tv);
        }
        let mut i: usize = 0;
        while i < n
            invariant
                tv == descr_table_view(self.assign_by_description@),
                tv.len() == n,
                i <= n,
                lookup_by(tv, key@) == lookup_by(tv.skip(i as int), key@),
            decreases n - i,
        {
            proof {
                assert(tv.skip(i as int)[0] == tv[i as int]);
                assert(tv.skip(i as int).drop_first() =~= tv.skip(i as int + 1));
            }
            if str_eq(self.assign_by_description[i].0.as_str(), key) {
                let rules = &self.assign_by_description[i].1;
                let m: usize = rules.len();
                let ghost lv = descr_rules_view(rules@);
                proof {
                    assert(lv.skip(0) =~= lv);
                    assert(lv == tv[i as int].1);
                }
                let mut j: usize = 0;
                while j < m
                    invariant
                        lv == descr_rules_view(rules@),
                        lv.len() == m,
                        j <= m,
                        self.account_by_description(key@, description@) == search_descr_spec(
                            lv.skip(j as int),
                            description@,
                        ),
                    decreases m - j,
                {
                    proof {
                        assert(lv.skip(j as int)[0] == lv[j as int]);
                        assert(lv.skip(j as int).drop_first() =~= lv.skip(j as int + 1));
                    }
                    if re_is_match(&rules[j].search_expression, description) {
                        return Some(&rules[j]);
                    }
                    j = j + 1;
                }
                proof {
                    assert(lv.skip(m as int) =~= Seq::<DescrRuleView>::empty());
                }
                return None;
            }
            i = i + 1;
        }
        proof {
            assert(tv.skip(n as int) =~= Seq::<(Seq<char>, Seq<DescrRuleView>)>::empty());
        }
        None
    }
}

impl CostCentersRepository for Ledger {
    closed spec fn cost_center_by_iban(&self, iban: Seq<char>) -> Option<Seq<char>> {
        cost_center_spec(self.spec_bank_accounts(), iban)
    }

    fn find_cost_center_by_iban(&self, iban: &str) -> (r: Option<String>) {
        let n: usize = self.bank_accounts.len();
        let ghost bv = bank_accounts_view(self.bank_accounts@);
        proof {
            assert(bv.skip(0) =~= bv);
        }
        let mut i: usize = 0;
        while i < n
            invariant
                bv == bank_accounts_view(self.bank_accounts@),
                bv.len() == n,
                i <= n,
                cost_center_spec(bv, iban@) == cost_center_spec(bv.skip(i as int), iban@),
            decreases n - i,
        {
            proof {
                assert(bv.skip(i as int)[0] == bv[i as int]);
                assert(bv.skip(i as int).drop_first() =~= bv.skip(i as int + 1));
            }
            if str_eq_ignore_case(self.bank_accounts[i].iban.as_str(), iban) {
                return Some(self.bank_accounts[i].cost_center_code.clone());
            }
            i = i + 1;
        }
        proof {
            assert(bv.skip(n as int) =~= Seq::<(Seq<char>, Seq<char>)>::empty());
        }
        None
    }
}

/// A defect found while building a ledger.
pub enum LedgerDefect {
    CostCenter { code: Seq<char> },
    Account { code: Seq<char> },
    Pattern { pattern: Seq<char> },
}

/// The cost-center code of the first bank account that refers to an
/// undeclared cost center.
pub open spec fn check_bank_accounts_spec(
    ccs: Seq<Seq<char>>,
    bas: Seq<(Seq<char>, Seq<char>)>,
) -> Option<Seq<char>>
    decreases bas.len(),
{
    if bas.len() == 0 {
        None
    } else if !ccs.contains(bas[0].1) {
        Some(bas[0].1)
    } else {
        check_bank_accounts_spec(ccs, bas.drop_first())
    }
}

/// The case-insensitive pattern a name-search term compiles to, with the
/// name placeholder widened to one or two words.
pub open spec fn name_pattern_of(term: Seq<char>) -> Seq<char> {
    "(?i)"@ + replace_spec(term, "{naam}"@, "\\w+(\\s+\\w+)?"@)
}

/// The case-insensitive pattern of a description-search rule.
pub open spec fn descr_pattern_of(search: Seq<char>) -> Seq<char> {
    "(?i)"@ + search
}

/// One account's name-search terms compiled in order; the first invalid
/// pattern aborts.
pub open spec fn compile_terms_spec(code: Seq<char>, terms: Seq<Seq<char>>) -> Result<
    Seq<NameSearchView>,
    LedgerDefect,
>
    decreases terms.len(),
{
    if terms.len() == 0 {
        Ok(Seq::empty())
    } else {
        let pat = name_pattern_of(terms[0]);
        if !re_ok(pat) {
            Err(LedgerDefect::Pattern { pattern: pat })
        } else {
            match compile_terms_spec(code, terms.drop_first()) {
                Err(e) => Err(e),
                Ok(rest) => Ok(
                    seq![NameSearchView { account_code: code, name: terms[0], pattern: pat }]
                        + rest,
                ),
            }
        }
    }
}

/// All name-search definitions compiled into one flat rule list, in
/// configured order; an unknown account code aborts before its terms.
pub open spec fn compile_name_defs_spec(
    accounts: Seq<(Seq<char>, Seq<char>)>,
    defs: Seq<(Seq<char>, Seq<Seq<char>>)>,
) -> Result<Seq<NameSearchView>, LedgerDefect>
    decreases defs.len(),
{
    if defs.len() == 0 {
        Ok(Seq::empty())
    } else if lookup(accounts, defs[0].0) is None {
        Err(LedgerDefect::Account { code: defs[0].0 })
    } else {
        match compile_terms_spec(defs[0].0, defs[0].1) {
            Err(e) => Err(e),
            Ok(head) => match compile_name_defs_spec(accounts, defs.drop_first()) {
                Err(e) => Err(e),
                Ok(tail) => Ok(head + tail),
            },
        }
    }
}

/// One key's description rules compiled in order: each rule's account
/// must exist and its pattern must compile.
pub open spec fn compile_descr_list_spec(
    accounts: Seq<(Seq<char>, Seq<char>)>,
    list: Seq<(Seq<char>, Seq<char>)>,
) -> Result<Seq<DescrRuleView>, LedgerDefect>
    decreases list.len(),
{
    if list.len() == 0 {
        Ok(Seq::empty())
    } else if lookup(accounts, list[0].0) is None {
        Err(LedgerDefect::Account { code: list[0].0 })
    } else {
        let pat = descr_pattern_of(list[0].1);
        if !re_ok(pat) {
            Err(LedgerDefect::Pattern { pattern: pat })
        } else {
            match compile_descr_list_spec(accounts, list.drop_first()) {
                Err(e) => Err(e),
                Ok(rest) => Ok(
                    seq![DescrRuleView { account_code: list[0].0, pattern: pat }] + rest,
                ),
            }
        }
    }
}

/// The whole description-rule table compiled, key by key.
pub open spec fn compile_descr_defs_spec(
    accounts: Seq<(Seq<char>, Seq<char>)>,
    defs: Seq<(Seq<char>, Seq<(Seq<char>, Seq<char>)>)>,
) -> Result<Seq<(Seq<char>, Seq<DescrRuleView>)>, LedgerDefect>
    decreases defs.len(),
{
    if defs.len() == 0 {
        Ok(Seq::empty())
    } else {
        match compile_descr_list_spec(accounts, defs[0].1) {
            Err(e) => Err(e),
            Ok(rules) => match compile_descr_defs_spec(accounts, defs.drop_first()) {
                Err(e) => Err(e),
                Ok(rest) => Ok(seq![(defs[0].0, rules)] + rest),
            },
        }
    }
}

/// The first defect of a ledger configuration: bank accounts are checked
/// first, then the name-search definitions, then the description rules.
pub open spec fn ledger_defect_spec(
    ccs: Seq<Seq<char>>,
    bas: Seq<(Seq<char>, Seq<char>)>,
    accounts: Seq<(Seq<char>, Seq<char>)>,
    name_defs: Seq<(Seq<char>, Seq<Seq<char>>)>,
    descr_defs: Seq<(Seq<char>, Seq<(Seq<char>, Seq<char>)>)>,
) -> Option<LedgerDefect> {
    match check_bank_accounts_spec(ccs, bas) {
        Some(c) => Some(LedgerDefect::CostCenter { code: c }),
        None => match compile_name_defs_spec(accounts, name_defs) {
            Err(d) => Some(d),
            Ok(_) => match compile_descr_defs_spec(accounts, descr_defs) {
                Err(d) => Some(d),
                Ok(_) => None,
            },
        },
    }
}

/// Does the reported error agree with the configuration defect?
pub open spec fn matches_ledger_defect(e: &LedgerError, d: LedgerDefect) -> bool {
    match (e, d) {
        (LedgerError::UnrecognisedCostCenterCode(c), LedgerDefect::CostCenter { code }) => c@
            == code,
        (LedgerError::UnrecognisedAccountCode(c), LedgerDefect::Account { code }) => c@ == code,
        (LedgerError::IncorrectRegex { .. }, LedgerDefect::Pattern { .. }) => true,
        _ => false,
    }
}

/// The view of the configured name-search definitions.
pub open spec fn name_defs_view(ds: Seq<(String, Vec<String>)>) -> Seq<
    (Seq<char>, Seq<Seq<char>>),
> {
    Seq::new(ds.len(), |i: int| (ds[i].0@, crate::props::strings_view(ds[i].1@)))
}

/// The view of one key's configured description rules.
pub open spec fn dd_list_view(s: Seq<AssignByDescriptionDefinition>) -> Seq<
    (Seq<char>, Seq<char>),
> {
    Seq::new(s.len(), |i: int| (s[i].account_code@, s[i].search_expression@))
}

/// The view of the configured description-rule table.
pub open spec fn descr_defs_view(ds: Seq<(String, Vec<AssignByDescriptionDefinition>)>) -> Seq<
    (Seq<char>, Seq<(Seq<char>, Seq<char>)>),
> {
    Seq::new(ds.len(), |i: int| (ds[i].0@, dd_list_view(ds[i].1@)))
}

fn account_exists(accounts: &Vec<Account>, code: &str) -> (r: bool)
    ensures
        r == (lookup(accounts_view(accounts@), code@) is Some),
{
    let ghost av = accounts_view(accounts@);
    let n: usize = accounts.len();
    for i in 0..n
        invariant
            av == accounts_view(accounts@),
            av.len() == n,
            forall|j: int| 0 <= j < i ==> av[j].0 != code@,
    {
        if str_eq(accounts[i].code.as_str(), code) {
            proof {
                crate::props::lemma_lookup_prefix(av, code@, i as int);
            }
            return true;
        }
    }
    proof {
        crate::props::lemma_lookup_none(av, code@);
    }
    false
}

fn compile_terms_exec(code: &String, terms: &Vec<String>) -> (r: Result<
    Vec<AssignByNameSearch>,
    LedgerError,
>)
    ensures
        match r {
            Ok(rules) => compile_terms_spec(code@, crate::props::strings_view(terms@)) == Ok::<
                Seq<NameSearchView>,
                LedgerDefect,
            >(name_rules_view(rules@)),
            Err(e) => compile_terms_spec(code@, crate::props::strings_view(terms@)) is Err
                && matches_ledger_defect(
                &e,
                compile_terms_spec(code@, crate::props::strings_view(terms@))->Err_0,
            ),
        },
{
    let ghost tv = crate::props::strings_view(terms@);
    let mut out: Vec<AssignByNameSearch> = Vec::new();
    let n: usize = terms.len();
    proof {
        assert(tv.skip(0) =~= tv);
        if compile_terms_spec(code@, tv) is Ok {
            assert(Seq::<NameSearchView>::empty() + compile_terms_spec(code@, tv)->Ok_0
                =~= compile_terms_spec(code@, tv)->Ok_0);
        }
        assert(name_rules_view(out@) =~= Seq::<NameSearchView>::empty());
    }
    let mut i: usize = 0;
    while i < n
        invariant
            tv == crate::props::strings_view(terms@),
            tv.len() == n,
            i <= n,
            match compile_terms_spec(code@, tv.skip(i as int)) {
                Ok(t) => compile_terms_spec(code@, tv) == Ok::<Seq<NameSearchView>, LedgerDefect>(
                    name_rules_view(out@) + t,
                ),
                Err(e) => compile_terms_spec(code@, tv) == Err::<
                    Seq<NameSearchView>,
                    LedgerDefect,
                >(e),
            },
        decreases n - i,
    {
        proof {
            assert(tv.skip(i as int)[0] == tv[i as int]);
            assert(tv[i as int] == terms@[i as int]@);
            assert(tv.skip(i as int).drop_first() =~= tv.skip(i as int + 1));
        }
        let term = &terms[i];
        let replaced: String = replace_all(term.as_str(), "{naam}", "\\w+(\\s+\\w+)?");
        let mut pattern: String = "(?i)".to_owned();
        pattern.append(replaced.as_str());
        match re_new(pattern.as_str()) {
            Err(source) => {
                return Err(LedgerError::IncorrectRegex { source });
            },
            Ok(re) => {
                let ghost prev = out@;
                out.push(
                    AssignByNameSearch {
                        account_code: code.clone(),
                        name: term.clone(),
                        search_expression: re,
                    },
                );
                proof {
                    assert(name_rules_view(out@) =~= name_rules_view(prev).push(
                        out@.last()@,
                    ));
                    if compile_terms_spec(code@, tv.skip(i as int + 1)) is Ok {
                        let t = compile_terms_spec(code@, tv.skip(i as int + 1))->Ok_0;
                        assert(name_rules_view(prev) + (seq![out@.last()@] + t)
                            =~= name_rules_view(out@) + t);
                    }
                }
                i = i + 1;
            },
        }
    }
    proof {
        assert(tv.skip(n as int) =~= Seq::<Seq<char>>::empty());
        assert(name_rules_view(out@) + Seq::<NameSearchView>::empty() =~= name_rules_view(out@));
    }
    Ok(out)
}

fn compile_descr_list_exec(accounts: &Vec<Account>, list: &Vec<AssignByDescriptionDefinition>) -> (r:
    Result<Vec<AssignByDescription>, LedgerError>)
    ensures
        match r {
            Ok(rules) => compile_descr_list_spec(accounts_view(accounts@), dd_list_view(list@))
                == Ok::<Seq<DescrRuleView>, LedgerDefect>(descr_rules_view(rules@)),
            Err(e) => compile_descr_list_spec(accounts_view(accounts@), dd_list_view(list@)) is Err
                && matches_ledger_defect(
                &e,
                compile_descr_list_spec(accounts_view(accounts@), dd_list_view(list@))->Err_0,
            ),
        },
{
    let ghost av = accounts_view(accounts@);
    let ghost lv = dd_list_view(list@);
    let mut out: Vec<AssignByDescription> = Vec::new();
    let n: usize = list.len();
    proof {
        assert(lv.skip(0) =~= lv);
        if compile_descr_list_spec(av, lv) is Ok {
            assert(Seq::<DescrRuleView>::empty() + compile_descr_list_spec(av, lv)->Ok_0
                =~= compile_descr_list_spec(av, lv)->Ok_0);
        }
        assert(descr_rules_view(out@) =~= Seq::<DescrRuleView>::empty());
    }
    let mut i: usize = 0;
    while i < n
        invariant
            av == accounts_view(accounts@),
            lv == dd_list_view(list@),
            lv.len() == n,
            i <= n,
            match compile_descr_list_spec(av, lv.skip(i as int)) {
                Ok(t) => compile_descr_list_spec(av, lv) == Ok::<Seq<DescrRuleView>, LedgerDefect>(
                    descr_rules_view(out@) + t,
                ),
                Err(e) => compile_descr_list_spec(av, lv) == Err::<
                    Seq<DescrRuleView>,
                    LedgerDefect,
                >(e),
            },
        decreases n - i,
    {
        proof {
            assert(lv.skip(i as int)[0] == lv[i as int]);
            assert(lv.skip(i as int).drop_first() =~= lv.skip(i as int + 1));
        }
        let def = &list[i];
        if !account_exists(accounts, def.account_code.as_str()) {
            return Err(LedgerError::UnrecognisedAccountCode(def.account_code.clone()));
        }
        let mut pattern: String = "(?i)".to_owned();
        pattern.append(def.search_expression.as_str());
        match re_new(pattern.as_str()) {
            Err(source) => {
                return Err(LedgerError::IncorrectRegex { source });
            },
            Ok(re) => {
                let ghost prev = out@;
                out.push(
                    AssignByDescription {
                        account_code: def.account_code.clone(),
                        search_expression: re,
                    },
                );
                proof {
                    assert(descr_rules_view(out@) =~= descr_rules_view(prev).push(out@.last()@));
                    if compile_descr_list_spec(av, lv.skip(i as int + 1)) is Ok {
                        let t = compile_descr_list_spec(av, lv.skip(i as int + 1))->Ok_0;
                        assert(descr_rules_view(prev) + (seq![out@.last()@] + t)
                            =~= descr_rules_view(out@) + t);
                    }
                }
                i = i + 1;
            },
        }
    }
    proof {
        assert(lv.skip(n as int) =~= Seq::<(Seq<char>, Seq<char>)>::empty());
        assert(descr_rules_view(out@) + Seq::<DescrRuleView>::empty() =~= descr_rules_view(out@));
    }
    Ok(out)
}

impl Ledger {
    /// Build a ledger from its loaded parts: every bank account must name
    /// a declared cost center, every assignment rule a declared account,
    /// and the name- and description-search expressions are compiled; the
    /// first defect aborts the build.
    pub fn from_parts(
        id: String,
        year: u32,
        currency_iso: String,
        bank_accounts: Vec<BankAccount>,
        cost_centers: Vec<String>,
        accounts: Vec<Account>,
        relations: Vec<Relation>,
        assign_by_name_definition: Vec<(String, Vec<String>)>,
        assign_by_description_definition: Vec<(String, Vec<AssignByDescriptionDefinition>)>,
        assign_by_contract: Vec<(String, AssignByContractDefinition)>,
    ) -> (r: Result<Ledger, LedgerError>)
        ensures
            ({
                let ccs = crate::props::strings_view(cost_centers@);
                let bas = bank_accounts_view(bank_accounts@);
                let av = accounts_view(accounts@);
                let nds = name_defs_view(assign_by_name_definition@);
                let dds = descr_defs_view(assign_by_description_definition@);
                match r {
                    Ok(l) => {
                        &&& ledger_defect_spec(ccs, bas, av, nds, dds) is None
                        &&& l.spec_bank_accounts() == bas
                        &&& l.spec_cost_centers() == ccs
                        &&& l.spec_accounts() == av
                        &&& l.spec_relations() == relations_view(relations@)
                        &&& l.spec_contracts() == contracts_view(assign_by_contract@)
                        &&& Ok::<Seq<NameSearchView>, LedgerDefect>(l.spec_name_rules())
                            == compile_name_defs_spec(av, nds)
                        &&& Ok::<Seq<(Seq<char>, Seq<DescrRuleView>)>, LedgerDefect>(
                            l.spec_descr_rules(),
                        ) == compile_descr_defs_spec(av, dds)
                        &&& l.spec_id() == id@
                        &&& l.spec_year() == year
                        &&& l.spec_currency_iso() == currency_iso@
                    },
                    Err(e) => ledger_defect_spec(ccs, bas, av, nds, dds) is Some
                        && matches_ledger_defect(&e, ledger_defect_spec(ccs, bas, av, nds, dds)->0),
                }
            }),
    {
        let ghost ccs = crate::props::strings_view(cost_centers@);
        let ghost bas = bank_accounts_view(bank_accounts@);
        let ghost av = accounts_view(accounts@);
        let ghost nds = name_defs_view(assign_by_name_definition@);
        let ghost dds = descr_defs_view(assign_by_description_definition@);

        // Every bank account must belong to a declared cost center.
        let nb: usize = bank_accounts.len();
        proof {
            assert(bas.skip(0) =~= bas);
        }
        let mut i: usize = 0;
        while i < nb
            invariant
                ccs == crate::props::strings_view(cost_centers@),
                bas == bank_accounts_view(bank_accounts@),
                bas.len() == nb,
                i <= nb,
                check_bank_accounts_spec(ccs, bas) == check_bank_accounts_spec(
                    ccs,
                    bas.skip(i as int),
                ),
            decreases nb - i,
        {
            proof {
                assert(bas.skip(i as int)[0] == bas[i as int]);
                assert(bas.skip(i as int).drop_first() =~= bas.skip(i as int + 1));
            }
            if !crate::props::names_contain(&cost_centers, bank_accounts[i].cost_center_code.as_str()) {
                return Err(
                    LedgerError::UnrecognisedCostCenterCode(
                        bank_accounts[i].cost_center_code.clone(),
                    ),
                );
            }
            i = i + 1;
        }
        proof {
            assert(bas.skip(nb as int) =~= Seq::<(Seq<char>, Seq<char>)>::empty());
        }

        // Compile the name-search rules into one flat list.
        let mut accounts_by_name: Vec<AssignByNameSearch> = Vec::new();
        let nn: usize = assign_by_name_definition.len();
        proof {
            assert(nds.skip(0) =~= nds);
            if compile_name_defs_spec(av, nds) is Ok {
                assert(Seq::<NameSearchView>::empty() + compile_name_defs_spec(av, nds)->Ok_0
                    =~= compile_name_defs_spec(av, nds)->Ok_0);
            }
            assert(name_rules_view(accounts_by_name@) =~= Seq::<NameSearchView>::empty());
        }
        let mut k: usize = 0;
        while k < nn
            invariant
                av == accounts_view(accounts@),
                ccs == crate::props::strings_view(cost_centers@),
                bas == bank_accounts_view(bank_accounts@),
                check_bank_accounts_spec(ccs, bas) is None,
                nds == name_defs_view(assign_by_name_definition@),
                nds.len() == nn,
                k <= nn,
                match compile_name_defs_spec(av, nds.skip(k as int)) {
                    Ok(t) => compile_name_defs_spec(av, nds) == Ok::<
                        Seq<NameSearchView>,
                        LedgerDefect,
                    >(name_rules_view(accounts_by_name@) + t),
                    Err(e) => compile_name_defs_spec(av, nds) == Err::<
                        Seq<NameSearchView>,
                        LedgerDefect,
                    >(e),
                },
            decreases nn - k,
        {
            proof {
                assert(nds.skip(k as int)[0] == nds[k as int]);
                assert(nds[k as int] == (
                    assign_by_name_definition@[k as int].0@,
                    crate::props::strings_view(assign_by_name_definition@[k as int].1@),
                ));
                assert(nds.skip(k as int).drop_first() =~= nds.skip(k as int + 1));
            }
            let entry = &assign_by_name_definition[k];
            if !account_exists(&accounts, entry.0.as_str()) {
                return Err(LedgerError::UnrecognisedAccountCode(entry.0.clone()));
            }
            match compile_terms_exec(&entry.0, &entry.1) {
                Err(e) => {
                    return Err(e);
                },
                Ok(mut head) => {
                    let ghost prev = accounts_by_name@;
                    let ghost headv = name_rules_view(head@);
                    accounts_by_name.append(&mut head);
                    proof {
                        assert(name_rules_view(accounts_by_name@) =~= name_rules_view(prev)
                            + headv);
                        if compile_name_defs_spec(av, nds.skip(k as int + 1)) is Ok {
                            let t = compile_name_defs_spec(av, nds.skip(k as int + 1))->Ok_0;
                            assert(name_rules_view(prev) + (headv + t) =~= (name_rules_view(prev)
                                + headv) + t);
                        }
                    }
                    k = k + 1;
                },
            }
        }
        proof {
            assert(nds.skip(nn as int) =~= Seq::<(Seq<char>, Seq<Seq<char>>)>::empty());
            assert(name_rules_view(accounts_by_name@) + Seq::<NameSearchView>::empty()
                =~= name_rules_view(accounts_by_name@));
        }

        // Compile the description-rule table.
        let mut assign_by_description: Vec<(String, Vec<AssignByDescription>)> = Vec::new();
        let nd: usize = assign_by_description_definition.len();
        proof {
            assert(dds.skip(0) =~= dds);
            if compile_descr_defs_spec(av, dds) is Ok {
                assert(Seq::<(Seq<char>, Seq<DescrRuleView>)>::empty() + compile_descr_defs_spec(
                    av,
                    dds,
                )->Ok_0 =~= compile_descr_defs_spec(av, dds)->Ok_0);
            }
            assert(descr_table_view(assign_by_description@) =~= Seq::<
                (Seq<char>, Seq<DescrRuleView>),
            >::empty());
        }
        let mut m: usize = 0;
        while m < nd
            invariant
                av == accounts_view(accounts@),
                ccs == crate::props::strings_view(cost_centers@),
                bas == bank_accounts_view(bank_accounts@),
                nds == name_defs_view(assign_by_name_definition@),
                check_bank_accounts_spec(ccs, bas) is None,
                compile_name_defs_spec(av, nds) is Ok,
                dds == descr_defs_view(assign_by_description_definition@),
                dds.len() == nd,
                m <= nd,
                match compile_descr_defs_spec(av, dds.skip(m as int)) {
                    Ok(t) => compile_descr_defs_spec(av, dds) == Ok::<
                        Seq<(Seq<char>, Seq<DescrRuleView>)>,
                        LedgerDefect,
                    >(descr_table_view(assign_by_description@) + t),
                    Err(e) => compile_descr_defs_spec(av, dds) == Err::<
                        Seq<(Seq<char>, Seq<DescrRuleView>)>,
                        LedgerDefect,
                    >(e),
                },
            decreases nd - m,
        {
            proof {
                assert(dds.skip(m as int)[0] == dds[m as int]);
                assert(dds[m as int] == (
                    assign_by_description_definition@[m as int].0@,
                    dd_list_view(assign_by_description_definition@[m as int].1@),
                ));
                assert(dds.skip(m as int).drop_first() =~= dds.skip(m as int + 1));
            }
            let entry = &assign_by_description_definition[m];
            match compile_descr_list_exec(&accounts, &entry.1) {
                Err(e) => {
                    return Err(e);
                },
                Ok(rules) => {
                    let ghost prev = assign_by_description@;
                    assign_by_description.push((entry.0.clone(), rules));
                    proof {
                        assert(descr_table_view(assign_by_description@) =~= descr_table_view(prev)
                            .push(
                            (
                                assign_by_description@.last().0@,
                                descr_rules_view(assign_by_description@.last().1@),
                            ),
                        ));
                        if compile_descr_defs_spec(av, dds.skip(m as int + 1)) is Ok {
                            let t = compile_descr_defs_spec(av, dds.skip(m as int + 1))->Ok_0;
                            assert(descr_table_view(prev) + (seq![
                                descr_table_view(assign_by_description@).last(),
                            ] + t) =~= descr_table_view(assign_by_description@) + t);
                        }
                    }
                    m = m + 1;
                },
            }
        }
        proof {
            assert(dds.skip(nd as int) =~= Seq::<(Seq<char>, Seq<(Seq<char>, Seq<char>)>)>::empty());
            assert(descr_table_view(assign_by_description@) + Seq::<
                (Seq<char>, Seq<DescrRuleView>),
            >::empty() =~= descr_table_view(assign_by_description@));
        }

        Ok(
            Ledger {
                id,
                year,
                currency_iso,
                bank_accounts,
                cost_centers,
                accounts,
                relations,
                assign_by_contract,
                accounts_by_name,
                assign_by_description,
            },
        )
    }
}

impl RelationsRepository for Ledger {
    closed spec fn relation_by_reference(&self, reference: Seq<char>) -> Option<
        (Seq<char>, Seq<char>),
    > {
        match lookup(self.spec_relations(), reference) {
            Some(name) => Some((reference, name)),
            None => None,
        }
    }

    fn find_relation_by_reference(&self, reference: &str) -> (r: Option<&Relation>) {
        let n: usize = self.relations.len();
        let ghost lv = relations_view(self.relations@);
        proof {
            assert(lv.skip(0) =~= lv);
        }
        let mut i: usize = 0;
        while i < n
            invariant
                lv == relations_view(self.relations@),
                lv.len() == n,
                i <= n,
                lookup(lv, reference@) == lookup(lv.skip(i as int), reference@),
            decreases n - i,
        {
            proof {
                assert(lv.skip(i as int)[0] == lv[i as int]);
                assert(lv.skip(i as int).drop_first() =~= lv.skip(i as int + 1));
            }
            if str_eq(self.relations[i].reference.as_str(), reference) {
                return Some(&self.relations[i]);
            }
            i = i + 1;
        }
        proof {
            assert(lv.skip(n as int) =~= Seq::<(Seq<char>, Seq<char>)>::empty());
        }
        None
    }
}

} // verus!
