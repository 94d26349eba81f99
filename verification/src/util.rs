//! Reporting periods, small text helpers of the rendering layer, and the
//! keyed account and format collections.

use vstd::prelude::*;
use vstd::string::*;
use crate::models::{Account, BankFormat, Date};
use crate::props::{
    lemma_lookup_none, lemma_lookup_prefix, lemma_upsert_found, lemma_upsert_missing, lookup,
    upsert,
};
use crate::repos::accounts_view;
use crate::text::str_eq;

verus! {

/// `v` forced into `[lo, hi]`: the lower bound wins when the bounds
/// cross.
pub open spec fn clamp_spec(v: u32, lo: u32, hi: u32) -> u32 {
    let m = if v < hi {
        v
    } else {
        hi
    };
    if m < lo {
        lo
    } else {
        m
    }
}

pub fn clamp(v: &u32, min: u32, max: u32) -> (r: u32)
    ensures
        r == clamp_spec(*v, min, max),
{
    let m: u32 = if *v < max {
        *v
    } else {
        max
    };
    if m < min {
        min
    } else {
        m
    }
}

/// A reporting period within one year.
pub enum Period {
    Month(u32),
    Months(u32, u32),
    Quarter(u32),
    Halfyear(u32),
    Year,
}

/// The month range a period covers, bounds clamped into the calendar.
pub open spec fn period_bounds(p: Period) -> (u32, u32) {
    match p {
        Period::Month(m) => (clamp_spec(m, 1, 12), clamp_spec(m, 1, 12)),
        Period::Months(from, until) => (clamp_spec(from, 1, 12), clamp_spec(until, 1, 12)),
        Period::Quarter(q) => {
            let qc = clamp_spec(q, 1, 4);
            if qc == 1 {
                (1u32, 3u32)
            } else if qc == 2 {
                (4u32, 6u32)
            } else if qc == 3 {
                (7u32, 9u32)
            } else {
                (10u32, 12u32)
            }
        },
        Period::Halfyear(hy) => if clamp_spec(hy, 1, 2) == 1 {
            (1u32, 6u32)
        } else {
            (7u32, 12u32)
        },
        Period::Year => (1u32, 12u32),
    }
}

impl Period {
    fn bounds(&self) -> (r: (u32, u32))
        ensures
            r == period_bounds(*self),
    {
        match self {
            Period::Month(m) => {
                let c: u32 = clamp(m, 1, 12);
                (c, c)
            },
            Period::Months(from, until) => (clamp(from, 1, 12), clamp(until, 1, 12)),
            Period::Quarter(q) => {
                let qc: u32 = clamp(q, 1, 4);
                if qc == 1 {
                    (1, 3)
                } else if qc == 2 {
                    (4, 6)
                } else if qc == 3 {
                    (7, 9)
                } else {
                    (10, 12)
                }
            },
            Period::Halfyear(hy) => {
                if clamp(hy, 1, 2) == 1 {
                    (1, 6)
                } else {
                    (7, 12)
                }
            },
            Period::Year => (1, 12),
        }
    }

    /// The period's months as an inclusive range.
    pub fn as_range(&self) -> (r: core::ops::RangeInclusive<u32>)
        ensures
            r@.start == period_bounds(*self).0,
            r@.end == period_bounds(*self).1,
            !r@.exhausted,
    {
        let b = self.bounds();
        core::ops::RangeInclusive::new(b.0, b.1)
    }

    /// Whether a date's month falls into the period.
    pub fn contains(&self, d: Date) -> (r: bool)
        ensures
            r == (period_bounds(*self).0 <= d.month <= period_bounds(*self).1),
    {
        let b = self.bounds();
        b.0 <= d.month && d.month <= b.1
    }
}

/// What a single character becomes under upper-casing.
pub uninterp spec fn upper_of(c: char) -> Seq<char>;

/// Relies on char::to_uppercase: the mapping depends on the character
/// alone and yields at least one character.
#[verifier::external_body]
fn char_upper(c: char) -> (r: String)
    ensures
        r@ == upper_of(c),
        r@.len() >= 1,
{
    c.to_uppercase().collect::<String>()
}

/// A copy of the text with its first character upper-cased.
pub fn first_letter_to_uppper_case(s1: String) -> (r: String)
    ensures
        s1@.len() == 0 ==> r@ =~= Seq::<char>::empty(),
        s1@.len() > 0 ==> r@ == upper_of(s1@[0]) + s1@.drop_first(),
{
    let s: &str = s1.as_str();
    let n: usize = s.unicode_len();
    if n == 0 {
        String::new()
    } else {
        let mut out: String = char_upper(s.get_char(0));
        out.append(s.substring_char(1, n));
        proof {
            assert(s1@.subrange(1, n as int) =~= s1@.drop_first());
        }
        out
    }
}

/// The accounts of a ledger, keyed by their code; among duplicates the
/// last import record wins.
pub struct Accounts {
    records: Vec<Account>,
}

/// Folding an imported account list into a keyed collection.
pub open spec fn accounts_fold(import: Seq<(Seq<char>, Seq<char>)>) -> Seq<(Seq<char>, Seq<char>)>
    decreases import.len(),
{
    if import.len() == 0 {
        Seq::empty()
    } else {
        upsert(accounts_fold(import.drop_last()), import.last().0, import.last().1)
    }
}

impl Accounts {
    /// The collection's contents as (code, description) pairs.
    pub closed spec fn spec_records(&self) -> Seq<(Seq<char>, Seq<char>)> {
        accounts_view(self.records@)
    }

    /// Build the collection from imported records, later records
    /// overriding earlier ones with the same code.
    pub fn from_records(import: Vec<Account>) -> (r: Accounts)
        ensures
            r.spec_records() == accounts_fold(accounts_view(import@)),
    {
        let ghost iv = accounts_view(import@);
        let mut records: Vec<Account> = Vec::new();
        let n: usize = import.len();
        proof {
            assert(iv.take(0) =~= Seq::<(Seq<char>, Seq<char>)>::empty());
            assert(accounts_view(records@) =~= Seq::<(Seq<char>, Seq<char>)>::empty());
        }
        let mut i: usize = 0;
        while i < n
            invariant
                iv == accounts_view(import@),
                iv.len() == n,
                i <= n,
                accounts_view(records@) == accounts_fold(iv.take(i as int)),
            decreases n - i,
        {
            proof {
                assert(iv.take(i as int + 1).last() == iv[i as int]);
                assert(iv.take(i as int + 1).drop_last() =~= iv.take(i as int));
            }
            let account = Account {
                code: import[i].code.clone(),
                description: import[i].description.clone(),
            };
            let ghost before = accounts_view(records@);
            let m: usize = records.len();
            let mut j: usize = 0;
            let mut found: bool = false;
            while j < m
                invariant_except_break
                    m == records@.len(),
                    j <= m,
                    !found,
                    forall|k: int| 0 <= k < j ==> accounts_view(records@)[k].0 != account.code@,
                    before == accounts_view(records@),
                ensures
                    before == accounts_view(records@),
                    found ==> j < m && accounts_view(records@)[j as int].0 == account.code@
                        && forall|k: int|
                        0 <= k < j ==> accounts_view(records@)[k].0 != account.code@,
                    !found ==> forall|k: int|
                        0 <= k < m ==> accounts_view(records@)[k].0 != account.code@,
                decreases m - j,
            {
                if str_eq(records[j].code.as_str(), account.code.as_str()) {
                    found = true;
                    break;
                }
                j = j + 1;
            }
            if found {
                proof {
                    lemma_upsert_found(before, account.code@, account.description@, j as int);
                }
                records.remove(j);
                records.insert(j, account);
                proof {
                    assert(accounts_view(records@) =~= before.update(
                        j as int,
                        (iv[i as int].0, iv[i as int].1),
                    ));
                }
            } else {
                proof {
                    lemma_upsert_missing(before, account.code@, account.description@);
                }
                records.push(account);
                proof {
                    assert(accounts_view(records@) =~= before.push((iv[i as int].0, iv[i as int].1)));
                }
            }
            i = i + 1;
        }
        proof {
            assert(iv.take(n as int) =~= iv);
        }
        Accounts { records }
    }

    /// The account stored under a code.
    pub fn get(&self, code: &str) -> (r: Option<&Account>)
        ensures
            match r {
                Some(a) => lookup(self.spec_records(), code@) == Some(a.description@) && a.code@
                    == code@,
                None => lookup(self.spec_records(), code@) is None,
            },
    {
        let n: usize = self.records.len();
        for i in 0..n
            invariant
                n == self.records@.len(),
                forall|j: int| 0 <= j < i ==> accounts_view(self.records@)[j].0 != code@,
        {
            if str_eq(self.records[i].code.as_str(), code) {
                proof {
                    lemma_lookup_prefix(self.spec_records(), code@, i as int);
                }
                return Some(&self.records[i]);
            }
        }
        proof {
            lemma_lookup_none(self.spec_records(), code@);
        }
        None
    }

    pub fn len(&self) -> (r: usize)
        ensures
            r == self.spec_records().len(),
    {
        self.records.len()
    }
}

/// The view of a format list as (name, description) pairs.
pub open spec fn formats_view(s: Seq<BankFormat>) -> Seq<(Seq<char>, Seq<char>)> {
    Seq::new(s.len(), |i: int| (s[i].name@, s[i].description@))
}

/// Folding an imported format list into a keyed collection.
pub open spec fn formats_fold(import: Seq<(Seq<char>, Seq<char>)>) -> Seq<(Seq<char>, Seq<char>)>
    decreases import.len(),
{
    if import.len() == 0 {
        Seq::empty()
    } else {
        upsert(formats_fold(import.drop_last()), import.last().0, import.last().1)
    }
}

/// The supported bank formats, keyed by name.
pub struct BankFormats {
    pub formats: Vec<BankFormat>,
}

impl BankFormats {
    /// The collection's contents as (name, description) pairs.
    pub open spec fn spec_formats(&self) -> Seq<(Seq<char>, Seq<char>)> {
        formats_view(self.formats@)
    }

    pub fn new() -> (r: BankFormats)
        ensures
            r.spec_formats() =~= Seq::<(Seq<char>, Seq<char>)>::empty(),
    {
        BankFormats { formats: Vec::new() }
    }

    /// Build the collection from imported records, later records
    /// overriding earlier ones with the same name.
    pub fn from_records(import: Vec<BankFormat>) -> (r: BankFormats)
        ensures
            r.spec_formats() == formats_fold(formats_view(import@)),
    {
        let ghost iv = formats_view(import@);
        let mut formats: Vec<BankFormat> = Vec::new();
        let n: usize = import.len();
        proof {
            assert(iv.take(0) =~= Seq::<(Seq<char>, Seq<char>)>::empty());
            assert(formats_view(formats@) =~= Seq::<(Seq<char>, Seq<char>)>::empty());
        }
        let mut i: usize = 0;
        while i < n
            invariant
                iv == formats_view(import@),
                iv.len() == n,
                i <= n,
                formats_view(formats@) == formats_fold(iv.take(i as int)),
            decreases n - i,
        {
            proof {
                assert(iv.take(i as int + 1).last() == iv[i as int]);
                assert(iv.take(i as int + 1).drop_last() =~= iv.take(i as int));
            }
            let format = BankFormat {
                name: import[i].name.clone(),
                description: import[i].description.clone(),
            };
            let ghost before = formats_view(formats@);
            let m: usize = formats.len();
            let mut j: usize = 0;
            let mut found: bool = false;
            while j < m
                invariant_except_break
                    m == formats@.len(),
                    j <= m,
                    !found,
                    forall|k: int| 0 <= k < j ==> formats_view(formats@)[k].0 != format.name@,
                    before == formats_view(formats@),
                ensures
                    before == formats_view(formats@),
                    found ==> j < m && formats_view(formats@)[j as int].0 == format.name@
                        && forall|k: int|
                        0 <= k < j ==> formats_view(formats@)[k].0 != format.name@,
                    !found ==> forall|k: int|
                        0 <= k < m ==> formats_view(formats@)[k].0 != format.name@,
                decreases m - j,
            {
                if str_eq(formats[j].name.as_str(), format.name.as_str()) {
                    found = true;
                    break;
                }
                j = j + 1;
            }
            if found {
                proof {
                    lemma_upsert_found(before, format.name@, format.description@, j as int);
                }
                formats.remove(j);
                formats.insert(j, format);
                proof {
                    assert(formats_view(formats@) =~= before.update(
                        j as int,
                        (iv[i as int].0, iv[i as int].1),
                    ));
                }
            } else {
                proof {
                    lemma_upsert_missing(before, format.name@, format.description@);
                }
                formats.push(format);
                proof {
                    assert(formats_view(formats@) =~= before.push(
                        (iv[i as int].0, iv[i as int].1),
                    ));
                }
            }
            i = i + 1;
        }
        proof {
            assert(iv.take(n as int) =~= iv);
        }
        BankFormats { formats }
    }

    /// The format registered under a name.
    pub fn get(&self, name: &str) -> (r: Option<&BankFormat>)
        ensures
            match r {
                Some(f) => lookup(self.spec_formats(), name@) == Some(f.description@) && f.name@
                    == name@,
                None => lookup(self.spec_formats(), name@) is None,
            },
    {
        let n: usize = self.formats.len();
        for i in 0..n
            invariant
                n == self.formats@.len(),
                forall|j: int| 0 <= j < i ==> formats_view(self.formats@)[j].0 != name@,
        {
            if str_eq(self.formats[i].name.as_str(), name) {
                proof {
                    lemma_lookup_prefix(self.spec_formats(), name@, i as int);
                }
                return Some(&self.formats[i]);
            }
        }
        proof {
            lemma_lookup_none(self.spec_formats(), name@);
        }
        None
    }
}

} // verus!
