//! Attribute mappings extracted from transaction descriptions.
//!
//! `PropMap` is an insertion-ordered association from labels to values with
//! first-match lookup; `DescriptionProperties` wraps one and owns the
//! reserved labels (description, name, tag, contract reference) together
//! with their normalization rules.

use vstd::prelude::*;
use vstd::string::*;
use crate::text::{fold_seq, starts_with, starts_with_spec, str_eq, str_eq_ignore_case};

verus! {

/// First value bound to `k`, scanning the entries front to back.
pub open spec fn lookup(es: Seq<(Seq<char>, Seq<char>)>, k: Seq<char>) -> Option<Seq<char>>
    decreases es.len(),
{
    if es.len() == 0 {
        None
    } else if es[0].0 == k {
        Some(es[0].1)
    } else {
        lookup(es.drop_first(), k)
    }
}

/// Replace the value of the first entry keyed `k`, keeping its position;
/// append a new entry when `k` is absent.
pub open spec fn upsert(
    es: Seq<(Seq<char>, Seq<char>)>,
    k: Seq<char>,
    v: Seq<char>,
) -> Seq<(Seq<char>, Seq<char>)>
    decreases es.len(),
{
    if es.len() == 0 {
        seq![(k, v)]
    } else if es[0].0 == k {
        seq![(k, v)] + es.drop_first()
    } else {
        seq![es[0]] + upsert(es.drop_first(), k, v)
    }
}

/// The entries with the first entry keyed `k` removed, if there is one.
pub open spec fn remove_key(
    es: Seq<(Seq<char>, Seq<char>)>,
    k: Seq<char>,
) -> Seq<(Seq<char>, Seq<char>)>
    decreases es.len(),
{
    if es.len() == 0 {
        es
    } else if es[0].0 == k {
        es.drop_first()
    } else {
        seq![es[0]] + remove_key(es.drop_first(), k)
    }
}

pub proof fn lemma_upsert_found(es: Seq<(Seq<char>, Seq<char>)>, k: Seq<char>, v: Seq<char>, i: int)
    requires
        0 <= i < es.len(),
        es[i].0 == k,
        forall|j: int| 0 <= j < i ==> es[j].0 != k,
    ensures
        upsert(es, k, v) == es.update(i, (k, v)),
    decreases i,
{
    if i == 0 {
        assert(upsert(es, k, v) == seq![(k, v)] + es.drop_first());
        assert(seq![(k, v)] + es.drop_first() =~= es.update(0, (k, v)));
    } else {
        let tail = es.drop_first();
        assert(tail[i - 1].0 == k);
        lemma_upsert_found(tail, k, v, i - 1);
        assert(seq![es[0]] + tail.update(i - 1, (k, v)) =~= es.update(i, (k, v)));
    }
}

pub proof fn lemma_upsert_missing(es: Seq<(Seq<char>, Seq<char>)>, k: Seq<char>, v: Seq<char>)
    requires
        forall|j: int| 0 <= j < es.len() ==> es[j].0 != k,
    ensures
        upsert(es, k, v) == es.push((k, v)),
    decreases es.len(),
{
    if es.len() == 0 {
        assert(upsert(es, k, v) =~= es.push((k, v)));
    } else {
        lemma_upsert_missing(es.drop_first(), k, v);
        assert(seq![es[0]] + es.drop_first().push((k, v)) =~= es.push((k, v)));
    }
}

proof fn lemma_remove_found(es: Seq<(Seq<char>, Seq<char>)>, k: Seq<char>, i: int)
    requires
        0 <= i < es.len(),
        es[i].0 == k,
        forall|j: int| 0 <= j < i ==> es[j].0 != k,
    ensures
        remove_key(es, k) == es.remove(i),
    decreases i,
{
    if i == 0 {
        assert(es.drop_first() =~= es.remove(0));
    } else {
        let tail = es.drop_first();
        assert(tail[i - 1].0 == k);
        lemma_remove_found(tail, k, i - 1);
        assert(seq![es[0]] + tail.remove(i - 1) =~= es.remove(i));
    }
}

proof fn lemma_remove_missing(es: Seq<(Seq<char>, Seq<char>)>, k: Seq<char>)
    requires
        forall|j: int| 0 <= j < es.len() ==> es[j].0 != k,
    ensures
        remove_key(es, k) == es,
    decreases es.len(),
{
    if es.len() == 0 {
    } else {
        lemma_remove_missing(es.drop_first(), k);
        assert(seq![es[0]] + es.drop_first() =~= es);
    }
}

/// An insertion-ordered label-to-value mapping with first-match lookup.
pub struct PropMap {
    entries: Vec<(String, String)>,
}

impl View for PropMap {
    type V = Seq<(Seq<char>, Seq<char>)>;

    closed spec fn view(&self) -> Seq<(Seq<char>, Seq<char>)> {
        Seq::new(self.entries@.len(), |i: int| (self.entries@[i].0@, self.entries@[i].1@))
    }
}

impl PropMap {
    pub fn new() -> (r: PropMap)
        ensures
            r@ =~= Seq::<(Seq<char>, Seq<char>)>::empty(),
    {
        PropMap { entries: Vec::new() }
    }

    pub fn len(&self) -> (r: usize)
        ensures
            r == self@.len(),
    {
        self.entries.len()
    }

    /// The entry at position `i`, in insertion order.
    pub fn entry_at(&self, i: usize) -> (r: (&String, &String))
        requires
            i < self@.len(),
        ensures
            r.0@ == self@[i as int].0,
            r.1@ == self@[i as int].1,
    {
        let pair = &self.entries[i];
        (&pair.0, &pair.1)
    }

    fn index_of(&self, key: &str) -> (r: Option<usize>)
        ensures
            match r {
                Some(i) => i < self@.len() && self@[i as int].0 == key@ && forall|j: int|
                    0 <= j < i ==> self@[j].0 != key@,
                None => forall|j: int| 0 <= j < self@.len() ==> self@[j].0 != key@,
            },
    {
        let n: usize = self.entries.len();
        for i in 0..n
            invariant
                n == self@.len(),
                forall|j: int| 0 <= j < i ==> self@[j].0 != key@,
        {
            if str_eq(self.entries[i].0.as_str(), key) {
                return Some(i);
            }
        }
        None
    }

    pub fn get(&self, key: &str) -> (r: Option<&String>)
        ensures
            match r {
                Some(v) => lookup(self@, key@) == Some(v@),
                None => lookup(self@, key@) is None,
            },
    {
        match self.index_of(key) {
            Some(i) => {
                proof {
                    lemma_lookup_prefix(self@, key@, i as int);
                }
                Some(&self.entries[i].1)
            },
            None => {
                proof {
                    lemma_lookup_none(self@, key@);
                }
                None
            },
        }
    }

    pub fn contains_key(&self, key: &str) -> (r: bool)
        ensures
            r == (lookup(self@, key@) is Some),
    {
        match self.get(key) {
            Some(_) => true,
            None => false,
        }
    }

    /// Bind `key` to `value`: the first entry with that key is replaced in
    /// place, or a new entry is appended.
    pub fn insert(&mut self, key: String, value: String)
        ensures
            final(self)@ == upsert(old(self)@, key@, value@),
    {
        match self.index_of(key.as_str()) {
            Some(i) => {
                proof {
                    lemma_upsert_found(self@, key@, value@, i as int);
                }
                self.entries.remove(i);
                self.entries.insert(i, (key, value));
                proof {
                    assert(self@ =~= upsert(old(self)@, key@, value@));
                }
            },
            None => {
                proof {
                    lemma_upsert_missing(self@, key@, value@);
                }
                self.entries.push((key, value));
                proof {
                    assert(self@ =~= upsert(old(self)@, key@, value@));
                }
            },
        }
    }

    /// Drop the first entry with the given key, returning its value.
    pub fn remove(&mut self, key: &str) -> (r: Option<String>)
        ensures
            final(self)@ == remove_key(old(self)@, key@),
            match r {
                Some(v) => lookup(old(self)@, key@) == Some(v@),
                None => lookup(old(self)@, key@) is None,
            },
    {
        match self.index_of(key) {
            Some(i) => {
                proof {
                    lemma_remove_found(self@, key@, i as int);
                    lemma_lookup_prefix(self@, key@, i as int);
                }
                let pair = self.entries.remove(i);
                proof {
                    assert(self@ =~= old(self)@.remove(i as int));
                }
                Some(pair.1)
            },
            None => {
                proof {
                    lemma_remove_missing(self@, key@);
                    lemma_lookup_none(self@, key@);
                    assert(self@ =~= old(self)@);
                }
                None
            },
        }
    }
}

/// When the first `i` entries miss `k` and entry `i` carries it, lookup
/// lands on entry `i`.
pub proof fn lemma_lookup_prefix(es: Seq<(Seq<char>, Seq<char>)>, k: Seq<char>, i: int)
    requires
        0 <= i < es.len(),
        es[i].0 == k,
        forall|j: int| 0 <= j < i ==> es[j].0 != k,
    ensures
        lookup(es, k) == Some(es[i].1),
    decreases i,
{
    if i == 0 {
    } else {
        let tail = es.drop_first();
        assert(tail[i - 1].0 == k);
        lemma_lookup_prefix(tail, k, i - 1);
    }
}

pub proof fn lemma_lookup_none(es: Seq<(Seq<char>, Seq<char>)>, k: Seq<char>)
    requires
        forall|j: int| 0 <= j < es.len() ==> es[j].0 != k,
    ensures
        lookup(es, k) is None,
    decreases es.len(),
{
    if es.len() == 0 {
    } else {
        lemma_lookup_none(es.drop_first(), k);
    }
}

/// The character-level view of a list of string pairs.
pub open spec fn pairs_view(es: Seq<(String, String)>) -> Seq<(Seq<char>, Seq<char>)> {
    Seq::new(es.len(), |i: int| (es[i].0@, es[i].1@))
}

/// The character-level view of a list of strings.
pub open spec fn strings_view(es: Seq<String>) -> Seq<Seq<char>> {
    Seq::new(es.len(), |i: int| es[i]@)
}

/// First-match lookup over a plain list of string pairs.
pub fn assoc_get<'a>(table: &'a Vec<(String, String)>, key: &str) -> (r: Option<&'a String>)
    ensures
        match r {
            Some(v) => lookup(pairs_view(table@), key@) == Some(v@),
            None => lookup(pairs_view(table@), key@) is None,
        },
{
    let n: usize = table.len();
    for i in 0..n
        invariant
            n == table@.len(),
            forall|j: int| 0 <= j < i ==> pairs_view(table@)[j].0 != key@,
    {
        if str_eq(table[i].0.as_str(), key) {
            proof {
                lemma_lookup_prefix(pairs_view(table@), key@, i as int);
            }
            return Some(&table[i].1);
        }
    }
    proof {
        lemma_lookup_none(pairs_view(table@), key@);
    }
    None
}

/// Membership of a name in a list of strings.
pub fn names_contain(names: &Vec<String>, name: &str) -> (r: bool)
    ensures
        r == strings_view(names@).contains(name@),
{
    let n: usize = names.len();
    for i in 0..n
        invariant
            n == names@.len(),
            forall|j: int| 0 <= j < i ==> strings_view(names@)[j] != name@,
    {
        if str_eq(names[i].as_str(), name) {
            proof {
                assert(strings_view(names@)[i as int] == name@);
            }
            return true;
        }
    }
    false
}

/// A copy of a list of strings.
pub fn clone_strings(names: &Vec<String>) -> (r: Vec<String>)
    ensures
        r@ == names@,
{
    let n: usize = names.len();
    let mut out: Vec<String> = Vec::new();
    for i in 0..n
        invariant
            n == names@.len(),
            out@ =~= names@.subrange(0, i as int),
    {
        out.push(names[i].clone());
    }
    proof {
        assert(names@.subrange(0, n as int) =~= names@);
    }
    out
}

/// The reserved label under which a free-text description is stored.
pub open spec fn description_key() -> Seq<char> {
    "Omschrijving"@
}

/// The reserved label for the counterparty name.
pub open spec fn name_key() -> Seq<char> {
    "Naam"@
}

/// The reserved label for a user-supplied tag.
pub open spec fn tag_key() -> Seq<char> {
    "Tag"@
}

/// The reserved label for a direct-debit contract reference.
pub open spec fn contract_key() -> Seq<char> {
    "Machtiging ID"@
}

/// A name with the terminal-operator prefix removed.
pub open spec fn strip_ccv(v: Seq<char>) -> Seq<char> {
    if starts_with_spec(v, "CCV"@) {
        v.subrange("CCV"@.len() as int, v.len() as int)
    } else {
        v
    }
}

/// A tag with its leading marker character removed.
pub open spec fn strip_hash(v: Seq<char>) -> Seq<char> {
    if v.len() > 0 && v[0] == '#' {
        v.subrange(1, v.len() as int)
    } else {
        v
    }
}


/// Is a label the reserved description label, up to ASCII case?
pub open spec fn is_descr_label(k: Seq<char>) -> bool {
    fold_seq(k) == fold_seq(description_key())
}

/// The entries that are not the description, in order.
pub open spec fn non_descr(es: Seq<(Seq<char>, Seq<char>)>) -> Seq<(Seq<char>, Seq<char>)>
    decreases es.len(),
{
    if es.len() == 0 {
        es
    } else {
        let rest = non_descr(es.drop_first());
        if is_descr_label(es[0].0) {
            rest
        } else {
            seq![es[0]] + rest
        }
    }
}

/// The entries rendered as "label: value", joined by comma-space.
pub open spec fn join_pairs(es: Seq<(Seq<char>, Seq<char>)>) -> Seq<char>
    decreases es.len(),
{
    if es.len() == 0 {
        Seq::empty()
    } else if es.len() == 1 {
        es[0].0 + ": "@ + es[0].1
    } else {
        es[0].0 + ": "@ + es[0].1 + ", "@ + join_pairs(es.drop_first())
    }
}

/// The rendering of an attribute mapping: the description first, then the
/// remaining labelled values.
pub open spec fn render_spec(es: Seq<(Seq<char>, Seq<char>)>) -> Seq<char> {
    let body = join_pairs(non_descr(es));
    match lookup(es, description_key()) {
        Some(d) => if non_descr(es).len() > 0 {
            d + ", "@ + body
        } else {
            d
        },
        None => body,
    }
}

proof fn lemma_non_descr_push(es: Seq<(Seq<char>, Seq<char>)>, e: (Seq<char>, Seq<char>))
    ensures
        non_descr(es.push(e)) == non_descr(es) + (if is_descr_label(e.0) {
            Seq::<(Seq<char>, Seq<char>)>::empty()
        } else {
            seq![e]
        }),
    decreases es.len(),
{
    if es.len() == 0 {
        assert(es.push(e).drop_first() =~= Seq::<(Seq<char>, Seq<char>)>::empty());
        if is_descr_label(e.0) {
            assert(non_descr(es) + Seq::<(Seq<char>, Seq<char>)>::empty() =~= non_descr(es));
        } else {
            assert(seq![e] + Seq::<(Seq<char>, Seq<char>)>::empty() =~= seq![e]);
            assert(non_descr(es) + seq![e] =~= seq![e]);
        }
    } else {
        assert(es.push(e).drop_first() =~= es.drop_first().push(e));
        lemma_non_descr_push(es.drop_first(), e);
        let tail = if is_descr_label(e.0) {
            Seq::<(Seq<char>, Seq<char>)>::empty()
        } else {
            seq![e]
        };
        if is_descr_label(es[0].0) {
        } else {
            assert(seq![es[0]] + (non_descr(es.drop_first()) + tail) =~= (seq![es[0]] + non_descr(
                es.drop_first(),
            )) + tail);
        }
    }
}

proof fn lemma_join_push(es: Seq<(Seq<char>, Seq<char>)>, e: (Seq<char>, Seq<char>))
    ensures
        join_pairs(es.push(e)) == (if es.len() == 0 {
            e.0 + ": "@ + e.1
        } else {
            join_pairs(es) + ", "@ + (e.0 + ": "@ + e.1)
        }),
    decreases es.len(),
{
    if es.len() == 0 {
        assert(es.push(e)[0] == e);
    } else {
        assert(es.push(e).drop_first() =~= es.drop_first().push(e));
        lemma_join_push(es.drop_first(), e);
        if es.len() == 1 {
            assert(es[0].0 + ": "@ + es[0].1 + ", "@ + (e.0 + ": "@ + e.1) =~= (es[0].0 + ": "@
                + es[0].1) + ", "@ + (e.0 + ": "@ + e.1));
        } else {
            assert(es[0].0 + ": "@ + es[0].1 + ", "@ + (join_pairs(es.drop_first()) + ", "@ + (e.0
                + ": "@ + e.1)) =~= (es[0].0 + ": "@ + es[0].1 + ", "@ + join_pairs(
                es.drop_first(),
            )) + ", "@ + (e.0 + ": "@ + e.1));
        }
    }
}

/// The labelled values of one transaction description.
pub struct DescriptionProperties {
    pub properties: PropMap,
}

impl DescriptionProperties {
    pub const DESCRIPTION: &'static str = "Omschrijving";

    pub const NAME: &'static str = "Naam";

    pub const TAG: &'static str = "Tag";

    pub const CONTRACT: &'static str = "Machtiging ID";

    pub fn empty() -> (r: DescriptionProperties)
        ensures
            r.properties@ =~= Seq::<(Seq<char>, Seq<char>)>::empty(),
    {
        DescriptionProperties { properties: PropMap::new() }
    }

    /// Store the counterparty name, with the terminal-operator prefix
    /// stripped off.
    pub fn define_name(&mut self, val: &str)
        ensures
            final(self).properties@ == upsert(old(self).properties@, name_key(), strip_ccv(val@)),
    {
        proof {
            reveal_strlit("CCV");
            reveal_strlit("Naam");
        }
        let adjusted: &str = if starts_with(val, "CCV") {
            val.substring_char(3, val.unicode_len())
        } else {
            val
        };
        self.properties.insert("Naam".to_owned(), adjusted.to_owned());
    }

    /// Store the tag, with a leading marker character stripped off.
    pub fn define_tag(&mut self, val: String)
        ensures
            final(self).properties@ == upsert(old(self).properties@, tag_key(), strip_hash(val@)),
    {
        proof {
            reveal_strlit("Tag");
        }
        let n: usize = val.as_str().unicode_len();
        let adjusted: String = if n > 0 && val.as_str().get_char(0) == '#' {
            let s: String = val.as_str().substring_char(1, n).to_owned();
            proof {
                assert(s@ =~= strip_hash(val@));
            }
            s
        } else {
            val
        };
        self.properties.insert("Tag".to_owned(), adjusted);
    }

    pub fn define_description(&mut self, val: String)
        ensures
            final(self).properties@ == upsert(old(self).properties@, description_key(), val@),
    {
        proof {
            reveal_strlit("Omschrijving");
        }
        self.properties.insert("Omschrijving".to_owned(), val);
    }


    /// Render the mapping as one line: the description first, then every
    /// other labelled value, comma-separated.
    pub fn to_text(&self) -> (r: String)
        ensures
            r@ == render_spec(self.properties@),
    {
        let ghost es = self.properties@;
        let n: usize = self.properties.len();
        let mut body: String = String::new();
        let mut count: usize = 0;
        proof {
            assert(es.take(0) =~= Seq::<(Seq<char>, Seq<char>)>::empty());
        }
        let mut i: usize = 0;
        while i < n
            invariant
                es == self.properties@,
                es.len() == n,
                i <= n,
                count <= i,
                count == non_descr(es.take(i as int)).len(),
                body@ == join_pairs(non_descr(es.take(i as int))),
            decreases n - i,
        {
            proof {
                assert(es.take(i as int + 1) =~= es.take(i as int).push(es[i as int]));
                lemma_non_descr_push(es.take(i as int), es[i as int]);
            }
            let pair = self.properties.entry_at(i);
            if !str_eq_ignore_case("Omschrijving", pair.0.as_str()) {
                proof {
                    lemma_join_push(non_descr(es.take(i as int)), es[i as int]);
                    assert(non_descr(es.take(i as int)).push(es[i as int]) =~= non_descr(es.take(
                        i as int,
                    )) + seq![es[i as int]]);
                }
                if count > 0 {
                    body.append(", ");
                }
                body.append(pair.0.as_str());
                body.append(": ");
                body.append(pair.1.as_str());
                count = count + 1;
            } else {
                proof {
                    assert(non_descr(es.take(i as int)) + Seq::<(Seq<char>, Seq<char>)>::empty()
                        =~= non_descr(es.take(i as int)));
                }
            }
            i = i + 1;
        }
        proof {
            assert(es.take(n as int) =~= es);
        }
        let descr: Option<String> = match self.description() {
            Some(d) => Some(d.clone()),
            None => None,
        };
        match descr {
            Some(d) => {
                if count > 0 {
                    let mut out = d;
                    out.append(", ");
                    out.append(body.as_str());
                    out
                } else {
                    d
                }
            },
            None => body,
        }
    }

    pub fn description(&self) -> (r: Option<&String>)
        ensures
            match r {
                Some(v) => lookup(self.properties@, description_key()) == Some(v@),
                None => lookup(self.properties@, description_key()) is None,
            },
    {
        proof {
            reveal_strlit("Omschrijving");
        }
        self.properties.get("Omschrijving")
    }
}

} // verus!
