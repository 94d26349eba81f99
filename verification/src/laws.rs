//! Laws of the pattern grammar, stated over the same specification
//! functions that the executable contracts use and proved once and for
//! all.

use vstd::prelude::*;
use vstd::set_lib::lemma_len_subset;
use vstd::seq_lib::seq_to_set_is_finite;
use crate::matcher::{first_candidate, lookup_kind, match_candidate, parse_spec};
use crate::pattern::{depth_left, expand_spec, find_marker, AliasErr, ElemView};
use crate::props::lookup;

verus! {

/// The names of the alias markers that one scan of `s` finds, left to
/// right.
pub open spec fn marker_names(s: Seq<char>) -> Seq<Seq<char>>
    decreases s.len(),
{
    match find_marker(s, 0) {
        None => Seq::empty(),
        Some((p, q)) => if 0 <= p && p + 1 < q && q < s.len() {
            seq![s.subrange(p + 1, q)] + marker_names(s.subrange(q + 1, s.len() as int))
        } else {
            Seq::empty()
        },
    }
}

/// Alias `a` refers to alias `b` when a marker for `b` occurs in `a`'s
/// fragment.
pub open spec fn refers(table: Seq<(Seq<char>, Seq<char>)>, a: Seq<char>, b: Seq<char>) -> bool {
    match lookup(table, a) {
        Some(v) => marker_names(v).contains(b),
        None => false,
    }
}

/// A chain of aliases, each referring to the next, that returns to its
/// start.
pub open spec fn is_cycle(table: Seq<(Seq<char>, Seq<char>)>, c: Seq<Seq<char>>) -> bool {
    c.len() >= 2 && c[0] == c.last() && forall|i: int|
        0 <= i < c.len() - 1 ==> #[trigger] refers(table, c[i], c[i + 1])
}

/// Whether the alias table's reference graph has a cycle.
pub open spec fn has_cycle(table: Seq<(Seq<char>, Seq<char>)>) -> bool {
    exists|c: Seq<Seq<char>>| is_cycle(table, c)
}

/// Whether a substitution result reports a circular alias.
pub open spec fn is_circular_err(r: Result<Seq<char>, AliasErr>) -> bool {
    match r {
        Err(AliasErr::Circular { .. }) => true,
        _ => false,
    }
}

/// The keys of the alias table.
spec fn keyseq(table: Seq<(Seq<char>, Seq<char>)>) -> Seq<Seq<char>> {
    Seq::new(table.len(), |i: int| table[i].0)
}

proof fn lemma_lookup_is_key(table: Seq<(Seq<char>, Seq<char>)>, k: Seq<char>)
    requires
        lookup(table, k) is Some,
    ensures
        keyseq(table).contains(k),
    decreases table.len(),
{
    if table.len() == 0 {
    } else if table[0].0 == k {
        assert(keyseq(table)[0] == k);
    } else {
        lemma_lookup_is_key(table.drop_first(), k);
        let kd = keyseq(table.drop_first());
        let j = choose|j: int| 0 <= j < kd.len() && kd[j] == k;
        assert(keyseq(table)[j + 1] == k);
    }
}

/// A duplicate-free path of defined aliases, extended by one more defined
/// alias not yet on it, cannot be longer than the table: so a fresh alias
/// can always be opened.
proof fn lemma_path_shorter(
    table: Seq<(Seq<char>, Seq<char>)>,
    path: Seq<Seq<char>>,
    name: Seq<char>,
)
    requires
        path.no_duplicates(),
        forall|i: int| 0 <= i < path.len() ==> lookup(table, #[trigger] path[i]) is Some,
        lookup(table, name) is Some,
        !path.contains(name),
    ensures
        path.len() < table.len(),
{
    broadcast use seq_to_set_is_finite;

    let p2 = path.push(name);
    assert(p2.no_duplicates()) by {
        assert(forall|i: int, j: int|
            0 <= i < j < p2.len() ==> p2[i] != p2[j]) by {
            assert(forall|i: int| 0 <= i < path.len() ==> p2[i] == path[i]);
        }
    }
    let keys = keyseq(table);
    assert forall|x: Seq<char>| p2.to_set().contains(x) implies keys.to_set().contains(x) by {
        let i = choose|i: int| 0 <= i < p2.len() && p2[i] == x;
        if i < path.len() {
            lemma_lookup_is_key(table, path[i]);
        } else {
            lemma_lookup_is_key(table, name);
        }
    }
    p2.unique_seq_to_set();
    keys.lemma_cardinality_of_set();
    lemma_len_subset(p2.to_set(), keys.to_set());
}

/// Substitution never reports a circular alias while the reference graph
/// is acyclic: the expansion path is a reference chain, so meeting a name
/// already on it would exhibit a cycle.
proof fn lemma_expand_no_circular(
    table: Seq<(Seq<char>, Seq<char>)>,
    src: Seq<char>,
    path: Seq<Seq<char>>,
)
    requires
        !has_cycle(table),
        path.no_duplicates(),
        forall|i: int| 0 <= i < path.len() ==> lookup(table, #[trigger] path[i]) is Some,
        forall|i: int| 0 <= i < path.len() - 1 ==> #[trigger] refers(table, path[i], path[i + 1]),
        path.len() > 0 ==> forall|b: Seq<char>|
            marker_names(src).contains(b) ==> refers(table, path.last(), b),
    ensures
        !is_circular_err(expand_spec(table, src, path)),
    decreases depth_left(table.len() as int, path.len() as int), src.len(),
{
    match find_marker(src, 0) {
        None => {},
        Some((p, q)) => {
            if !(0 <= p && p + 1 < q && q < src.len()) {
            } else {
                let name = src.subrange(p + 1, q);
                assert(marker_names(src)[0] == name);
                assert(marker_names(src).contains(name));
                if path.contains(name) {
                    // The path from the earlier occurrence of `name` back
                    // to it is a cycle.
                    let j = choose|j: int| 0 <= j < path.len() && path[j] == name;
                    let c = path.subrange(j, path.len() as int).push(name);
                    assert(c[0] == name && c.last() == name);
                    assert(c.len() >= 2);
                    assert forall|i: int| 0 <= i < c.len() - 1 implies #[trigger] refers(
                        table,
                        c[i],
                        c[i + 1],
                    ) by {
                        if i < c.len() - 2 {
                            assert(c[i] == path[j + i] && c[i + 1] == path[j + i + 1]);
                        } else {
                            assert(c[i] == path[path.len() - 1]);
                            assert(c[i + 1] == name);
                        }
                    }
                    assert(is_cycle(table, c));
                    assert(false);
                } else {
                    match lookup(table, name) {
                        None => {},
                        Some(value) => {
                            lemma_path_shorter(table, path, name);
                            let path2 = path.push(name);
                            assert(path2.no_duplicates()) by {
                                assert(forall|i: int|
                                    0 <= i < path.len() ==> path2[i] == path[i]);
                            }
                            assert forall|b: Seq<char>|
                                marker_names(value).contains(b) implies refers(
                                table,
                                path2.last(),
                                b,
                            ) by {}
                            assert(forall|i: int|
                                0 <= i < path2.len() - 1 ==> #[trigger] refers(
                                    table,
                                    path2[i],
                                    path2[i + 1],
                                ));
                            lemma_expand_no_circular(table, value, path2);
                            let rest = src.subrange(q + 1, src.len() as int);
                            assert forall|b: Seq<char>|
                                marker_names(rest).contains(b) implies marker_names(src).contains(
                                b,
                            ) by {
                                let i = choose|i: int|
                                    0 <= i < marker_names(rest).len() && marker_names(rest)[i]
                                        == b;
                                assert(marker_names(src)[i + 1] == b);
                            }
                            lemma_expand_no_circular(table, rest, path);
                        },
                    }
                }
            }
        },
    }
}

/// For every configuration whose alias reference graph is acyclic, alias
/// substitution yields a result and never reports a circular alias: a
/// pattern is either fully substituted or rejected because an alias is
/// undefined. A circular reference, conversely, is reported as an error
/// rather than looped on, since substitution is total.
pub proof fn lemma_acyclic_substitution_completes(
    table: Seq<(Seq<char>, Seq<char>)>,
    pattern: Seq<char>,
)
    requires
        !has_cycle(table),
    ensures
        !is_circular_err(expand_spec(table, pattern, Seq::empty())),
{
    lemma_expand_no_circular(table, pattern, Seq::empty());
}

/// A mutation kind with no configured candidate sequences parses no
/// description at all.
pub proof fn lemma_parse_without_candidates(
    ks: Seq<(Seq<char>, Seq<Seq<ElemView>>)>,
    kind: Seq<char>,
    text: Seq<char>,
)
    requires
        lookup_kind(ks, kind) is None || lookup_kind(ks, kind) == Some(
            Seq::<Seq<ElemView>>::empty(),
        ),
    ensures
        parse_spec(ks, kind, text) is None,
{
}

/// A text without any label boundary extracts to nothing: no labels, no
/// description, no prefix.
pub proof fn lemma_extract_without_boundary(s: Seq<char>)
    requires
        crate::extract::boundaries(s, 0) =~= Seq::<(int, int)>::empty(),
    ensures
        crate::extract::extract_spec(s) =~= Seq::<(Seq<char>, Seq<char>)>::empty(),
{
}

/// Merging is idempotent on merged descriptions that carry no label
/// boundary of their own: re-running the extractor on such a description
/// value yields no properties at all, so in particular it cannot prepend
/// the leading prefix a second time.
pub proof fn lemma_merged_description_idempotent(s: Seq<char>, d: Seq<char>)
    requires
        lookup(crate::extract::extract_spec(s), crate::props::description_key()) == Some(d),
        crate::extract::boundaries(d, 0) =~= Seq::<(int, int)>::empty(),
    ensures
        crate::extract::extract_spec(d) =~= Seq::<(Seq<char>, Seq<char>)>::empty(),
{
    lemma_extract_without_boundary(d);
}

proof fn lemma_first_candidate_at(cands: Seq<Seq<ElemView>>, text: Seq<char>, i: int)
    requires
        0 <= i < cands.len(),
        match_candidate(cands[i], text) is Some,
        forall|j: int| 0 <= j < i ==> match_candidate(#[trigger] cands[j], text) is None,
    ensures
        first_candidate(cands, text) == match_candidate(cands[i], text),
    decreases i,
{
    if i == 0 {
    } else {
        let tail = cands.drop_first();
        assert(tail[i - 1] == cands[i]);
        assert(forall|j: int| 0 <= j < i - 1 ==> #[trigger] tail[j] == cands[j + 1]);
        lemma_first_candidate_at(tail, text, i - 1);
    }
}

/// Candidate precedence: when two candidates of a kind could both match a
/// description, the parse returns the result of whichever is listed
/// first — more generally, of the first candidate that yields a result.
pub proof fn lemma_candidate_precedence(
    ks: Seq<(Seq<char>, Seq<Seq<ElemView>>)>,
    kind: Seq<char>,
    text: Seq<char>,
    i: int,
)
    requires
        lookup_kind(ks, kind) is Some,
        0 <= i < lookup_kind(ks, kind)->0.len(),
        match_candidate(lookup_kind(ks, kind)->0[i], text) is Some,
        forall|j: int|
            0 <= j < i ==> match_candidate(#[trigger] lookup_kind(ks, kind)->0[j], text) is None,
    ensures
        parse_spec(ks, kind, text) == match_candidate(lookup_kind(ks, kind)->0[i], text),
{
    lemma_first_candidate_at(lookup_kind(ks, kind)->0, text, i);
}

} // verus!
