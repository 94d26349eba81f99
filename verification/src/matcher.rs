//! Backward sequential matcher.
//!
//! Per mutation kind the parser holds an ordered list of candidate
//! sequences, each an ordered list of compiled match elements stored in
//! reverse of their configured order: every element's pattern is anchored
//! to the end of the remaining text, so the last-configured field is
//! matched first and each match trims the text down to the unmatched
//! prefix. Candidates are tried in configured order and the first one that
//! yields a nonempty mapping wins.

use vstd::prelude::*;
use vstd::string::*;
use crate::errors::ParseError;
use crate::imap::{im_insert, im_len, im_new, imap_entries};
use crate::pattern::{compile_view, matches_compile_err, CompileErr, ElemView, RegexElement};
use crate::props::{pairs_view, upsert};
use crate::text::str_eq;
use crate::re::re_caps;
use crate::text::{trim, trim_spec};

verus! {

/// The views of a list of compiled elements.
pub open spec fn elems_view(es: Seq<RegexElement>) -> Seq<ElemView> {
    Seq::new(es.len(), |i: int| es[i]@)
}

/// The views of a list of candidate sequences.
pub open spec fn cands_view(cs: Seq<Vec<RegexElement>>) -> Seq<Seq<ElemView>> {
    Seq::new(cs.len(), |i: int| elems_view(cs[i]@))
}

/// The candidate sequences registered for a kind, first match wins.
pub open spec fn lookup_kind(
    ks: Seq<(Seq<char>, Seq<Seq<ElemView>>)>,
    kind: Seq<char>,
) -> Option<Seq<Seq<ElemView>>>
    decreases ks.len(),
{
    if ks.len() == 0 {
        None
    } else if ks[0].0 == kind {
        Some(ks[0].1)
    } else {
        lookup_kind(ks.drop_first(), kind)
    }
}

/// Matching one candidate's elements, front to back, against a shrinking
/// text. A match captures the first group under the element's name and
/// trims the text to everything before the match; a failed match abandons
/// the candidate unless the element is optional.
pub open spec fn match_elements(
    elems: Seq<ElemView>,
    text: Seq<char>,
    acc: Seq<(Seq<char>, Seq<char>)>,
) -> Option<Seq<(Seq<char>, Seq<char>)>>
    decreases elems.len(),
{
    if elems.len() == 0 {
        Some(acc)
    } else {
        let e = elems[0];
        match re_caps(e.pattern, text) {
            Some(parts) => match parts.2 {
                Some(val) => {
                    match_elements(elems.drop_first(), trim_spec(parts.1), upsert(acc, e.name, val))
                },
                None => if e.optional {
                    match_elements(elems.drop_first(), text, acc)
                } else {
                    None
                },
            },
            None => if e.optional {
                match_elements(elems.drop_first(), text, acc)
            } else {
                None
            },
        }
    }
}

/// One candidate's result: its mapping when every element was processed
/// and the mapping is nonempty.
pub open spec fn match_candidate(elems: Seq<ElemView>, text: Seq<char>) -> Option<
    Seq<(Seq<char>, Seq<char>)>,
> {
    match match_elements(elems, text, Seq::empty()) {
        Some(m) => if m.len() > 0 {
            Some(m)
        } else {
            None
        },
        None => None,
    }
}

/// The first candidate, in configured order, that yields a result.
pub open spec fn first_candidate(cands: Seq<Seq<ElemView>>, text: Seq<char>) -> Option<
    Seq<(Seq<char>, Seq<char>)>,
>
    decreases cands.len(),
{
    if cands.len() == 0 {
        None
    } else {
        match match_candidate(cands[0], text) {
            Some(m) => Some(m),
            None => first_candidate(cands.drop_first(), text),
        }
    }
}

/// The whole parse: the first successful candidate of the kind's list, or
/// nothing when the kind is unknown or every candidate fails.
pub open spec fn parse_spec(
    ks: Seq<(Seq<char>, Seq<Seq<ElemView>>)>,
    kind: Seq<char>,
    text: Seq<char>,
) -> Option<Seq<(Seq<char>, Seq<char>)>> {
    match lookup_kind(ks, kind) {
        None => None,
        Some(cands) => first_candidate(cands, text),
    }
}

proof fn lemma_lookup_kind_prefix(ks: Seq<(Seq<char>, Seq<Seq<ElemView>>)>, kind: Seq<char>, i: int)
    requires
        0 <= i < ks.len(),
        ks[i].0 == kind,
        forall|j: int| 0 <= j < i ==> ks[j].0 != kind,
    ensures
        lookup_kind(ks, kind) == Some(ks[i].1),
    decreases i,
{
    if i == 0 {
    } else {
        let tail = ks.drop_first();
        assert(tail[i - 1].0 == kind);
        lemma_lookup_kind_prefix(tail, kind, i - 1);
    }
}

proof fn lemma_lookup_kind_none(ks: Seq<(Seq<char>, Seq<Seq<ElemView>>)>, kind: Seq<char>)
    requires
        forall|j: int| 0 <= j < ks.len() ==> ks[j].0 != kind,
    ensures
        lookup_kind(ks, kind) is None,
    decreases ks.len(),
{
    if ks.len() == 0 {
    } else {
        lemma_lookup_kind_none(ks.drop_first(), kind);
    }
}

/// The view of a kind table.
pub open spec fn kinds_view(ks: Seq<(String, Vec<Vec<RegexElement>>)>) -> Seq<
    (Seq<char>, Seq<Seq<ElemView>>),
> {
    Seq::new(ks.len(), |i: int| (ks[i].0@, cands_view(ks[i].1@)))
}

/// A compiled description parser: per mutation kind, its candidate
/// sequences with each candidate's elements in reverse configured order.
#[derive(Debug)]
pub struct DescriptionParser {
    kinds: Vec<(String, Vec<Vec<RegexElement>>)>,
}

impl View for DescriptionParser {
    type V = Seq<(Seq<char>, Seq<Seq<ElemView>>)>;

    closed spec fn view(&self) -> Seq<(Seq<char>, Seq<Seq<ElemView>>)> {
        kinds_view(self.kinds@)
    }
}

/// The configuration a parser is built from: the alias table, and per
/// mutation kind the ordered candidate sequences, each an ordered list of
/// `(field spec, fragment)` pairs.
pub struct FormatDefinitions {
    pub aliases: Vec<(String, String)>,
    pub definitions_per_mutation_kind: Vec<(String, Vec<Vec<(String, String)>>)>,
}

/// The view of one kind's configured candidate list.
pub open spec fn cand_pairs_view(cs: Seq<Vec<(String, String)>>) -> Seq<
    Seq<(Seq<char>, Seq<char>)>,
> {
    Seq::new(cs.len(), |i: int| pairs_view(cs[i]@))
}

/// The view of the whole per-kind configuration.
pub open spec fn defs_view(ds: Seq<(String, Vec<Vec<(String, String)>>)>) -> Seq<
    (Seq<char>, Seq<Seq<(Seq<char>, Seq<char>)>>),
> {
    Seq::new(ds.len(), |i: int| (ds[i].0@, cand_pairs_view(ds[i].1@)))
}

/// One candidate compiled pair by pair, last configured pair first, so the
/// stored elements are in reverse configured order; the first failing pair
/// aborts.
pub open spec fn compile_candidate_spec(
    table: Seq<(Seq<char>, Seq<char>)>,
    cand: Seq<(Seq<char>, Seq<char>)>,
) -> Result<Seq<ElemView>, CompileErr>
    decreases cand.len(),
{
    if cand.len() == 0 {
        Ok(Seq::empty())
    } else {
        match compile_view(table, cand.last().0, cand.last().1) {
            Err(e) => Err(e),
            Ok(ev) => match compile_candidate_spec(table, cand.drop_last()) {
                Err(e) => Err(e),
                Ok(rest) => Ok(seq![ev] + rest),
            },
        }
    }
}

/// All candidates of one kind, in configured order.
pub open spec fn compile_cands_spec(
    table: Seq<(Seq<char>, Seq<char>)>,
    cands: Seq<Seq<(Seq<char>, Seq<char>)>>,
) -> Result<Seq<Seq<ElemView>>, CompileErr>
    decreases cands.len(),
{
    if cands.len() == 0 {
        Ok(Seq::empty())
    } else {
        match compile_candidate_spec(table, cands[0]) {
            Err(e) => Err(e),
            Ok(c0) => match compile_cands_spec(table, cands.drop_first()) {
                Err(e) => Err(e),
                Ok(rest) => Ok(seq![c0] + rest),
            },
        }
    }
}

/// The whole configuration compiled, kind by kind in configured order.
pub open spec fn compile_defs_spec(
    table: Seq<(Seq<char>, Seq<char>)>,
    defs: Seq<(Seq<char>, Seq<Seq<(Seq<char>, Seq<char>)>>)>,
) -> Result<Seq<(Seq<char>, Seq<Seq<ElemView>>)>, CompileErr>
    decreases defs.len(),
{
    if defs.len() == 0 {
        Ok(Seq::empty())
    } else {
        match compile_cands_spec(table, defs[0].1) {
            Err(e) => Err(e),
            Ok(cs) => match compile_defs_spec(table, defs.drop_first()) {
                Err(e) => Err(e),
                Ok(rest) => Ok(seq![(defs[0].0, cs)] + rest),
            },
        }
    }
}

fn compile_candidate_exec(aliases: &Vec<(String, String)>, cand: &Vec<(String, String)>) -> (r:
    Result<Vec<RegexElement>, ParseError>)
    ensures
        match r {
            Ok(es) => compile_candidate_spec(pairs_view(aliases@), pairs_view(cand@)) == Ok::<
                Seq<ElemView>,
                CompileErr,
            >(elems_view(es@)),
            Err(e) => compile_candidate_spec(pairs_view(aliases@), pairs_view(cand@)) is Err
                && matches_compile_err(
                &e,
                compile_candidate_spec(pairs_view(aliases@), pairs_view(cand@))->Err_0,
            ),
        },
{
    let ghost table = pairs_view(aliases@);
    let ghost cv = pairs_view(cand@);
    let mut out: Vec<RegexElement> = Vec::new();
    let n: usize = cand.len();
    let mut i: usize = n;
    proof {
        assert(cv.take(n as int) =~= cv);
        if compile_candidate_spec(table, cv) is Ok {
            assert(Seq::<ElemView>::empty() + compile_candidate_spec(table, cv)->Ok_0
                =~= compile_candidate_spec(table, cv)->Ok_0);
        }
        assert(elems_view(out@) =~= Seq::<ElemView>::empty());
    }
    while i > 0
        invariant
            table == pairs_view(aliases@),
            cv == pairs_view(cand@),
            cv.len() == n,
            i <= n,
            match compile_candidate_spec(table, cv.take(i as int)) {
                Ok(t) => compile_candidate_spec(table, cv) == Ok::<Seq<ElemView>, CompileErr>(
                    elems_view(out@) + t,
                ),
                Err(e) => compile_candidate_spec(table, cv) == Err::<Seq<ElemView>, CompileErr>(e),
            },
        decreases i,
    {
        let pair = &cand[i - 1];
        proof {
            assert(cv.take(i as int).last() == cv[i as int - 1]);
            assert(cv.take(i as int).drop_last() =~= cv.take(i as int - 1));
            assert(cv[i as int - 1].0 == cand@[i as int - 1].0@);
        }
        match RegexElement::replace_alias_and_compile(aliases, pair.0.as_str(), pair.1.as_str()) {
            Err(e) => {
                return Err(e);
            },
            Ok(elem) => {
                let ghost prev = out@;
                out.push(elem);
                proof {
                    assert(elems_view(out@) =~= elems_view(prev).push(elem@));
                    if compile_candidate_spec(table, cv.take(i as int - 1)) is Ok {
                        let t = compile_candidate_spec(table, cv.take(i as int - 1))->Ok_0;
                        assert(elems_view(prev) + (seq![elem@] + t) =~= elems_view(prev).push(
                            elem@,
                        ) + t);
                    }
                }
                i = i - 1;
            },
        }
    }
    proof {
        assert(cv.take(0) =~= Seq::<(Seq<char>, Seq<char>)>::empty());
        assert(elems_view(out@) + Seq::<ElemView>::empty() =~= elems_view(out@));
    }
    Ok(out)
}

fn compile_cands_exec(aliases: &Vec<(String, String)>, cands: &Vec<Vec<(String, String)>>) -> (r:
    Result<Vec<Vec<RegexElement>>, ParseError>)
    ensures
        match r {
            Ok(cs) => compile_cands_spec(pairs_view(aliases@), cand_pairs_view(cands@)) == Ok::<
                Seq<Seq<ElemView>>,
                CompileErr,
            >(cands_view(cs@)),
            Err(e) => compile_cands_spec(pairs_view(aliases@), cand_pairs_view(cands@)) is Err
                && matches_compile_err(
                &e,
                compile_cands_spec(pairs_view(aliases@), cand_pairs_view(cands@))->Err_0,
            ),
        },
{
    let ghost table = pairs_view(aliases@);
    let ghost ccv = cand_pairs_view(cands@);
    let mut out: Vec<Vec<RegexElement>> = Vec::new();
    let n: usize = cands.len();
    let mut c: usize = 0;
    proof {
        assert(ccv.skip(0) =~= ccv);
        if compile_cands_spec(table, ccv) is Ok {
            assert(Seq::<Seq<ElemView>>::empty() + compile_cands_spec(table, ccv)->Ok_0
                =~= compile_cands_spec(table, ccv)->Ok_0);
        }
        assert(cands_view(out@) =~= Seq::<Seq<ElemView>>::empty());
    }
    while c < n
        invariant
            table == pairs_view(aliases@),
            ccv == cand_pairs_view(cands@),
            ccv.len() == n,
            c <= n,
            match compile_cands_spec(table, ccv.skip(c as int)) {
                Ok(t) => compile_cands_spec(table, ccv) == Ok::<Seq<Seq<ElemView>>, CompileErr>(
                    cands_view(out@) + t,
                ),
                Err(e) => compile_cands_spec(table, ccv) == Err::<Seq<Seq<ElemView>>, CompileErr>(
                    e,
                ),
            },
        decreases n - c,
    {
        proof {
            assert(ccv.skip(c as int)[0] == ccv[c as int]);
            assert(ccv[c as int] == pairs_view(cands@[c as int]@));
            assert(ccv.skip(c as int).drop_first() =~= ccv.skip(c as int + 1));
        }
        match compile_candidate_exec(aliases, &cands[c]) {
            Err(e) => {
                return Err(e);
            },
            Ok(es) => {
                let ghost prev = out@;
                out.push(es);
                proof {
                    assert(cands_view(out@) =~= cands_view(prev).push(elems_view(out@[out@.len()
                        - 1]@)));
                    if compile_cands_spec(table, ccv.skip(c as int + 1)) is Ok {
                        let t = compile_cands_spec(table, ccv.skip(c as int + 1))->Ok_0;
                        assert(cands_view(prev) + (seq![cands_view(out@).last()] + t)
                            =~= cands_view(out@) + t);
                    }
                }
                c = c + 1;
            },
        }
    }
    proof {
        assert(ccv.skip(n as int) =~= Seq::<Seq<(Seq<char>, Seq<char>)>>::empty());
        assert(cands_view(out@) + Seq::<Seq<ElemView>>::empty() =~= cands_view(out@));
    }
    Ok(out)
}

impl DescriptionParser {
    /// Build a parser from a configuration: every kind's candidates are
    /// compiled, each candidate's elements in reverse configured order;
    /// the first configuration defect aborts the build.
    pub fn try_from(defs: &FormatDefinitions) -> (r: Result<DescriptionParser, ParseError>)
        ensures
            match r {
                Ok(p) => compile_defs_spec(
                    pairs_view(defs.aliases@),
                    defs_view(defs.definitions_per_mutation_kind@),
                ) == Ok::<Seq<(Seq<char>, Seq<Seq<ElemView>>)>, CompileErr>(p@),
                Err(e) => compile_defs_spec(
                    pairs_view(defs.aliases@),
                    defs_view(defs.definitions_per_mutation_kind@),
                ) is Err && matches_compile_err(
                    &e,
                    compile_defs_spec(
                        pairs_view(defs.aliases@),
                        defs_view(defs.definitions_per_mutation_kind@),
                    )->Err_0,
                ),
            },
    {
        let ghost table = pairs_view(defs.aliases@);
        let ghost dv = defs_view(defs.definitions_per_mutation_kind@);
        let mut out: Vec<(String, Vec<Vec<RegexElement>>)> = Vec::new();
        let n: usize = defs.definitions_per_mutation_kind.len();
        let mut k: usize = 0;
        proof {
            assert(dv.skip(0) =~= dv);
            if compile_defs_spec(table, dv) is Ok {
                assert(Seq::<(Seq<char>, Seq<Seq<ElemView>>)>::empty() + compile_defs_spec(
                    table,
                    dv,
                )->Ok_0 =~= compile_defs_spec(table, dv)->Ok_0);
            }
            assert(kinds_view(out@) =~= Seq::<(Seq<char>, Seq<Seq<ElemView>>)>::empty());
        }
        while k < n
            invariant
                table == pairs_view(defs.aliases@),
                dv == defs_view(defs.definitions_per_mutation_kind@),
                dv.len() == n,
                k <= n,
                match compile_defs_spec(table, dv.skip(k as int)) {
                    Ok(t) => compile_defs_spec(table, dv) == Ok::<
                        Seq<(Seq<char>, Seq<Seq<ElemView>>)>,
                        CompileErr,
                    >(kinds_view(out@) + t),
                    Err(e) => compile_defs_spec(table, dv) == Err::<
                        Seq<(Seq<char>, Seq<Seq<ElemView>>)>,
                        CompileErr,
                    >(e),
                },
            decreases n - k,
        {
            let entry = &defs.definitions_per_mutation_kind[k];
            proof {
                assert(dv.skip(k as int)[0] == dv[k as int]);
                assert(dv[k as int] == (
                    defs.definitions_per_mutation_kind@[k as int].0@,
                    cand_pairs_view(defs.definitions_per_mutation_kind@[k as int].1@),
                ));
                assert(dv.skip(k as int).drop_first() =~= dv.skip(k as int + 1));
            }
            match compile_cands_exec(&defs.aliases, &entry.1) {
                Err(e) => {
                    return Err(e);
                },
                Ok(cs) => {
                    let ghost prev = out@;
                    out.push((entry.0.clone(), cs));
                    proof {
                        assert(kinds_view(out@) =~= kinds_view(prev).push(
                            (out@.last().0@, cands_view(out@.last().1@)),
                        ));
                        if compile_defs_spec(table, dv.skip(k as int + 1)) is Ok {
                            let t = compile_defs_spec(table, dv.skip(k as int + 1))->Ok_0;
                            assert(kinds_view(prev) + (seq![kinds_view(out@).last()] + t)
                                =~= kinds_view(out@) + t);
                        }
                    }
                    k = k + 1;
                },
            }
        }
        proof {
            assert(dv.skip(n as int) =~= Seq::<(Seq<char>, Seq<Seq<(Seq<char>, Seq<char>)>>)>::empty());
            assert(kinds_view(out@) + Seq::<(Seq<char>, Seq<Seq<ElemView>>)>::empty()
                =~= kinds_view(out@));
        }
        Ok(DescriptionParser { kinds: out })
    }
}

fn match_candidate_exec(elems: &Vec<RegexElement>, description: &str) -> (r: Option<
    indexmap::IndexMap<String, String>,
>)
    ensures
        match r {
            Some(m) => match_candidate(elems_view(elems@), description@) == Some(imap_entries(m)),
            None => match_candidate(elems_view(elems@), description@) is None,
        },
{
    let ghost ev = elems_view(elems@);
    let ghost empty_acc = Seq::<(Seq<char>, Seq<char>)>::empty();
    let mut current: String = description.to_owned();
    let mut result = im_new();
    let ne: usize = elems.len();
    let mut i: usize = 0;
    proof {
        assert(ev.skip(0) =~= ev);
    }
    while i < ne
        invariant
            ev == elems_view(elems@),
            empty_acc == Seq::<(Seq<char>, Seq<char>)>::empty(),
            ev.len() == ne,
            i <= ne,
            match_elements(ev, description@, empty_acc) == match_elements(
                ev.skip(i as int),
                current@,
                imap_entries(result),
            ),
        decreases ne - i,
    {
        let elem = &elems[i];
        proof {
            assert(ev.skip(i as int)[0] == ev[i as int]);
            assert(ev[i as int] == elems@[i as int]@);
            assert(ev.skip(i as int).drop_first() =~= ev.skip(i as int + 1));
        }
        match elem.captures(current.as_str()) {
            Some(parts) => {
                match parts.2 {
                    Some(val) => {
                        im_insert(&mut result, elem.name.clone(), val);
                        current = trim(parts.1.as_str());
                        i = i + 1;
                    },
                    None => {
                        if elem.is_optional {
                            i = i + 1;
                        } else {
                            return None;
                        }
                    },
                }
            },
            None => {
                if elem.is_optional {
                    i = i + 1;
                } else {
                    return None;
                }
            },
        }
    }
    proof {
        assert(ev.skip(ne as int) =~= Seq::<ElemView>::empty());
        assert(match_elements(ev, description@, empty_acc) == Some(imap_entries(result)));
    }
    if im_len(&result) > 0 {
        Some(result)
    } else {
        None
    }
}

impl DescriptionParser {
    /// Try each candidate of the kind in configured order against the
    /// description and return the first nonempty mapping; none when the
    /// kind has no candidates or every candidate fails.
    pub fn parse(&self, kind: &str, description: &str) -> (r: Option<
        indexmap::IndexMap<String, String>,
    >)
        ensures
            match r {
                Some(m) => parse_spec(self@, kind@, description@) == Some(imap_entries(m)),
                None => parse_spec(self@, kind@, description@) is None,
            },
    {
        let nk: usize = self.kinds.len();
        let mut ki: usize = 0;
        let mut found: bool = false;
        while ki < nk
            invariant_except_break
                nk == self@.len(),
                ki <= nk,
                !found,
                forall|j: int| 0 <= j < ki ==> self@[j].0 != kind@,
            ensures
                found ==> ki < nk && self@[ki as int].0 == kind@ && forall|j: int|
                    0 <= j < ki ==> self@[j].0 != kind@,
                !found ==> forall|j: int| 0 <= j < nk ==> self@[j].0 != kind@,
            decreases nk - ki,
    {
            if str_eq(self.kinds[ki].0.as_str(), kind) {
                found = true;
                break;
            }
            ki = ki + 1;
        }
        if !found {
            proof {
                lemma_lookup_kind_none(self@, kind@);
            }
            return None;
        }
        proof {
            lemma_lookup_kind_prefix(self@, kind@, ki as int);
        }
        let candidates = &self.kinds[ki].1;
        let ghost cv = cands_view(candidates@);
        let nc: usize = candidates.len();
        let mut c: usize = 0;
        proof {
            assert(cv.skip(0) =~= cv);
        }
        while c < nc
            invariant
                cv == cands_view(candidates@),
                cv.len() == nc,
                c <= nc,
                parse_spec(self@, kind@, description@) == first_candidate(
                    cv.skip(c as int),
                    description@,
                ),
            decreases nc - c,
        {
            proof {
                assert(cv.skip(c as int)[0] == cv[c as int]);
                assert(cv.skip(c as int).drop_first() =~= cv.skip(c as int + 1));
            }
            match match_candidate_exec(&candidates[c], description) {
                Some(m) => {
                    return Some(m);
                },
                None => {
                    c = c + 1;
                },
            }
        }
        proof {
            assert(cv.skip(nc as int) =~= Seq::<Seq<ElemView>>::empty());
        }
        None
    }
}

} // verus!
