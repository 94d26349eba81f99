//! Heuristic property extractor: splits a free-text description into
//! labelled values.
//!
//! A label boundary has the shape of a capitalized word — an ASCII letter
//! followed by at least one further non-whitespace character — optionally
//! ending in " ID", followed by a colon and any run of whitespace. The text
//! is scanned left to right for non-overlapping boundaries; each value runs
//! from its boundary's end to the start of the next boundary (or the end of
//! the text), with trailing whitespace trimmed. Boundaries are processed
//! back to front, noise labels are dropped, empty values are dropped, and a
//! leading unlabelled prefix is folded into the description value.

use vstd::prelude::*;
use vstd::string::*;
use crate::props::{
    description_key, lookup, upsert, DescriptionProperties, PropMap,
};
use crate::text::{
    fold_seq, is_alpha, is_alpha_exec, is_ws, is_ws_exec, str_eq_ignore_case, trim, trim_end_spec,
    trim_end_str, trim_spec,
};

verus! {

/// End of the run of non-whitespace characters that starts at `i`.
pub open spec fn run_end(s: Seq<char>, i: int) -> int
    decreases s.len() - i,
{
    if i < 0 {
        0
    } else if i >= s.len() {
        s.len() as int
    } else if is_ws(s[i]) {
        i
    } else {
        run_end(s, i + 1)
    }
}

/// End of the run of whitespace characters that starts at `i`.
pub open spec fn ws_end(s: Seq<char>, i: int) -> int
    decreases s.len() - i,
{
    if i < 0 {
        0
    } else if i >= s.len() {
        s.len() as int
    } else if !is_ws(s[i]) {
        i
    } else {
        ws_end(s, i + 1)
    }
}

/// The last colon strictly inside `[lo, hi)`, if any.
pub open spec fn last_colon(s: Seq<char>, lo: int, hi: int) -> Option<int>
    decreases hi - lo,
{
    if hi <= lo || hi > s.len() || lo < 0 {
        None
    } else if s[hi - 1] == ':' {
        Some(hi - 1)
    } else {
        last_colon(s, lo, hi - 1)
    }
}

/// The first colon inside `[lo, hi)`, or `hi` when there is none.
pub open spec fn first_colon(s: Seq<char>, lo: int, hi: int) -> int
    decreases hi - lo,
{
    if lo >= hi || lo < 0 || lo >= s.len() {
        hi
    } else if s[lo] == ':' {
        lo
    } else {
        first_colon(s, lo + 1, hi)
    }
}

/// Does a label boundary start at `i`, and where does it end?
///
/// The label's word is the maximal non-whitespace run after the leading
/// letter. Matching prefers the whole run followed by a literal " ID:" and
/// otherwise falls back to the last colon inside the run; either way the
/// boundary extends over the following whitespace.
pub open spec fn boundary_match(s: Seq<char>, i: int) -> Option<int> {
    if !(0 <= i < s.len() && is_alpha(s[i])) {
        None
    } else {
        let r = run_end(s, i + 1);
        if r <= i + 1 {
            None
        } else if r + 3 < s.len() && s[r] == ' ' && s[r + 1] == 'I' && s[r + 2] == 'D' && s[r + 3]
            == ':' {
            Some(ws_end(s, r + 4))
        } else {
            match last_colon(s, i + 2, r) {
                Some(m) => Some(ws_end(s, m + 1)),
                None => None,
            }
        }
    }
}

/// All label boundaries of `s` at or after `i`: non-overlapping, scanning
/// left to right, each as its `(start, end)` pair.
pub open spec fn boundaries(s: Seq<char>, i: int) -> Seq<(int, int)>
    decreases s.len() - i,
{
    if !(0 <= i < s.len()) {
        Seq::empty()
    } else {
        match boundary_match(s, i) {
            Some(e) => if i < e && e <= s.len() {
                seq![(i, e)] + boundaries(s, e)
            } else {
                seq![(i, e)]
            },
            None => boundaries(s, i + 1),
        }
    }
}

/// The label of boundary `j`: the text from its start up to the first colon.
pub open spec fn boundary_name(s: Seq<char>, bs: Seq<(int, int)>, j: int) -> Seq<char> {
    s.subrange(bs[j].0, first_colon(s, bs[j].0, bs[j].1))
}

/// The value of boundary `j`: the text from its end to the next boundary's
/// start (or the end of `s`), with trailing whitespace removed.
pub open spec fn boundary_value(s: Seq<char>, bs: Seq<(int, int)>, j: int) -> Seq<char> {
    trim_end_spec(
        s.subrange(bs[j].1, if j + 1 < bs.len() { bs[j + 1].0 } else { s.len() as int }),
    )
}

/// Labels that repeat information captured elsewhere and are discarded.
pub open spec fn ignored(name: Seq<char>) -> bool {
    ||| fold_seq(name) == fold_seq("IBAN"@)
    ||| fold_seq(name) == fold_seq("Valutadatum"@)
    ||| fold_seq(name) == fold_seq("Incassant ID"@)
    ||| fold_seq(name) == fold_seq("Check"@)
}

/// The mapping after processing boundaries `j..` in back-to-front order:
/// boundary `j` is applied last, so among equal labels the earliest one in
/// the text wins.
pub open spec fn props_after(s: Seq<char>, bs: Seq<(int, int)>, j: int) -> Seq<
    (Seq<char>, Seq<char>),
>
    decreases bs.len() - j,
{
    if j < 0 || j >= bs.len() {
        Seq::empty()
    } else {
        let m = props_after(s, bs, j + 1);
        let name = boundary_name(s, bs, j);
        let val = boundary_value(s, bs, j);
        if ignored(name) || val.len() == 0 {
            m
        } else {
            upsert(m, name, val)
        }
    }
}

/// The full extraction: collected boundary values, and when the first
/// boundary leaves a leading prefix, that prefix (trimmed) prepended to the
/// description value.
pub open spec fn extract_spec(s: Seq<char>) -> Seq<(Seq<char>, Seq<char>)> {
    let bs = boundaries(s, 0);
    let m = props_after(s, bs, 0);
    if bs.len() > 0 && bs[0].0 > 1 {
        let intro = trim_spec(s.subrange(0, bs[0].0));
        let d = match lookup(m, description_key()) {
            Some(descr) => intro + " "@ + descr,
            None => intro,
        };
        upsert(m, description_key(), d)
    } else {
        m
    }
}

fn run_end_exec(s: &str, i: usize, n: usize) -> (r: usize)
    requires
        n == s@.len(),
        i <= n,
    ensures
        r == run_end(s@, i as int),
        i <= r <= n,
{
    let mut j: usize = i;
    while j < n && !is_ws_exec(s.get_char(j))
        invariant
            s@.len() == n,
            i <= j <= n,
            run_end(s@, i as int) == run_end(s@, j as int),
        decreases n - j,
    {
        j = j + 1;
    }
    j
}

fn ws_end_exec(s: &str, i: usize, n: usize) -> (r: usize)
    requires
        n == s@.len(),
        i <= n,
    ensures
        r == ws_end(s@, i as int),
        i <= r <= n,
{
    let mut j: usize = i;
    while j < n && is_ws_exec(s.get_char(j))
        invariant
            s@.len() == n,
            i <= j <= n,
            ws_end(s@, i as int) == ws_end(s@, j as int),
        decreases n - j,
    {
        j = j + 1;
    }
    j
}

fn last_colon_exec(s: &str, lo: usize, hi: usize, n: usize) -> (r: Option<usize>)
    requires
        n == s@.len(),
        lo <= hi <= n,
    ensures
        match r {
            Some(m) => lo <= m < hi && last_colon(s@, lo as int, hi as int) == Some(m as int),
            None => last_colon(s@, lo as int, hi as int) is None,
        },
{
    let mut h: usize = hi;
    while h > lo
        invariant
            s@.len() == n,
            lo <= h <= hi <= n,
            last_colon(s@, lo as int, hi as int) == last_colon(s@, lo as int, h as int),
        decreases h,
    {
        if s.get_char(h - 1) == ':' {
            return Some(h - 1);
        }
        h = h - 1;
    }
    None
}

fn first_colon_exec(s: &str, lo: usize, hi: usize, n: usize) -> (r: usize)
    requires
        n == s@.len(),
        lo <= hi <= n,
    ensures
        r == first_colon(s@, lo as int, hi as int),
        lo <= r <= hi,
{
    let mut l: usize = lo;
    while l < hi
        invariant
            s@.len() == n,
            lo <= l <= hi <= n,
            first_colon(s@, lo as int, hi as int) == first_colon(s@, l as int, hi as int),
        decreases hi - l,
    {
        if s.get_char(l) == ':' {
            return l;
        }
        l = l + 1;
    }
    l
}

fn boundary_match_exec(s: &str, i: usize, n: usize) -> (r: Option<usize>)
    requires
        n == s@.len(),
        i < n,
    ensures
        match r {
            Some(e) => Some(e as int) == boundary_match(s@, i as int) && i < e <= n,
            None => boundary_match(s@, i as int) is None,
        },
{
    if !is_alpha_exec(s.get_char(i)) {
        return None;
    }
    let r_end: usize = run_end_exec(s, i + 1, n);
    if r_end <= i + 1 {
        return None;
    }
    if r_end < n && n - r_end >= 4 && s.get_char(r_end) == ' ' && s.get_char(r_end + 1) == 'I'
        && s.get_char(r_end + 2) == 'D' && s.get_char(r_end + 3) == ':' {
        return Some(ws_end_exec(s, r_end + 4, n));
    }
    proof {
        // The " ID:" test above and the one in the specification agree.
        assert((r_end + 3 < n) == (r_end < n && n - r_end >= 4));
    }
    match last_colon_exec(s, i + 2, r_end, n) {
        Some(m) => Some(ws_end_exec(s, m + 1, n)),
        None => None,
    }
}

/// The boundary positions of `bs`, as mathematical integers.
pub open spec fn bounds_view(v: Seq<(usize, usize)>) -> Seq<(int, int)> {
    Seq::new(v.len(), |k: int| (v[k].0 as int, v[k].1 as int))
}

fn boundaries_exec(s: &str, n: usize) -> (bs: Vec<(usize, usize)>)
    requires
        n == s@.len(),
    ensures
        bounds_view(bs@) == boundaries(s@, 0),
        forall|k: int| 0 <= k < bs@.len() ==> (#[trigger] bs@[k]).0 < bs@[k].1 <= n,
        forall|k: int| 0 <= k < bs@.len() - 1 ==> (#[trigger] bs@[k]).1 <= bs@[k + 1].0,
{
    let mut bs: Vec<(usize, usize)> = Vec::new();
    let mut pos: usize = 0;
    proof {
        assert(bounds_view(bs@) + boundaries(s@, 0) =~= boundaries(s@, 0));
    }
    while pos < n
        invariant
            s@.len() == n,
            pos <= n,
            boundaries(s@, 0) == bounds_view(bs@) + boundaries(s@, pos as int),
            forall|k: int| 0 <= k < bs@.len() ==> (#[trigger] bs@[k]).0 < bs@[k].1 <= n,
            forall|k: int| 0 <= k < bs@.len() - 1 ==> (#[trigger] bs@[k]).1 <= bs@[k + 1].0,
            bs@.len() > 0 ==> bs@[bs@.len() - 1].1 <= pos,
        decreases n - pos,
    {
        match boundary_match_exec(s, pos, n) {
            Some(e) => {
                proof {
                    assert(boundaries(s@, pos as int) == seq![(pos as int, e as int)] + boundaries(
                        s@,
                        e as int,
                    ));
                }
                let ghost prev = bs@;
                bs.push((pos, e));
                proof {
                    assert(bounds_view(bs@) =~= bounds_view(prev) + seq![(pos as int, e as int)]);
                    assert(bounds_view(prev) + (seq![(pos as int, e as int)] + boundaries(
                        s@,
                        e as int,
                    )) =~= bounds_view(bs@) + boundaries(s@, e as int));
                }
                pos = e;
            },
            None => {
                pos = pos + 1;
            },
        }
    }
    proof {
        assert(boundaries(s@, n as int) =~= Seq::<(int, int)>::empty());
        assert(bounds_view(bs@) + Seq::<(int, int)>::empty() =~= bounds_view(bs@));
    }
    bs
}

impl DescriptionProperties {
    /// Extract all labelled values from a raw description text.
    pub fn from_text(info: &str) -> (r: DescriptionProperties)
        ensures
            r.properties@ == extract_spec(info@),
    {
        let n: usize = info.unicode_len();
        let bs = boundaries_exec(info, n);
        let ghost bsg = boundaries(info@, 0);
        let mut props = PropMap::new();
        let len: usize = bs.len();
        let mut j: usize = len;
        while j > 0
            invariant
                n == info@.len(),
                bounds_view(bs@) == bsg,
                bs@.len() == len,
                j <= len,
                forall|k: int| 0 <= k < bs@.len() ==> (#[trigger] bs@[k]).0 < bs@[k].1 <= n,
                forall|k: int| 0 <= k < bs@.len() - 1 ==> (#[trigger] bs@[k]).1 <= bs@[k + 1].0,
                props@ == props_after(info@, bsg, j as int),
            decreases j,
        {
            j = j - 1;
            let pair = bs[j];
            let start: usize = pair.0;
            let mid: usize = pair.1;
            let next_start: usize = if j + 1 < len {
                bs[j + 1].0
            } else {
                n
            };
            let fc: usize = first_colon_exec(info, start, mid, n);
            let name: &str = info.substring_char(start, fc);
            let val: String = trim_end_str(info.substring_char(mid, next_start));
            proof {
                assert(name@ == boundary_name(info@, bsg, j as int));
                assert(val@ == boundary_value(info@, bsg, j as int));
            }
            let keep: bool = !(str_eq_ignore_case(name, "IBAN") || str_eq_ignore_case(
                name,
                "Valutadatum",
            ) || str_eq_ignore_case(name, "Incassant ID") || str_eq_ignore_case(name, "Check"));
            if keep && val.as_str().unicode_len() > 0 {
                props.insert(name.to_owned(), val);
            }
        }
        let mut result = DescriptionProperties { properties: props };
        if len > 0 && bs[0].0 > 1 {
            let intro: String = trim(info.substring_char(0, bs[0].0));
            let descr: Option<String> = match result.description() {
                Some(d) => Some(d.clone()),
                None => None,
            };
            let full: String = match descr {
                Some(d) => {
                    let mut t = intro;
                    t.append(" ");
                    t.append(d.as_str());
                    t
                },
                None => intro,
            };
            result.define_description(full);
        }
        result
    }
}

} // verus!
