//! Character-level utilities over `&str` and `String`: equality, prefix
//! tests, ASCII case folding, whitespace trimming and substring replacement.
//! Every function is specified against the `Seq<char>` view of its inputs.

use vstd::prelude::*;
use vstd::string::*;

verus! {

/// ASCII whitespace: the separators that appear in bank statement text.
pub open spec fn is_ws(c: char) -> bool {
    c == ' ' || c == '\t' || c == '\n' || c == '\r' || c == '\x0c'
}

pub fn is_ws_exec(c: char) -> (r: bool)
    ensures
        r == is_ws(c),
{
    c == ' ' || c == '\t' || c == '\n' || c == '\r' || c == '\x0c'
}

/// ASCII lower-casing of one character; other characters are unchanged.
pub open spec fn fold_char(c: char) -> char {
    if 'A' <= c && c <= 'Z' {
        ((c as u32) + 32) as char
    } else {
        c
    }
}

/// ASCII lower-casing of a whole sequence.
pub open spec fn fold_seq(s: Seq<char>) -> Seq<char> {
    Seq::new(s.len(), |i: int| fold_char(s[i]))
}

/// Relies on char::from_u32: `Some` exactly on Unicode scalar values, and
/// the returned character casts back to the given code point.
pub assume_specification[ char::from_u32 ](u: u32) -> (r: Option<char>)
    ensures
        r is Some <==> (u < 0xD800 || (0xE000 <= u && u <= 0x10FFFF)),
        r is Some ==> (r->0 as u32) == u,
;

pub fn fold_char_exec(c: char) -> (r: char)
    ensures
        r == fold_char(c),
{
    let u: u32 = c as u32;
    if 'A' <= c && c <= 'Z' {
        let folded: u32 = u + 32;
        let r: char = char::from_u32(folded).unwrap();
        proof {
            vstd::utf8::char_u32_cast(r, folded);
        }
        r
    } else {
        c
    }
}

/// Character-sequence equality of two string slices.
pub fn str_eq(a: &str, b: &str) -> (r: bool)
    ensures
        r == (a@ == b@),
{
    let n: usize = a.unicode_len();
    if n != b.unicode_len() {
        return false;
    }
    for i in 0..n
        invariant
            a@.len() == n,
            b@.len() == n,
            forall|k: int| 0 <= k < i ==> a@[k] == b@[k],
    {
        if a.get_char(i) != b.get_char(i) {
            return false;
        }
    }
    proof {
        assert(a@ =~= b@);
    }
    true
}

/// Case-insensitive (ASCII) character-sequence equality.
pub fn str_eq_ignore_case(a: &str, b: &str) -> (r: bool)
    ensures
        r == (fold_seq(a@) == fold_seq(b@)),
{
    let n: usize = a.unicode_len();
    if n != b.unicode_len() {
        proof {
            assert(fold_seq(a@).len() != fold_seq(b@).len());
        }
        return false;
    }
    for i in 0..n
        invariant
            a@.len() == n,
            b@.len() == n,
            forall|k: int| 0 <= k < i ==> fold_char(a@[k]) == fold_char(b@[k]),
    {
        if fold_char_exec(a.get_char(i)) != fold_char_exec(b.get_char(i)) {
            proof {
                assert(fold_seq(a@)[i as int] != fold_seq(b@)[i as int]);
            }
            return false;
        }
    }
    proof {
        assert(fold_seq(a@) =~= fold_seq(b@));
    }
    true
}

/// Does `s` begin with `prefix`?
pub open spec fn starts_with_spec(s: Seq<char>, prefix: Seq<char>) -> bool {
    s.len() >= prefix.len() && s.subrange(0, prefix.len() as int) == prefix
}

pub fn starts_with(s: &str, prefix: &str) -> (r: bool)
    ensures
        r == starts_with_spec(s@, prefix@),
{
    let np: usize = prefix.unicode_len();
    if s.unicode_len() < np {
        return false;
    }
    for i in 0..np
        invariant
            prefix@.len() == np,
            s@.len() >= np,
            forall|k: int| 0 <= k < i ==> s@[k] == prefix@[k],
    {
        if s.get_char(i) != prefix.get_char(i) {
            proof {
                assert(s@.subrange(0, np as int)[i as int] != prefix@[i as int]);
            }
            return false;
        }
    }
    proof {
        assert(s@.subrange(0, np as int) =~= prefix@);
    }
    true
}

/// Leading whitespace removed.
pub open spec fn trim_start_spec(s: Seq<char>) -> Seq<char>
    decreases s.len(),
{
    if s.len() > 0 && is_ws(s[0]) {
        trim_start_spec(s.drop_first())
    } else {
        s
    }
}

/// Trailing whitespace removed.
pub open spec fn trim_end_spec(s: Seq<char>) -> Seq<char>
    decreases s.len(),
{
    if s.len() > 0 && is_ws(s[s.len() - 1]) {
        trim_end_spec(s.drop_last())
    } else {
        s
    }
}

/// Whitespace removed from both ends.
pub open spec fn trim_spec(s: Seq<char>) -> Seq<char> {
    trim_end_spec(trim_start_spec(s))
}

proof fn lemma_trim_start_step(s: Seq<char>, i: int)
    requires
        0 <= i < s.len(),
        is_ws(s[i]),
    ensures
        trim_start_spec(s.subrange(i, s.len() as int)) == trim_start_spec(
            s.subrange(i + 1, s.len() as int),
        ),
{
    let sub = s.subrange(i, s.len() as int);
    assert(sub.len() > 0 && is_ws(sub[0]));
    assert(sub.drop_first() =~= s.subrange(i + 1, s.len() as int));
}

proof fn lemma_trim_end_step(s: Seq<char>, j: int)
    requires
        0 < j <= s.len(),
        is_ws(s[j - 1]),
    ensures
        trim_end_spec(s.subrange(0, j)) == trim_end_spec(s.subrange(0, j - 1)),
{
    let sub = s.subrange(0, j);
    assert(sub.len() > 0 && is_ws(sub[sub.len() - 1]));
    assert(sub.drop_last() =~= s.subrange(0, j - 1));
}

/// A copy of `s` with whitespace removed from both ends.
pub fn trim(s: &str) -> (r: String)
    ensures
        r@ == trim_spec(s@),
{
    let n: usize = s.unicode_len();
    let mut i: usize = 0;
    proof {
        assert(s@.subrange(0, n as int) =~= s@);
    }
    while i < n && is_ws_exec(s.get_char(i))
        invariant
            s@.len() == n,
            i <= n,
            trim_start_spec(s@) == trim_start_spec(s@.subrange(i as int, n as int)),
        decreases n - i,
    {
        proof {
            lemma_trim_start_step(s@, i as int);
        }
        i = i + 1;
    }
    // The remaining text s[i..n] equals trim_start_spec(s@).
    proof {
        if i < n {
            assert(!is_ws(s@.subrange(i as int, n as int)[0]));
        }
        assert(trim_start_spec(s@) == s@.subrange(i as int, n as int));
    }
    let ghost t = s@.subrange(i as int, n as int);
    let mut j: usize = n;
    proof {
        assert(t.subrange(0, t.len() as int) =~= t);
        assert(s@.subrange(i as int, j as int) =~= t.subrange(0, (j - i) as int));
    }
    while j > i && is_ws_exec(s.get_char(j - 1))
        invariant
            s@.len() == n,
            i <= j <= n,
            t == s@.subrange(i as int, n as int),
            trim_end_spec(t) == trim_end_spec(t.subrange(0, (j - i) as int)),
        decreases j,
    {
        proof {
            assert(t[(j - i - 1) as int] == s@[j - 1]);
            lemma_trim_end_step(t, (j - i) as int);
        }
        j = j - 1;
    }
    proof {
        let u = t.subrange(0, (j - i) as int);
        if j > i {
            assert(u[u.len() - 1] == t[(j - i - 1) as int]);
            assert(t[(j - i - 1) as int] == s@[j - 1]);
            assert(!is_ws(u[u.len() - 1]));
        }
        assert(trim_end_spec(t) == u);
        assert(s@.subrange(i as int, j as int) =~= u);
    }
    s.substring_char(i, j).to_owned()
}

/// An ASCII letter.
pub open spec fn is_alpha(c: char) -> bool {
    ('a' <= c && c <= 'z') || ('A' <= c && c <= 'Z')
}

pub fn is_alpha_exec(c: char) -> (r: bool)
    ensures
        r == is_alpha(c),
{
    ('a' <= c && c <= 'z') || ('A' <= c && c <= 'Z')
}

/// A copy of `s` with whitespace removed from the end only.
pub fn trim_end_str(s: &str) -> (r: String)
    ensures
        r@ == trim_end_spec(s@),
{
    let n: usize = s.unicode_len();
    let mut j: usize = n;
    proof {
        assert(s@.subrange(0, n as int) =~= s@);
    }
    while j > 0 && is_ws_exec(s.get_char(j - 1))
        invariant
            s@.len() == n,
            j <= n,
            trim_end_spec(s@) == trim_end_spec(s@.subrange(0, j as int)),
        decreases j,
    {
        proof {
            lemma_trim_end_step(s@, j as int);
        }
        j = j - 1;
    }
    proof {
        let u = s@.subrange(0, j as int);
        if j > 0 {
            assert(u[u.len() - 1] == s@[j - 1]);
            assert(!is_ws(u[u.len() - 1]));
        }
        assert(trim_end_spec(s@) == u);
    }
    s.substring_char(0, j).to_owned()
}

/// The first index at or after `from` where `pat` occurs in `s`, if any.
pub open spec fn find_sub_spec(s: Seq<char>, pat: Seq<char>, from: int) -> Option<int>
    decreases s.len() - from,
{
    if from < 0 || from + pat.len() > s.len() {
        None
    } else if s.subrange(from, from + pat.len() as int) == pat {
        Some(from)
    } else if from < s.len() {
        find_sub_spec(s, pat, from + 1)
    } else {
        None
    }
}

/// Occurrence test used by `find_sub_spec`'s callers.
pub open spec fn occurs_at(s: Seq<char>, pat: Seq<char>, i: int) -> bool {
    0 <= i && i + pat.len() <= s.len() && s.subrange(i, i + pat.len() as int) == pat
}

fn match_at(s: &str, pat: &str, i: usize) -> (r: bool)
    requires
        i + pat@.len() <= s@.len(),
        s@.len() <= usize::MAX,
    ensures
        r == occurs_at(s@, pat@, i as int),
{
    let np: usize = pat.unicode_len();
    for k in 0..np
        invariant
            pat@.len() == np,
            i + np <= s@.len(),
            s@.len() <= usize::MAX,
            forall|m: int| 0 <= m < k ==> s@[i + m] == pat@[m],
    {
        if s.get_char(i + k) != pat.get_char(k) {
            proof {
                assert(s@.subrange(i as int, i + np as int)[k as int] != pat@[k as int]);
            }
            return false;
        }
    }
    proof {
        assert(s@.subrange(i as int, i + np as int) =~= pat@);
    }
    true
}

/// First occurrence of `pat` in `s` at or after `from`.
pub fn find_sub(s: &str, pat: &str, from: usize) -> (r: Option<usize>)
    requires
        from <= s@.len(),
    ensures
        match r {
            Some(i) => from <= i && i + pat@.len() <= s@.len() && Some(i as int) == find_sub_spec(
                s@,
                pat@,
                from as int,
            ),
            None => find_sub_spec(s@, pat@, from as int) is None,
        },
{
    let n: usize = s.unicode_len();
    let np: usize = pat.unicode_len();
    if np == 0 {
        proof {
            assert(s@.subrange(from as int, from as int) =~= pat@);
        }
        return Some(from);
    }
    if np > n {
        return None;
    }
    let end: usize = n - np;
    if from > end {
        return None;
    }
    let mut i: usize = from;
    while i <= end
        invariant
            s@.len() == n,
            pat@.len() == np,
            1 <= np <= n,
            end == n - np,
            from <= i <= end + 1,
            find_sub_spec(s@, pat@, from as int) == find_sub_spec(s@, pat@, i as int),
        decreases end + 1 - i,
    {
        if match_at(s, pat, i) {
            return Some(i);
        }
        i = i + 1;
    }
    None
}

/// `s` with every occurrence of `pat` replaced by `to`, scanning left to
/// right; an empty `pat` leaves `s` unchanged.
pub open spec fn replace_spec(s: Seq<char>, pat: Seq<char>, to: Seq<char>) -> Seq<char>
    decreases s.len(),
{
    if pat.len() == 0 {
        s
    } else {
        match find_sub_spec(s, pat, 0) {
            None => s,
            Some(i) => if 0 <= i && i + pat.len() <= s.len() {
                s.subrange(0, i) + to + replace_spec(
                    s.subrange(i + pat.len() as int, s.len() as int),
                    pat,
                    to,
                )
            } else {
                s
            },
        }
    }
}

/// A search over the whole string from `pos + k` agrees, up to a shift of
/// `pos`, with a search over the suffix that starts at `pos`.
proof fn lemma_find_sub_shift(s: Seq<char>, pat: Seq<char>, pos: int, k: int)
    requires
        0 <= pos <= s.len(),
        0 <= k,
        pat.len() >= 1,
    ensures
        match find_sub_spec(s, pat, pos + k) {
            Some(i) => find_sub_spec(s.subrange(pos, s.len() as int), pat, k) == Some(i - pos),
            None => find_sub_spec(s.subrange(pos, s.len() as int), pat, k) is None,
        },
    decreases s.len() - pos - k,
{
    let t = s.subrange(pos, s.len() as int);
    if pos + k + pat.len() > s.len() {
    } else {
        assert(t.subrange(k, k + pat.len() as int) =~= s.subrange(
            pos + k,
            pos + k + pat.len() as int,
        ));
        if s.subrange(pos + k, pos + k + pat.len() as int) == pat {
        } else {
            lemma_find_sub_shift(s, pat, pos, k + 1);
        }
    }
}

pub fn replace_all(s: &str, pat: &str, to: &str) -> (r: String)
    ensures
        r@ == replace_spec(s@, pat@, to@),
{
    let np: usize = pat.unicode_len();
    if np == 0 {
        return s.to_owned();
    }
    let mut out: String = String::new();
    let mut pos: usize = 0;
    let n: usize = s.unicode_len();
    proof {
        assert(s@.subrange(0, n as int) =~= s@);
        assert(out@ + replace_spec(s@, pat@, to@) =~= replace_spec(s@, pat@, to@));
    }
    loop
        invariant_except_break
            s@.len() == n,
            pat@.len() == np,
            np >= 1,
            pos <= n,
            out@ + replace_spec(s@.subrange(pos as int, n as int), pat@, to@) == replace_spec(
                s@,
                pat@,
                to@,
            ),
        ensures
            out@ == replace_spec(s@, pat@, to@),
        decreases n - pos,
    {
        let ghost t = s@.subrange(pos as int, n as int);
        match find_sub(s, pat, pos) {
            Some(i) => {
                proof {
                    lemma_find_sub_shift(s@, pat@, pos as int, 0);
                    assert(find_sub_spec(t, pat@, 0) == Some(i - pos));
                    assert(replace_spec(t, pat@, to@) == t.subrange(0, i - pos) + to@
                        + replace_spec(t.subrange(i - pos + np as int, t.len() as int), pat@, to@));
                    assert(t.subrange(0, i - pos) =~= s@.subrange(pos as int, i as int));
                    assert(t.subrange(i - pos + np as int, t.len() as int) =~= s@.subrange(
                        i + np as int,
                        n as int,
                    ));
                }
                out.append(s.substring_char(pos, i));
                out.append(to);
                proof {
                    assert(out@ + replace_spec(s@.subrange(i + np as int, n as int), pat@, to@)
                        =~= replace_spec(s@, pat@, to@));
                }
                pos = i + np;
            },
            None => {
                proof {
                    lemma_find_sub_shift(s@, pat@, pos as int, 0);
                    assert(find_sub_spec(t, pat@, 0) is None);
                    assert(replace_spec(t, pat@, to@) == t);
                }
                out.append(s.substring_char(pos, n));
                break;
            },
        }
    }
    out
}

} // verus!
