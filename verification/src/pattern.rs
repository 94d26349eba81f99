//! Alias resolution and pattern compilation.
//!
//! A field spec carries two optional markers: one makes the field optional,
//! the other anonymous. The field's fragment is wrapped into an
//! end-anchored pattern, alias markers of the form `~name~` are substituted
//! recursively from the alias table — a reference cycle is detected via the
//! path of names being expanded and reported instead of looping — and the
//! result is compiled to a regular expression.

use vstd::prelude::*;
use vstd::string::*;
use crate::errors::ParseError;
use crate::props::{clone_strings, lookup, names_contain, pairs_view, strings_view, assoc_get};
use crate::re::{re_caps, re_new, re_ok, re_pattern, re_captures_parts};
use crate::text::{find_sub, find_sub_spec, replace_all, replace_spec};

verus! {

/// The first tilde at or after `i`.
pub open spec fn next_tilde(s: Seq<char>, i: int) -> Option<int>
    decreases s.len() - i,
{
    if !(0 <= i < s.len()) {
        None
    } else if s[i] == '~' {
        Some(i)
    } else {
        next_tilde(s, i + 1)
    }
}

/// The first alias marker at or after `i`: a tilde at the returned start,
/// a nonempty tilde-free name, and a closing tilde at the returned end.
pub open spec fn find_marker(s: Seq<char>, i: int) -> Option<(int, int)>
    decreases s.len() - i,
{
    if !(0 <= i < s.len()) {
        None
    } else if s[i] == '~' {
        match next_tilde(s, i + 1) {
            None => None,
            Some(q) => if q == i + 1 {
                find_marker(s, i + 1)
            } else {
                Some((i, q))
            },
        }
    } else {
        find_marker(s, i + 1)
    }
}

/// How an alias substitution can fail.
pub enum AliasErr {
    Undefined { alias: Seq<char> },
    Circular { alias: Seq<char> },
}

/// How an alias substitution failed, with the offending name.
pub enum AliasError {
    Undefined { alias: String },
    Circular { alias: String },
}

impl View for AliasError {
    type V = AliasErr;

    open spec fn view(&self) -> AliasErr {
        match self {
            AliasError::Undefined { alias } => AliasErr::Undefined { alias: alias@ },
            AliasError::Circular { alias } => AliasErr::Circular { alias: alias@ },
        }
    }
}

/// How many aliases may still be opened below the current expansion path.
pub open spec fn depth_left(table_len: int, path_len: int) -> int {
    if table_len >= path_len {
        table_len - path_len
    } else {
        0
    }
}

/// Alias substitution: the text up to the first marker is kept, the
/// marker's alias value is substituted fully expanded, and the text after
/// the marker is expanded in turn. A name already on the expansion path is
/// a reference cycle. `path` is the chain of alias names currently being
/// expanded.
pub open spec fn expand_spec(
    table: Seq<(Seq<char>, Seq<char>)>,
    src: Seq<char>,
    path: Seq<Seq<char>>,
) -> Result<Seq<char>, AliasErr>
    decreases depth_left(table.len() as int, path.len() as int), src.len(),
{
    match find_marker(src, 0) {
        None => Ok(src),
        Some((p, q)) => if !(0 <= p && p + 1 < q && q < src.len()) {
            Ok(src)
        } else {
            let name = src.subrange(p + 1, q);
            if path.contains(name) {
                Err(AliasErr::Circular { alias: name })
            } else {
                match lookup(table, name) {
                    None => Err(AliasErr::Undefined { alias: name }),
                    Some(value) => if path.len() >= table.len() {
                        Err(AliasErr::Circular { alias: name })
                    } else {
                        match expand_spec(table, value, path.push(name)) {
                            Err(e) => Err(e),
                            Ok(expanded) => match expand_spec(
                                table,
                                src.subrange(q + 1, src.len() as int),
                                path,
                            ) {
                                Err(e) => Err(e),
                                Ok(rest) => Ok(src.subrange(0, p) + expanded + rest),
                            },
                        }
                    },
                }
            }
        },
    }
}

fn next_tilde_exec(s: &str, j: usize, n: usize) -> (r: Option<usize>)
    requires
        n == s@.len(),
        j <= n,
    ensures
        match r {
            Some(q) => j <= q < n && next_tilde(s@, j as int) == Some(q as int),
            None => next_tilde(s@, j as int) is None,
        },
{
    let mut i: usize = j;
    while i < n
        invariant
            s@.len() == n,
            j <= i <= n,
            next_tilde(s@, j as int) == next_tilde(s@, i as int),
        decreases n - i,
    {
        if s.get_char(i) == '~' {
            return Some(i);
        }
        i = i + 1;
    }
    None
}

fn find_marker_exec(s: &str, n: usize) -> (r: Option<(usize, usize)>)
    requires
        n == s@.len(),
    ensures
        match r {
            Some(pq) => pq.0 + 1 < pq.1 && pq.1 < n && find_marker(s@, 0) == Some(
                (pq.0 as int, pq.1 as int),
            ),
            None => find_marker(s@, 0) is None,
        },
{
    let mut i: usize = 0;
    while i < n
        invariant
            s@.len() == n,
            i <= n,
            find_marker(s@, 0) == find_marker(s@, i as int),
        decreases n - i,
    {
        if s.get_char(i) == '~' {
            match next_tilde_exec(s, i + 1, n) {
                None => {
                    return None;
                },
                Some(q) => {
                    if q == i + 1 {
                        i = i + 1;
                    } else {
                        return Some((i, q));
                    }
                },
            }
        } else {
            i = i + 1;
        }
    }
    None
}

/// The view of an expansion result.
pub open spec fn expand_result_view(r: Result<String, AliasError>) -> Result<Seq<char>, AliasErr> {
    match r {
        Ok(s) => Ok(s@),
        Err(e) => Err(e@),
    }
}

/// Substitute every alias marker in `src` from the table, recursively;
/// `path` holds the alias names whose values are currently being expanded.
pub fn expand_aliases(table: &Vec<(String, String)>, src: &str, path: &Vec<String>) -> (r: Result<
    String,
    AliasError,
>)
    ensures
        expand_result_view(r) == expand_spec(pairs_view(table@), src@, strings_view(path@)),
    decreases depth_left(table@.len() as int, path@.len() as int), src@.len(),
{
    let n: usize = src.unicode_len();
    match find_marker_exec(src, n) {
        None => Ok(src.to_owned()),
        Some(pq) => {
            let p: usize = pq.0;
            let q: usize = pq.1;
            let name: &str = src.substring_char(p + 1, q);
            if names_contain(path, name) {
                return Err(AliasError::Circular { alias: name.to_owned() });
            }
            match assoc_get(table, name) {
                None => Err(AliasError::Undefined { alias: name.to_owned() }),
                Some(value) => {
                    if path.len() >= table.len() {
                        return Err(AliasError::Circular { alias: name.to_owned() });
                    }
                    let value: String = value.clone();
                    let mut inner_path: Vec<String> = clone_strings(path);
                    inner_path.push(name.to_owned());
                    proof {
                        assert(strings_view(inner_path@) =~= strings_view(path@).push(name@));
                    }
                    match expand_aliases(table, value.as_str(), &inner_path) {
                        Err(e) => Err(e),
                        Ok(expanded) => {
                            match expand_aliases(table, src.substring_char(q + 1, n), path) {
                                Err(e) => Err(e),
                                Ok(rest) => {
                                    let mut out: String = src.substring_char(0, p).to_owned();
                                    out.append(expanded.as_str());
                                    out.append(rest.as_str());
                                    Ok(out)
                                },
                            }
                        },
                    }
                },
            }
        },
    }
}

/// What one compiled match element promises: its captured name, its
/// modifiers, and the pattern its expression was compiled from.
pub struct ElemView {
    pub name: Seq<char>,
    pub optional: bool,
    pub anonymous: bool,
    pub pattern: Seq<char>,
}

/// One end-anchored match element of a candidate sequence.
#[derive(Debug)]
pub struct RegexElement {
    pub name: String,
    pub is_optional: bool,
    pub is_anonymous: bool,
    pub re: regex::Regex,
}

impl View for RegexElement {
    type V = ElemView;

    open spec fn view(&self) -> ElemView {
        ElemView {
            name: self.name@,
            optional: self.is_optional,
            anonymous: self.is_anonymous,
            pattern: re_pattern(self.re),
        }
    }
}

impl RegexElement {
    /// The leftmost match of this element's pattern on `text`: the whole
    /// matched text, the text before it, and the first capture group.
    pub fn captures(&self, text: &str) -> (r: Option<(String, String, Option<String>)>)
        ensures
            match r {
                Some(parts) => re_caps(self@.pattern, text@) == Some(
                    (
                        parts.0@,
                        parts.1@,
                        match parts.2 {
                            Some(g) => Some(g@),
                            None => None,
                        },
                    ),
                ),
                None => re_caps(self@.pattern, text@) is None,
            },
    {
        re_captures_parts(&self.re, text)
    }
}

/// How compiling one element can fail.
pub enum CompileErr {
    Undefined { alias: Seq<char>, definition: Seq<char> },
    Circular { alias: Seq<char> },
    BadRegex { pattern: Seq<char> },
}

/// The marker characters of a field spec.
pub open spec fn optional_marker() -> Seq<char> {
    "?"@
}

pub open spec fn anonymous_marker() -> Seq<char> {
    "^"@
}

/// The working pattern before alias substitution: the fragment in a
/// capture group, anchored at the end, with the field's own label text in
/// front unless the field is anonymous.
pub open spec fn raw_pattern(real_name: Seq<char>, frag: Seq<char>, anonymous: bool) -> Seq<char> {
    if anonymous {
        "("@ + frag + ")$"@
    } else {
        real_name + ": ("@ + frag + ")$"@
    }
}

/// Compiling one `(field spec, fragment)` pair of the configuration.
pub open spec fn compile_view(
    table: Seq<(Seq<char>, Seq<char>)>,
    name: Seq<char>,
    frag: Seq<char>,
) -> Result<ElemView, CompileErr> {
    let optional = find_sub_spec(name, optional_marker(), 0) is Some;
    let anonymous = find_sub_spec(name, anonymous_marker(), 0) is Some;
    let realname = replace_spec(
        replace_spec(name, anonymous_marker(), Seq::empty()),
        optional_marker(),
        Seq::empty(),
    );
    match expand_spec(table, raw_pattern(realname, frag, anonymous), Seq::empty()) {
        Err(AliasErr::Undefined { alias }) => Err(
            CompileErr::Undefined { alias, definition: name + ": "@ + frag },
        ),
        Err(AliasErr::Circular { alias }) => Err(CompileErr::Circular { alias }),
        Ok(p) => if re_ok(p) {
            Ok(ElemView { name: realname, optional, anonymous, pattern: p })
        } else {
            Err(CompileErr::BadRegex { pattern: p })
        },
    }
}

/// Does a reported error agree with the compile-time error of the
/// specification?
pub open spec fn matches_compile_err(e: &ParseError, ce: CompileErr) -> bool {
    match (e, ce) {
        (
            ParseError::AliasNotDefined { alias, definition },
            CompileErr::Undefined { alias: a, definition: d },
        ) => alias@ == a && definition@ == d,
        (ParseError::CircularAlias { alias }, CompileErr::Circular { alias: a }) => alias@ == a,
        (ParseError::RegexDefinitionError { .. }, CompileErr::BadRegex { .. }) => true,
        _ => false,
    }
}

impl RegexElement {
    /// Parse the field spec's markers, substitute every alias in the
    /// fragment, and compile the end-anchored pattern.
    pub fn replace_alias_and_compile(
        aliases: &Vec<(String, String)>,
        name: &str,
        fragment: &str,
    ) -> (r: Result<RegexElement, ParseError>)
        ensures
            match r {
                Ok(elem) => compile_view(pairs_view(aliases@), name@, fragment@) == Ok::<ElemView, CompileErr>(elem@),
                Err(e) => compile_view(pairs_view(aliases@), name@, fragment@) is Err
                    && matches_compile_err(
                    &e,
                    compile_view(pairs_view(aliases@), name@, fragment@)->Err_0,
                ),
            },
    {
        let optional: bool = match find_sub(name, "?", 0) {
            Some(_) => true,
            None => false,
        };
        let anonymous: bool = match find_sub(name, "^", 0) {
            Some(_) => true,
            None => false,
        };
        proof {
            reveal_strlit("");
            assert(""@ =~= Seq::<char>::empty());
        }
        let realname: String = replace_all(replace_all(name, "^", "").as_str(), "?", "");
        let src0: String = if anonymous {
            let mut t: String = "(".to_owned();
            t.append(fragment);
            t.append(")$");
            t
        } else {
            let mut t: String = realname.clone();
            t.append(": (");
            t.append(fragment);
            t.append(")$");
            t
        };
        let empty_path: Vec<String> = Vec::new();
        proof {
            assert(strings_view(empty_path@) =~= Seq::<Seq<char>>::empty());
        }
        match expand_aliases(aliases, src0.as_str(), &empty_path) {
            Err(AliasError::Undefined { alias }) => {
                let mut definition: String = name.to_owned();
                definition.append(": ");
                definition.append(fragment);
                Err(ParseError::AliasNotDefined { alias, definition })
            },
            Err(AliasError::Circular { alias }) => Err(ParseError::CircularAlias { alias }),
            Ok(pattern) => match re_new(pattern.as_str()) {
                Ok(re) => Ok(
                    RegexElement { name: realname, is_optional: optional, is_anonymous: anonymous, re },
                ),
                Err(source) => Err(ParseError::RegexDefinitionError { source }),
            },
        }
    }
}

} // verus!
