//! The declaration-file parser: pattern-based extraction of exported
//! interfaces, type aliases, function declarations, classes and export
//! blocks from the raw text of a TypeScript declaration file.
//!
//! This path is a best-effort fallback, not a full grammar: it recognizes
//! `export interface NAME`, `export type NAME`,
//! `export (declare)? function NAME(PARAMS)`, `export (declare)? class NAME`
//! at line starts, and `export { a, b, c }` blocks anywhere.  Parameter
//! lists found this way are handed to the lexical parameter parser.  Word
//! characters are ASCII letters, digits and `_`; whitespace is the ASCII
//! blank set.

use vstd::prelude::*;
use crate::module_info::{
    FunctionInfo, NodeModuleInfo, Parameter, TypeInfo, TypeKind, ClassInfo,
};
use crate::strutil::{
    chars_of, find_char_from, is_space_char, match_at, subvec, to_string_of, push_all, is_space,
};
use crate::parser::parameter_parser::{
    param_matches, parse_parameter_chars, spec_parse_parameter, spec_split_params,
    split_params_chars,
};

verus! {

pub open spec fn is_word_char(c: char) -> bool {
    ('a' <= c && c <= 'z') || ('A' <= c && c <= 'Z') || ('0' <= c && c <= '9') || c == '_'
}

pub fn is_word(c: char) -> (b: bool)
    ensures
        b == is_word_char(c),
{
    ('a' <= c && c <= 'z') || ('A' <= c && c <= 'Z') || ('0' <= c && c <= '9') || c == '_'
}

/// First position at or after `i` that does not hold whitespace.
pub open spec fn skip_ws(s: Seq<char>, i: int) -> int
    recommends
        0 <= i <= s.len(),
    decreases s.len() - i + 1,
{
    if i < 0 || i >= s.len() {
        i
    } else if is_space_char(s[i]) {
        skip_ws(s, i + 1)
    } else {
        i
    }
}

pub proof fn lemma_skip_ws(s: Seq<char>, i: int)
    requires
        0 <= i <= s.len(),
    ensures
        i <= skip_ws(s, i) <= s.len(),
        forall|k: int| i <= k < skip_ws(s, i) ==> is_space_char(s[k]),
        skip_ws(s, i) < s.len() ==> !is_space_char(s[skip_ws(s, i)]),
    decreases s.len() - i + 1,
{
    if i < s.len() && is_space_char(s[i]) {
        lemma_skip_ws(s, i + 1);
    }
}

/// End of the maximal run of word characters starting at `i`.
pub open spec fn word_end(s: Seq<char>, i: int) -> int
    recommends
        0 <= i <= s.len(),
    decreases s.len() - i + 1,
{
    if i < 0 || i >= s.len() {
        i
    } else if is_word_char(s[i]) {
        word_end(s, i + 1)
    } else {
        i
    }
}

pub proof fn lemma_word_end(s: Seq<char>, i: int)
    requires
        0 <= i <= s.len(),
    ensures
        i <= word_end(s, i) <= s.len(),
        forall|k: int| i <= k < word_end(s, i) ==> is_word_char(s[k]),
        word_end(s, i) < s.len() ==> !is_word_char(s[word_end(s, i)]),
    decreases s.len() - i + 1,
{
    if i < s.len() && is_word_char(s[i]) {
        lemma_word_end(s, i + 1);
    }
}

pub fn skip_ws_exec(v: &Vec<char>, i: usize) -> (r: usize)
    requires
        i <= v@.len(),
    ensures
        r == skip_ws(v@, i as int),
        i <= r <= v@.len(),
{
    let n = v.len();
    let mut j: usize = i;
    while j < n && is_space(v[j])
        invariant
            i <= j <= n == v@.len(),
            skip_ws(v@, i as int) == skip_ws(v@, j as int),
        decreases n - j,
    {
        j += 1;
    }
    j
}

pub fn word_end_exec(v: &Vec<char>, i: usize) -> (r: usize)
    requires
        i <= v@.len(),
    ensures
        r == word_end(v@, i as int),
        i <= r <= v@.len(),
{
    let n = v.len();
    let mut j: usize = i;
    while j < n && is_word(v[j])
        invariant
            i <= j <= n == v@.len(),
            word_end(v@, i as int) == word_end(v@, j as int),
        decreases n - j,
    {
        j += 1;
    }
    j
}

pub open spec fn export_kw() -> Seq<char> {
    seq!['e', 'x', 'p', 'o', 'r', 't']
}

pub open spec fn declare_kw() -> Seq<char> {
    seq!['d', 'e', 'c', 'l', 'a', 'r', 'e']
}

pub open spec fn interface_kw() -> Seq<char> {
    seq!['i', 'n', 't', 'e', 'r', 'f', 'a', 'c', 'e']
}

pub open spec fn type_kw() -> Seq<char> {
    seq!['t', 'y', 'p', 'e']
}

pub open spec fn function_kw() -> Seq<char> {
    seq!['f', 'u', 'n', 'c', 't', 'i', 'o', 'n']
}

pub open spec fn class_kw() -> Seq<char> {
    seq!['c', 'l', 'a', 's', 's']
}

fn kw_export() -> (v: Vec<char>)
    ensures
        v@ == export_kw(),
{
    let mut v: Vec<char> = Vec::new();
    v.push('e');
    v.push('x');
    v.push('p');
    v.push('o');
    v.push('r');
    v.push('t');
    proof {
        assert(v@ =~= export_kw());
    }
    v
}

fn kw_declare() -> (v: Vec<char>)
    ensures
        v@ == declare_kw(),
{
    let mut v: Vec<char> = Vec::new();
    v.push('d');
    v.push('e');
    v.push('c');
    v.push('l');
    v.push('a');
    v.push('r');
    v.push('e');
    proof {
        assert(v@ =~= declare_kw());
    }
    v
}

fn kw_interface() -> (v: Vec<char>)
    ensures
        v@ == interface_kw(),
{
    let mut v: Vec<char> = Vec::new();
    v.push('i');
    v.push('n');
    v.push('t');
    v.push('e');
    v.push('r');
    v.push('f');
    v.push('a');
    v.push('c');
    v.push('e');
    proof {
        assert(v@ =~= interface_kw());
    }
    v
}

fn kw_type() -> (v: Vec<char>)
    ensures
        v@ == type_kw(),
{
    let mut v: Vec<char> = Vec::new();
    v.push('t');
    v.push('y');
    v.push('p');
    v.push('e');
    proof {
        assert(v@ =~= type_kw());
    }
    v
}

fn kw_function() -> (v: Vec<char>)
    ensures
        v@ == function_kw(),
{
    let mut v: Vec<char> = Vec::new();
    v.push('f');
    v.push('u');
    v.push('n');
    v.push('c');
    v.push('t');
    v.push('i');
    v.push('o');
    v.push('n');
    proof {
        assert(v@ =~= function_kw());
    }
    v
}

fn kw_class() -> (v: Vec<char>)
    ensures
        v@ == class_kw(),
{
    let mut v: Vec<char> = Vec::new();
    v.push('c');
    v.push('l');
    v.push('a');
    v.push('s');
    v.push('s');
    proof {
        assert(v@ =~= class_kw());
    }
    v
}

/// Position `i` begins a line of `s`.
pub open spec fn is_line_start(s: Seq<char>, i: int) -> bool {
    i == 0 || (0 < i < s.len() && s[i - 1] == '\n')
}

/// A match of `export [declare] KEYWORD NAME`, holding the name's bounds
/// and the end of the matched text.
pub struct DeclMatch {
    pub name_lo: int,
    pub name_hi: int,
    pub end: int,
}

/// Matches `export` whitespace (optionally `declare` whitespace) `kw`
/// whitespace, then a non-empty word: the declaration's name.
pub open spec fn match_export_decl(s: Seq<char>, i: int, kw: Seq<char>, allow_declare: bool)
    -> Option<DeclMatch> {
    if 0 <= i && match_at(s, export_kw(), i) {
        let j = i + 6;
        if j < s.len() && is_space_char(s[j]) {
            let a0 = skip_ws(s, j);
            let a = if allow_declare && match_at(s, declare_kw(), a0) && a0 + 7 < s.len()
                && is_space_char(s[a0 + 7]) {
                skip_ws(s, a0 + 7)
            } else {
                a0
            };
            if match_at(s, kw, a) {
                let b0 = a + kw.len();
                if b0 < s.len() && is_space_char(s[b0]) {
                    let b = skip_ws(s, b0);
                    let e = word_end(s, b);
                    if e > b {
                        Some(DeclMatch { name_lo: b, name_hi: e, end: e })
                    } else {
                        None
                    }
                } else {
                    None
                }
            } else {
                None
            }
        } else {
            None
        }
    } else {
        None
    }
}

pub proof fn lemma_match_export_decl(s: Seq<char>, i: int, kw: Seq<char>, allow_declare: bool)
    requires
        0 <= i <= s.len(),
    ensures
        match match_export_decl(s, i, kw, allow_declare) {
            Some(m) => i < m.name_lo < m.name_hi == m.end && m.end <= s.len(),
            None => true,
        },
{
    if 0 <= i && match_at(s, export_kw(), i) {
        let j = i + 6;
        if j < s.len() && is_space_char(s[j]) {
            lemma_skip_ws(s, j);
            let a0 = skip_ws(s, j);
            if allow_declare && match_at(s, declare_kw(), a0) && a0 + 7 < s.len() && is_space_char(
                s[a0 + 7],
            ) {
                lemma_skip_ws(s, a0 + 7);
            }
            let a = if allow_declare && match_at(s, declare_kw(), a0) && a0 + 7 < s.len()
                && is_space_char(s[a0 + 7]) {
                skip_ws(s, a0 + 7)
            } else {
                a0
            };
            if match_at(s, kw, a) {
                let b0 = a + kw.len();
                if b0 < s.len() && is_space_char(s[b0]) {
                    lemma_skip_ws(s, b0);
                    lemma_word_end(s, skip_ws(s, b0));
                }
            }
        }
    }
}

/// Executable counterpart of [`match_export_decl`], returning
/// `(name_lo, name_hi, end)`.
pub fn match_export_decl_exec(v: &Vec<char>, i: usize, kw: &Vec<char>, allow_declare: bool) -> (r:
    Option<(usize, usize, usize)>)
    requires
        i <= v@.len(),
    ensures
        match r {
            Some(t) => {
                &&& match_export_decl(v@, i as int, kw@, allow_declare) == Some(
                    (DeclMatch { name_lo: t.0 as int, name_hi: t.1 as int, end: t.2 as int }),
                )
                &&& i < t.0 < t.1 == t.2 <= v@.len()
            },
            None => match_export_decl(v@, i as int, kw@, allow_declare) is None,
        },
{
    proof {
        lemma_match_export_decl(v@, i as int, kw@, allow_declare);
    }
    let n = v.len();
    let ex = kw_export();
    if n - i < 6 || !crate::strutil::matches_at(v, &ex, i) {
        return None;
    }
    let j = i + 6;
    if !(j < n && is_space(v[j])) {
        return None;
    }
    let a0 = skip_ws_exec(v, j);
    let de = kw_declare();
    let a: usize = if allow_declare && n - a0 >= 7 && crate::strutil::matches_at(v, &de, a0) && n
        - a0 > 7 && is_space(v[a0 + 7]) {
        skip_ws_exec(v, a0 + 7)
    } else {
        proof {
            if allow_declare && match_at(v@, declare_kw(), a0 as int) {
                assert(a0 + 7 <= v@.len());
            }
        }
        a0
    };
    if n - a < kw.len() || !crate::strutil::matches_at(v, kw, a) {
        return None;
    }
    let b0 = a + kw.len();
    if !(b0 < n && is_space(v[b0])) {
        return None;
    }
    let b = skip_ws_exec(v, b0);
    let e = word_end_exec(v, b);
    if e > b {
        Some((b, e, e))
    } else {
        None
    }
}

/// The names of all `export [declare] KEYWORD NAME` declarations found at
/// line starts, scanning left to right and resuming after each match.
pub open spec fn scan_decl_names(s: Seq<char>, i: int, kw: Seq<char>, allow_declare: bool) -> Seq<
    Seq<char>,
>
    decreases s.len() - i + 1,
{
    if i < 0 || i >= s.len() {
        Seq::empty()
    } else if is_line_start(s, i) {
        match match_export_decl(s, i, kw, allow_declare) {
            Some(m) => if i < m.end <= s.len() && 0 <= m.name_lo < m.name_hi <= s.len() {
                seq![s.subrange(m.name_lo, m.name_hi)] + scan_decl_names(s, m.end, kw, allow_declare)
            } else {
                scan_decl_names(s, i + 1, kw, allow_declare)
            },
            None => scan_decl_names(s, i + 1, kw, allow_declare),
        }
    } else {
        scan_decl_names(s, i + 1, kw, allow_declare)
    }
}

/// Collects the names of line-start `export [declare] KEYWORD NAME`
/// declarations, appending one name per match.
fn collect_decl_names(v: &Vec<char>, kw: &Vec<char>, allow_declare: bool) -> (r: Vec<Vec<char>>)
    ensures
        r@.len() == scan_decl_names(v@, 0, kw@, allow_declare).len(),
        forall|k: int|
            0 <= k < r@.len() ==> r@[k]@ == scan_decl_names(v@, 0, kw@, allow_declare)[k],
{
    let n = v.len();
    let mut out: Vec<Vec<char>> = Vec::new();
    let ghost mut emitted: Seq<Seq<char>> = Seq::empty();
    let mut pos: usize = 0;
    while pos < n
        invariant
            pos <= n == v@.len(),
            emitted.len() == out@.len(),
            forall|k: int| 0 <= k < emitted.len() ==> out@[k]@ == emitted[k],
            scan_decl_names(v@, 0, kw@, allow_declare) == emitted + scan_decl_names(
                v@,
                pos as int,
                kw@,
                allow_declare,
            ),
        decreases n - pos,
    {
        let line_start = pos == 0 || v[pos - 1] == '\n';
        if line_start {
            match match_export_decl_exec(v, pos, kw, allow_declare) {
                Some(m) => {
                    let name = subvec(v, m.0, m.1);
                    proof {
                        emitted = emitted.push(name@);
                        assert(scan_decl_names(v@, pos as int, kw@, allow_declare) == seq![name@]
                            + scan_decl_names(v@, m.2 as int, kw@, allow_declare));
                        assert(emitted + scan_decl_names(v@, m.2 as int, kw@, allow_declare)
                            =~= (emitted.drop_last()) + (seq![name@] + scan_decl_names(
                            v@,
                            m.2 as int,
                            kw@,
                            allow_declare,
                        )));
                    }
                    out.push(name);
                    pos = m.2;
                },
                None => {
                    pos += 1;
                },
            }
        } else {
            proof {
                assert(!is_line_start(v@, pos as int));
            }
            pos += 1;
        }
    }
    proof {
        assert(scan_decl_names(v@, n as int, kw@, allow_declare) =~= Seq::<Seq<char>>::empty());
        assert(emitted + scan_decl_names(v@, n as int, kw@, allow_declare) =~= emitted);
    }
    out
}

/// A matched `export [declare] function NAME(PARAMS)`.
pub struct FnMatch {
    pub name_lo: int,
    pub name_hi: int,
    pub params_lo: int,
    pub params_hi: int,
    pub end: int,
}

/// Matches a function declaration: the declaration prefix, then optional
/// whitespace, `(` and the parameter text up to the first `)`.
pub open spec fn match_export_function(s: Seq<char>, i: int) -> Option<FnMatch> {
    match match_export_decl(s, i, function_kw(), true) {
        Some(d) => {
            let p = skip_ws(s, d.name_hi);
            if p < s.len() && s[p] == '(' {
                match find_char_from(s, ')', p + 1) {
                    Some(q) => Some(
                        FnMatch {
                            name_lo: d.name_lo,
                            name_hi: d.name_hi,
                            params_lo: p + 1,
                            params_hi: q,
                            end: q + 1,
                        },
                    ),
                    None => None,
                }
            } else {
                None
            }
        },
        None => None,
    }
}

pub fn match_export_function_exec(v: &Vec<char>, i: usize) -> (r: Option<
    (usize, usize, usize, usize, usize),
>)
    requires
        i <= v@.len(),
    ensures
        match r {
            Some(t) => {
                &&& match_export_function(v@, i as int) == Some(
                    (FnMatch {
                        name_lo: t.0 as int,
                        name_hi: t.1 as int,
                        params_lo: t.2 as int,
                        params_hi: t.3 as int,
                        end: t.4 as int,
                    }),
                )
                &&& i < t.0 < t.1 <= v@.len()
                &&& t.1 < t.2 <= t.3 < t.4 <= v@.len()
            },
            None => match_export_function(v@, i as int) is None,
        },
{
    let fun = kw_function();
    match match_export_decl_exec(v, i, &fun, true) {
        Some(d) => {
            let p = skip_ws_exec(v, d.1);
            let n = v.len();
            if p < n && v[p] == '(' {
                match crate::strutil::find_char(v, ')', p + 1) {
                    Some(q) => {
                        proof {
                            crate::strutil::lemma_find_char_from(v@, ')', p + 1 as int);
                        }
                        Some((d.0, d.1, p + 1, q, q + 1))
                    },
                    None => None,
                }
            } else {
                None
            }
        },
        None => None,
    }
}

/// One recognized function declaration: its name and raw parameter text.
pub struct FnDecl {
    pub name: Seq<char>,
    pub params: Seq<char>,
}

/// All function declarations found at line starts.
pub open spec fn scan_fn_decls(s: Seq<char>, i: int) -> Seq<FnDecl>
    decreases s.len() - i + 1,
{
    if i < 0 || i >= s.len() {
        Seq::empty()
    } else if is_line_start(s, i) {
        match match_export_function(s, i) {
            Some(m) => if i < m.end <= s.len() && 0 <= m.name_lo < m.name_hi <= s.len() && 0
                <= m.params_lo <= m.params_hi <= s.len() {
                seq![
                    (FnDecl {
                        name: s.subrange(m.name_lo, m.name_hi),
                        params: s.subrange(m.params_lo, m.params_hi),
                    }),
                ] + scan_fn_decls(s, m.end)
            } else {
                scan_fn_decls(s, i + 1)
            },
            None => scan_fn_decls(s, i + 1),
        }
    } else {
        scan_fn_decls(s, i + 1)
    }
}

/// Collects `(name, params)` for every function declaration.
fn collect_fn_decls(v: &Vec<char>) -> (r: Vec<(Vec<char>, Vec<char>)>)
    ensures
        r@.len() == scan_fn_decls(v@, 0).len(),
        forall|k: int|
            0 <= k < r@.len() ==> r@[k].0@ == scan_fn_decls(v@, 0)[k].name && r@[k].1@
                == scan_fn_decls(v@, 0)[k].params,
{
    let n = v.len();
    let mut out: Vec<(Vec<char>, Vec<char>)> = Vec::new();
    let ghost mut emitted: Seq<FnDecl> = Seq::empty();
    let mut pos: usize = 0;
    while pos < n
        invariant
            pos <= n == v@.len(),
            emitted.len() == out@.len(),
            forall|k: int|
                0 <= k < emitted.len() ==> out@[k].0@ == emitted[k].name && out@[k].1@
                    == emitted[k].params,
            scan_fn_decls(v@, 0) == emitted + scan_fn_decls(v@, pos as int),
        decreases n - pos,
    {
        let line_start = pos == 0 || v[pos - 1] == '\n';
        if line_start {
            match match_export_function_exec(v, pos) {
                Some(m) => {
                    let name = subvec(v, m.0, m.1);
                    let params = subvec(v, m.2, m.3);
                    proof {
                        let d = FnDecl { name: name@, params: params@ };
                        emitted = emitted.push(d);
                        assert(scan_fn_decls(v@, pos as int) == seq![d] + scan_fn_decls(
                            v@,
                            m.4 as int,
                        ));
                        assert(emitted + scan_fn_decls(v@, m.4 as int) =~= (emitted.drop_last()) + (
                        seq![d] + scan_fn_decls(v@, m.4 as int)));
                    }
                    out.push((name, params));
                    pos = m.4;
                },
                None => {
                    pos += 1;
                },
            }
        } else {
            proof {
                assert(!is_line_start(v@, pos as int));
            }
            pos += 1;
        }
    }
    proof {
        assert(scan_fn_decls(v@, n as int) =~= Seq::<FnDecl>::empty());
        assert(emitted + scan_fn_decls(v@, n as int) =~= emitted);
    }
    out
}

// ---------------------------------------------------------------------
// Export blocks: `export { a, b, c }`.
// ---------------------------------------------------------------------

/// End of the maximal run of non-whitespace characters starting at `i`.
pub open spec fn token_end(s: Seq<char>, i: int) -> int
    recommends
        0 <= i <= s.len(),
    decreases s.len() - i + 1,
{
    if i < 0 || i >= s.len() {
        i
    } else if !is_space_char(s[i]) {
        token_end(s, i + 1)
    } else {
        i
    }
}

pub proof fn lemma_token_end(s: Seq<char>, i: int)
    requires
        0 <= i <= s.len(),
    ensures
        i <= token_end(s, i) <= s.len(),
    decreases s.len() - i + 1,
{
    if i < s.len() && !is_space_char(s[i]) {
        lemma_token_end(s, i + 1);
    }
}

pub fn token_end_exec(v: &Vec<char>, i: usize) -> (r: usize)
    requires
        i <= v@.len(),
    ensures
        r == token_end(v@, i as int),
        i <= r <= v@.len(),
{
    let n = v.len();
    let mut j: usize = i;
    while j < n && !is_space(v[j])
        invariant
            i <= j <= n == v@.len(),
            token_end(v@, i as int) == token_end(v@, j as int),
        decreases n - j,
    {
        j += 1;
    }
    j
}

/// The first whitespace-delimited token of `piece` (possibly empty).
pub open spec fn first_token(piece: Seq<char>) -> Seq<char> {
    let a = skip_ws(piece, 0);
    piece.subrange(a, token_end(piece, a))
}

/// `piece` split at every comma, as with `str::split(',')`: empty pieces
/// are kept, and a trailing comma yields a final empty piece.
pub open spec fn split_commas_from(s: Seq<char>, i: int) -> Seq<Seq<char>>
    decreases s.len() - i + 1,
{
    if i < 0 || i > s.len() {
        Seq::empty()
    } else {
        match find_char_from(s, ',', i) {
            Some(p) => if i <= p < s.len() {
                seq![s.subrange(i, p)] + split_commas_from(s, p + 1)
            } else {
                seq![s.subrange(i, s.len() as int)]
            },
            None => seq![s.subrange(i, s.len() as int)],
        }
    }
}

/// The non-empty first tokens of the pieces, in order.
pub open spec fn pieces_names(pieces: Seq<Seq<char>>) -> Seq<Seq<char>>
    decreases pieces.len(),
{
    if pieces.len() == 0 {
        Seq::empty()
    } else {
        (if first_token(pieces[0]).len() > 0 {
            seq![first_token(pieces[0])]
        } else {
            Seq::empty()
        }) + pieces_names(pieces.drop_first())
    }
}

/// A matched `export { ... }` block: bounds of the interior text and the
/// end of the match.
pub struct BlockMatch {
    pub lo: int,
    pub hi: int,
    pub end: int,
}

/// Matches `export`, optional whitespace, `{`, then a non-empty interior
/// up to the first `}`.
pub open spec fn match_export_block(s: Seq<char>, i: int) -> Option<BlockMatch> {
    if 0 <= i && match_at(s, export_kw(), i) {
        let a = skip_ws(s, i + 6);
        if a < s.len() && s[a] == '{' {
            match find_char_from(s, '}', a + 1) {
                Some(q) => if q > a + 1 {
                    Some(BlockMatch { lo: a + 1, hi: q, end: q + 1 })
                } else {
                    None
                },
                None => None,
            }
        } else {
            None
        }
    } else {
        None
    }
}

pub fn match_export_block_exec(v: &Vec<char>, i: usize) -> (r: Option<(usize, usize, usize)>)
    requires
        i <= v@.len(),
    ensures
        match r {
            Some(t) => {
                &&& match_export_block(v@, i as int) == Some(
                    (BlockMatch { lo: t.0 as int, hi: t.1 as int, end: t.2 as int }),
                )
                &&& i < t.0 < t.1 < t.2 <= v@.len()
            },
            None => match_export_block(v@, i as int) is None,
        },
{
    let n = v.len();
    let ex = kw_export();
    if n - i < 6 || !crate::strutil::matches_at(v, &ex, i) {
        return None;
    }
    let a = skip_ws_exec(v, i + 6);
    if !(a < n && v[a] == '{') {
        return None;
    }
    match crate::strutil::find_char(v, '}', a + 1) {
        Some(q) => {
            proof {
                crate::strutil::lemma_find_char_from(v@, '}', a + 1 as int);
            }
            if q > a + 1 {
                Some((a + 1, q, q + 1))
            } else {
                None
            }
        },
        None => None,
    }
}

/// The names of all export blocks of `s`, in order of appearance.
pub open spec fn blocks_names(s: Seq<char>, i: int) -> Seq<Seq<char>>
    decreases s.len() - i + 1,
{
    if i < 0 || i >= s.len() {
        Seq::empty()
    } else {
        match match_export_block(s, i) {
            Some(m) => if i < m.end <= s.len() && 0 <= m.lo <= m.hi <= s.len() {
                pieces_names(split_commas_from(s.subrange(m.lo, m.hi), 0)) + blocks_names(s, m.end)
            } else {
                blocks_names(s, i + 1)
            },
            None => blocks_names(s, i + 1),
        }
    }
}

/// Appends each name not already present, preserving insertion order.
pub open spec fn add_unique(exports: Seq<Seq<char>>, names: Seq<Seq<char>>) -> Seq<Seq<char>>
    decreases names.len(),
{
    if names.len() == 0 {
        exports
    } else {
        let e2 = if exports.contains(names[0]) {
            exports
        } else {
            exports.push(names[0])
        };
        add_unique(e2, names.drop_first())
    }
}

pub proof fn lemma_add_unique_concat(e: Seq<Seq<char>>, a: Seq<Seq<char>>, b: Seq<Seq<char>>)
    ensures
        add_unique(e, a + b) == add_unique(add_unique(e, a), b),
    decreases a.len(),
{
    if a.len() == 0 {
        assert(a + b =~= b);
    } else {
        assert((a + b)[0] == a[0]);
        assert((a + b).len() > 0);
        assert((a + b).drop_first() =~= a.drop_first() + b);
        let e2 = if e.contains(a[0]) {
            e
        } else {
            e.push(a[0])
        };
        lemma_add_unique_concat(e2, a.drop_first(), b);
    }
}

/// The views of a string sequence.
pub open spec fn views_of(l: Seq<String>) -> Seq<Seq<char>> {
    l.map_values(|x: String| x@)
}

/// Does the list contain a string reading exactly `name`?
fn contains_view(list: &Vec<String>, name: &Vec<char>) -> (r: bool)
    ensures
        r == views_of(list@).contains(name@),
{
    let n = list.len();
    let mut i: usize = 0;
    while i < n
        invariant
            i <= n == list@.len(),
            forall|k: int| 0 <= k < i ==> list@[k]@ != name@,
        decreases n - i,
    {
        if crate::strutil::eq_str(name, list[i].as_str()) {
            proof {
                assert(views_of(list@)[i as int] == name@);
            }
            return true;
        }
        i += 1;
    }
    proof {
        assert forall|k: int| 0 <= k < views_of(list@).len() implies views_of(list@)[k]
            != name@ by {
            assert(views_of(list@)[k] == list@[k]@);
        }
        if views_of(list@).contains(name@) {
            let k = choose|k: int|
                0 <= k < views_of(list@).len() && views_of(list@)[k] == name@;
            assert(false);
        }
    }
    false
}

/// Splits `v` at every comma into pieces, as `str::split(',')` does.
fn split_commas_chars(v: &Vec<char>) -> (r: Vec<Vec<char>>)
    ensures
        r@.len() == split_commas_from(v@, 0).len(),
        forall|k: int| 0 <= k < r@.len() ==> r@[k]@ == split_commas_from(v@, 0)[k],
{
    let n = v.len();
    let mut out: Vec<Vec<char>> = Vec::new();
    let ghost mut emitted: Seq<Seq<char>> = Seq::empty();
    let mut start: usize = 0;
    let mut finished = false;
    while !finished
        invariant
            start <= n == v@.len(),
            emitted.len() == out@.len(),
            forall|k: int| 0 <= k < emitted.len() ==> out@[k]@ == emitted[k],
            split_commas_from(v@, 0) == emitted + (if finished {
                Seq::<Seq<char>>::empty()
            } else {
                split_commas_from(v@, start as int)
            }),
        decreases n - start + (if finished {
            0int
        } else {
            1int
        }),
    {
        match crate::strutil::find_char(v, ',', start) {
            Some(p) => {
                proof {
                    crate::strutil::lemma_find_char_from(v@, ',', start as int);
                }
                let piece = subvec(v, start, p);
                proof {
                    emitted = emitted.push(piece@);
                    assert(split_commas_from(v@, start as int) == seq![piece@]
                        + split_commas_from(v@, p + 1 as int));
                    assert(emitted + split_commas_from(v@, p + 1 as int) =~= (emitted.drop_last())
                        + (seq![piece@] + split_commas_from(v@, p + 1 as int)));
                }
                out.push(piece);
                start = p + 1;
            },
            None => {
                let piece = subvec(v, start, n);
                proof {
                    emitted = emitted.push(piece@);
                    assert(split_commas_from(v@, start as int) == seq![piece@]);
                    assert(emitted + Seq::<Seq<char>>::empty() =~= (emitted.drop_last())
                        + seq![piece@]);
                }
                out.push(piece);
                finished = true;
            },
        }
    }
    out
}

// ---------------------------------------------------------------------
// Assembly of a declaration file's module record.
// ---------------------------------------------------------------------

pub open spec fn interface_prefix() -> Seq<char> {
    seq!['i', 'n', 't', 'e', 'r', 'f', 'a', 'c', 'e', ' ']
}

pub open spec fn type_prefix() -> Seq<char> {
    seq!['t', 'y', 'p', 'e', ' ']
}

pub open spec fn decl_interfaces(s: Seq<char>) -> Seq<Seq<char>> {
    scan_decl_names(s, 0, interface_kw(), false)
}

pub open spec fn decl_types(s: Seq<char>) -> Seq<Seq<char>> {
    scan_decl_names(s, 0, type_kw(), false)
}

pub open spec fn decl_classes(s: Seq<char>) -> Seq<Seq<char>> {
    scan_decl_names(s, 0, class_kw(), true)
}

pub open spec fn decl_functions(s: Seq<char>) -> Seq<FnDecl> {
    scan_fn_decls(s, 0)
}

pub open spec fn decl_block_names(s: Seq<char>) -> Seq<Seq<char>> {
    blocks_names(s, 0)
}

pub open spec fn fn_names(ds: Seq<FnDecl>) -> Seq<Seq<char>> {
    ds.map_values(|d: FnDecl| d.name)
}

/// The type record produced for `KEYWORD name`: kind and a definition of
/// the form `"KEYWORD name"`, no documentation.
pub open spec fn type_entry_matches(
    t: TypeInfo,
    name: Seq<char>,
    kind: TypeKind,
    prefix: Seq<char>,
) -> bool {
    &&& t.name@ == name
    &&& t.kind == kind
    &&& t.definition@ == prefix + name
    &&& t.doc_comment is None
}

/// The function record produced for a declaration-file function: its
/// parameter text split and classified by the lexical parameter parser,
/// no return type, no markers.
pub open spec fn ts_fn_entry_matches(f: FunctionInfo, d: FnDecl) -> bool {
    &&& f.name@ == d.name
    &&& f.parameters@.len() == spec_split_params(d.params).len()
    &&& forall|j: int|
        0 <= j < f.parameters@.len() ==> param_matches(
            f.parameters@[j],
            spec_parse_parameter(spec_split_params(d.params)[j]),
        )
    &&& f.return_type is None
    &&& !f.is_async
    &&& !f.is_generator
    &&& f.doc_comment is None
}

/// The class record produced for a declaration-file class: bare, with
/// every member collection empty.
pub open spec fn ts_class_entry_matches(c: ClassInfo, name: Seq<char>) -> bool {
    &&& c.name@ == name
    &&& c.constructor is None
    &&& c.methods@.len() == 0
    &&& c.properties@.len() == 0
    &&& c.extends is None
    &&& c.implements@.len() == 0
    &&& c.doc_comment is None
}

/// Splits and parses a parameter list through the lexical parameter
/// parser.
fn ts_param_list(v: &Vec<char>) -> (r: Vec<Parameter>)
    ensures
        r@.len() == spec_split_params(v@).len(),
        forall|j: int|
            0 <= j < r@.len() ==> param_matches(
                r@[j],
                spec_parse_parameter(spec_split_params(v@)[j]),
            ),
{
    let segs = split_params_chars(v);
    let m = segs.len();
    let mut r: Vec<Parameter> = Vec::new();
    let mut j: usize = 0;
    while j < m
        invariant
            j <= m == segs@.len(),
            segs@.len() == spec_split_params(v@).len(),
            forall|k: int| 0 <= k < m ==> segs@[k]@ == spec_split_params(v@)[k],
            r@.len() == j,
            forall|k: int|
                0 <= k < j ==> param_matches(
                    r@[k],
                    spec_parse_parameter(spec_split_params(v@)[k]),
                ),
        decreases m - j,
    {
        r.push(parse_parameter_chars(&segs[j]));
        j += 1;
    }
    r
}

fn extract_interfaces(v: &Vec<char>, mi: &mut NodeModuleInfo)
    ensures
        final(mi).types@.len() == old(mi).types@.len() + decl_interfaces(v@).len(),
        forall|k: int| 0 <= k < old(mi).types@.len() ==> final(mi).types@[k] == old(mi).types@[k],
        forall|k: int|
            0 <= k < decl_interfaces(v@).len() ==> type_entry_matches(
                final(mi).types@[old(mi).types@.len() + k],
                decl_interfaces(v@)[k],
                TypeKind::Interface,
                interface_prefix(),
            ),
        final(mi).exports@.len() == old(mi).exports@.len() + decl_interfaces(v@).len(),
        forall|k: int|
            0 <= k < old(mi).exports@.len() ==> final(mi).exports@[k] == old(mi).exports@[k],
        forall|k: int|
            0 <= k < decl_interfaces(v@).len() ==> final(mi).exports@[old(mi).exports@.len() + k]@
                == decl_interfaces(v@)[k],
        final(mi).name == old(mi).name,
        final(mi).version == old(mi).version,
        final(mi).main == old(mi).main,
        final(mi).imports == old(mi).imports,
        final(mi).functions == old(mi).functions,
        final(mi).classes == old(mi).classes,
        final(mi).constants == old(mi).constants,
        final(mi).submodules == old(mi).submodules,
{
    let kw = kw_interface();
    let names = collect_decl_names(v, &kw, false);
    let n = names.len();
    let mut k: usize = 0;
    while k < n
        invariant
            k <= n == names@.len(),
            names@.len() == decl_interfaces(v@).len(),
            forall|j: int| 0 <= j < n ==> names@[j]@ == decl_interfaces(v@)[j],
            mi.types@.len() == old(mi).types@.len() + k,
            forall|j: int| 0 <= j < old(mi).types@.len() ==> mi.types@[j] == old(mi).types@[j],
            forall|j: int|
                0 <= j < k ==> type_entry_matches(
                    mi.types@[old(mi).types@.len() + j],
                    decl_interfaces(v@)[j],
                    TypeKind::Interface,
                    interface_prefix(),
                ),
            mi.exports@.len() == old(mi).exports@.len() + k,
            forall|j: int|
                0 <= j < old(mi).exports@.len() ==> mi.exports@[j] == old(mi).exports@[j],
            forall|j: int|
                0 <= j < k ==> mi.exports@[old(mi).exports@.len() + j]@ == decl_interfaces(v@)[j],
            mi.name == old(mi).name,
            mi.version == old(mi).version,
            mi.main == old(mi).main,
            mi.imports == old(mi).imports,
            mi.functions == old(mi).functions,
            mi.classes == old(mi).classes,
            mi.constants == old(mi).constants,
            mi.submodules == old(mi).submodules,
        decreases n - k,
    {
        let mut def = kw_interface();
        def.push(' ');
        push_all(&mut def, &names[k]);
        proof {
            assert(def@ =~= interface_prefix() + names@[k as int]@);
        }
        let t = TypeInfo {
            name: to_string_of(&names[k]),
            kind: TypeKind::Interface,
            definition: to_string_of(&def),
            doc_comment: None,
        };
        mi.add_type(t);
        mi.exports.push(to_string_of(&names[k]));
        k += 1;
    }
}

fn extract_type_aliases(v: &Vec<char>, mi: &mut NodeModuleInfo)
    ensures
        final(mi).types@.len() == old(mi).types@.len() + decl_types(v@).len(),
        forall|k: int| 0 <= k < old(mi).types@.len() ==> final(mi).types@[k] == old(mi).types@[k],
        forall|k: int|
            0 <= k < decl_types(v@).len() ==> type_entry_matches(
                final(mi).types@[old(mi).types@.len() + k],
                decl_types(v@)[k],
                TypeKind::Type,
                type_prefix(),
            ),
        final(mi).exports@.len() == old(mi).exports@.len() + decl_types(v@).len(),
        forall|k: int|
            0 <= k < old(mi).exports@.len() ==> final(mi).exports@[k] == old(mi).exports@[k],
        forall|k: int|
            0 <= k < decl_types(v@).len() ==> final(mi).exports@[old(mi).exports@.len() + k]@
                == decl_types(v@)[k],
        final(mi).name == old(mi).name,
        final(mi).version == old(mi).version,
        final(mi).main == old(mi).main,
        final(mi).imports == old(mi).imports,
        final(mi).functions == old(mi).functions,
        final(mi).classes == old(mi).classes,
        final(mi).constants == old(mi).constants,
        final(mi).submodules == old(mi).submodules,
{
    let kw = kw_type();
    let names = collect_decl_names(v, &kw, false);
    let n = names.len();
    let mut k: usize = 0;
    while k < n
        invariant
            k <= n == names@.len(),
            names@.len() == decl_types(v@).len(),
            forall|j: int| 0 <= j < n ==> names@[j]@ == decl_types(v@)[j],
            mi.types@.len() == old(mi).types@.len() + k,
            forall|j: int| 0 <= j < old(mi).types@.len() ==> mi.types@[j] == old(mi).types@[j],
            forall|j: int|
                0 <= j < k ==> type_entry_matches(
                    mi.types@[old(mi).types@.len() + j],
                    decl_types(v@)[j],
                    TypeKind::Type,
                    type_prefix(),
                ),
            mi.exports@.len() == old(mi).exports@.len() + k,
            forall|j: int|
                0 <= j < old(mi).exports@.len() ==> mi.exports@[j] == old(mi).exports@[j],
            forall|j: int|
                0 <= j < k ==> mi.exports@[old(mi).exports@.len() + j]@ == decl_types(v@)[j],
            mi.name == old(mi).name,
            mi.version == old(mi).version,
            mi.main == old(mi).main,
            mi.imports == old(mi).imports,
            mi.functions == old(mi).functions,
            mi.classes == old(mi).classes,
            mi.constants == old(mi).constants,
            mi.submodules == old(mi).submodules,
        decreases n - k,
    {
        let mut def = kw_type();
        def.push(' ');
        push_all(&mut def, &names[k]);
        proof {
            assert(def@ =~= type_prefix() + names@[k as int]@);
        }
        let t = TypeInfo {
            name: to_string_of(&names[k]),
            kind: TypeKind::Type,
            definition: to_string_of(&def),
            doc_comment: None,
        };
        mi.add_type(t);
        mi.exports.push(to_string_of(&names[k]));
        k += 1;
    }
}

fn extract_function_declarations(v: &Vec<char>, mi: &mut NodeModuleInfo)
    ensures
        final(mi).functions@.len() == old(mi).functions@.len() + decl_functions(v@).len(),
        forall|k: int|
            0 <= k < old(mi).functions@.len() ==> final(mi).functions@[k] == old(
                mi,
            ).functions@[k],
        forall|k: int|
            0 <= k < decl_functions(v@).len() ==> ts_fn_entry_matches(
                final(mi).functions@[old(mi).functions@.len() + k],
                decl_functions(v@)[k],
            ),
        final(mi).exports@.len() == old(mi).exports@.len() + decl_functions(v@).len(),
        forall|k: int|
            0 <= k < old(mi).exports@.len() ==> final(mi).exports@[k] == old(mi).exports@[k],
        forall|k: int|
            0 <= k < decl_functions(v@).len() ==> final(mi).exports@[old(mi).exports@.len() + k]@
                == decl_functions(v@)[k].name,
        final(mi).name == old(mi).name,
        final(mi).version == old(mi).version,
        final(mi).main == old(mi).main,
        final(mi).imports == old(mi).imports,
        final(mi).types == old(mi).types,
        final(mi).classes == old(mi).classes,
        final(mi).constants == old(mi).constants,
        final(mi).submodules == old(mi).submodules,
{
    let decls = collect_fn_decls(v);
    let n = decls.len();
    let mut k: usize = 0;
    while k < n
        invariant
            k <= n == decls@.len(),
            decls@.len() == decl_functions(v@).len(),
            forall|j: int|
                0 <= j < n ==> decls@[j].0@ == decl_functions(v@)[j].name && decls@[j].1@
                    == decl_functions(v@)[j].params,
            mi.functions@.len() == old(mi).functions@.len() + k,
            forall|j: int|
                0 <= j < old(mi).functions@.len() ==> mi.functions@[j] == old(mi).functions@[j],
            forall|j: int|
                0 <= j < k ==> ts_fn_entry_matches(
                    mi.functions@[old(mi).functions@.len() + j],
                    decl_functions(v@)[j],
                ),
            mi.exports@.len() == old(mi).exports@.len() + k,
            forall|j: int|
                0 <= j < old(mi).exports@.len() ==> mi.exports@[j] == old(mi).exports@[j],
            forall|j: int|
                0 <= j < k ==> mi.exports@[old(mi).exports@.len() + j]@ == decl_functions(
                    v@,
                )[j].name,
            mi.name == old(mi).name,
            mi.version == old(mi).version,
            mi.main == old(mi).main,
            mi.imports == old(mi).imports,
            mi.types == old(mi).types,
            mi.classes == old(mi).classes,
            mi.constants == old(mi).constants,
            mi.submodules == old(mi).submodules,
        decreases n - k,
    {
        let parameters = ts_param_list(&decls[k].1);
        let f = FunctionInfo {
            name: to_string_of(&decls[k].0),
            parameters,
            return_type: None,
            is_async: false,
            is_generator: false,
            doc_comment: None,
        };
        mi.add_function(f);
        mi.exports.push(to_string_of(&decls[k].0));
        k += 1;
    }
}

fn extract_class_declarations(v: &Vec<char>, mi: &mut NodeModuleInfo)
    ensures
        final(mi).classes@.len() == old(mi).classes@.len() + decl_classes(v@).len(),
        forall|k: int|
            0 <= k < old(mi).classes@.len() ==> final(mi).classes@[k] == old(mi).classes@[k],
        forall|k: int|
            0 <= k < decl_classes(v@).len() ==> ts_class_entry_matches(
                final(mi).classes@[old(mi).classes@.len() + k],
                decl_classes(v@)[k],
            ),
        final(mi).exports@.len() == old(mi).exports@.len() + decl_classes(v@).len(),
        forall|k: int|
            0 <= k < old(mi).exports@.len() ==> final(mi).exports@[k] == old(mi).exports@[k],
        forall|k: int|
            0 <= k < decl_classes(v@).len() ==> final(mi).exports@[old(mi).exports@.len() + k]@
                == decl_classes(v@)[k],
        final(mi).name == old(mi).name,
        final(mi).version == old(mi).version,
        final(mi).main == old(mi).main,
        final(mi).imports == old(mi).imports,
        final(mi).functions == old(mi).functions,
        final(mi).types == old(mi).types,
        final(mi).constants == old(mi).constants,
        final(mi).submodules == old(mi).submodules,
{
    let kw = kw_class();
    let names = collect_decl_names(v, &kw, true);
    let n = names.len();
    let mut k: usize = 0;
    while k < n
        invariant
            k <= n == names@.len(),
            names@.len() == decl_classes(v@).len(),
            forall|j: int| 0 <= j < n ==> names@[j]@ == decl_classes(v@)[j],
            mi.classes@.len() == old(mi).classes@.len() + k,
            forall|j: int| 0 <= j < old(mi).classes@.len() ==> mi.classes@[j] == old(mi).classes@[j],
            forall|j: int|
                0 <= j < k ==> ts_class_entry_matches(
                    mi.classes@[old(mi).classes@.len() + j],
                    decl_classes(v@)[j],
                ),
            mi.exports@.len() == old(mi).exports@.len() + k,
            forall|j: int|
                0 <= j < old(mi).exports@.len() ==> mi.exports@[j] == old(mi).exports@[j],
            forall|j: int|
                0 <= j < k ==> mi.exports@[old(mi).exports@.len() + j]@ == decl_classes(v@)[j],
            mi.name == old(mi).name,
            mi.version == old(mi).version,
            mi.main == old(mi).main,
            mi.imports == old(mi).imports,
            mi.functions == old(mi).functions,
            mi.types == old(mi).types,
            mi.constants == old(mi).constants,
            mi.submodules == old(mi).submodules,
        decreases n - k,
    {
        let c = ClassInfo {
            name: to_string_of(&names[k]),
            constructor: None,
            methods: Vec::new(),
            properties: Vec::new(),
            extends: None,
            implements: Vec::new(),
            doc_comment: None,
        };
        proof {
            assert(c.methods@ =~= Seq::<FunctionInfo>::empty());
            assert(c.properties@ =~= Seq::<crate::module_info::PropertyInfo>::empty());
            assert(c.implements@ =~= Seq::<String>::empty());
        }
        mi.add_class(c);
        mi.exports.push(to_string_of(&names[k]));
        k += 1;
    }
}

fn extract_exports(v: &Vec<char>, mi: &mut NodeModuleInfo)
    ensures
        views_of(final(mi).exports@) == add_unique(views_of(old(mi).exports@), decl_block_names(v@)),
        final(mi).name == old(mi).name,
        final(mi).version == old(mi).version,
        final(mi).main == old(mi).main,
        final(mi).imports == old(mi).imports,
        final(mi).functions == old(mi).functions,
        final(mi).classes == old(mi).classes,
        final(mi).types == old(mi).types,
        final(mi).constants == old(mi).constants,
        final(mi).submodules == old(mi).submodules,
{
    let n = v.len();
    let ghost mut names_done: Seq<Seq<char>> = Seq::empty();
    let mut pos: usize = 0;
    proof {
        assert(names_done + decl_block_names(v@) =~= decl_block_names(v@));
    }
    while pos < n
        invariant
            pos <= n == v@.len(),
            decl_block_names(v@) == names_done + blocks_names(v@, pos as int),
            views_of(mi.exports@) == add_unique(views_of(old(mi).exports@), names_done),
            mi.name == old(mi).name,
            mi.version == old(mi).version,
            mi.main == old(mi).main,
            mi.imports == old(mi).imports,
            mi.functions == old(mi).functions,
            mi.classes == old(mi).classes,
            mi.types == old(mi).types,
            mi.constants == old(mi).constants,
            mi.submodules == old(mi).submodules,
        decreases n - pos,
    {
        match match_export_block_exec(v, pos) {
            Some(b) => {
                let interior = subvec(v, b.0, b.1);
                let ghost block = pieces_names(split_commas_from(interior@, 0));
                proof {
                    assert(blocks_names(v@, pos as int) == block + blocks_names(v@, b.2 as int));
                }
                let pieces = split_commas_chars(&interior);
                let m = pieces.len();
                let mut j: usize = 0;
                let ghost mut done_block: Seq<Seq<char>> = Seq::empty();
                proof {
                    assert(split_commas_from(interior@, 0).skip(0) =~= split_commas_from(
                        interior@,
                        0,
                    ));
                    assert(done_block + pieces_names(split_commas_from(interior@, 0).skip(0))
                        =~= block);
                }
                while j < m
                    invariant
                        j <= m == pieces@.len(),
                        pieces@.len() == split_commas_from(interior@, 0).len(),
                        forall|k: int|
                            0 <= k < m ==> pieces@[k]@ == split_commas_from(interior@, 0)[k],
                        block == done_block + pieces_names(
                            split_commas_from(interior@, 0).skip(j as int),
                        ),
                        views_of(mi.exports@) == add_unique(
                            views_of(old(mi).exports@),
                            names_done + done_block,
                        ),
                        mi.name == old(mi).name,
                        mi.version == old(mi).version,
                        mi.main == old(mi).main,
                        mi.imports == old(mi).imports,
                        mi.functions == old(mi).functions,
                        mi.classes == old(mi).classes,
                        mi.types == old(mi).types,
                        mi.constants == old(mi).constants,
                        mi.submodules == old(mi).submodules,
                    decreases m - j,
                {
                    let piece = &pieces[j];
                    let ghost rem = split_commas_from(interior@, 0).skip(j as int);
                    proof {
                        assert(rem[0] == split_commas_from(interior@, 0)[j as int]);
                        assert(rem.drop_first() =~= split_commas_from(interior@, 0).skip(
                            j + 1 as int,
                        ));
                        assert(pieces_names(rem) == (if first_token(rem[0]).len() > 0 {
                            seq![first_token(rem[0])]
                        } else {
                            Seq::<Seq<char>>::empty()
                        }) + pieces_names(rem.drop_first()));
                    }
                    let a = skip_ws_exec(piece, 0);
                    let e = token_end_exec(piece, a);
                    if e > a {
                        let tok = subvec(piece, a, e);
                        proof {
                            assert(tok@ == first_token(pieces@[j as int]@));
                        }
                        let present = contains_view(&mi.exports, &tok);
                        let ghost prev = mi.exports@;
                        let ghost e2 = if views_of(prev).contains(tok@) {
                            views_of(prev)
                        } else {
                            views_of(prev).push(tok@)
                        };
                        proof {
                            lemma_add_unique_concat(
                                views_of(old(mi).exports@),
                                names_done + done_block,
                                seq![tok@],
                            );
                            assert((names_done + done_block) + seq![tok@] =~= names_done + (
                            done_block + seq![tok@]));
                            assert(seq![tok@].drop_first() =~= Seq::<Seq<char>>::empty());
                            assert(seq![tok@][0] == tok@);
                            assert(add_unique(e2, Seq::<Seq<char>>::empty()) == e2);
                            assert(add_unique(views_of(prev), seq![tok@]) == e2);
                            done_block = done_block + seq![tok@];
                        }
                        if !present {
                            mi.exports.push(to_string_of(&tok));
                            proof {
                                assert(views_of(mi.exports@) =~= views_of(prev).push(tok@));
                            }
                        }
                        proof {
                            assert(views_of(mi.exports@) == add_unique(
                                views_of(old(mi).exports@),
                                names_done + done_block,
                            ));
                        }
                    } else {
                        proof {
                            assert(first_token(rem[0]).len() == 0);
                            assert(done_block + pieces_names(rem.drop_first()) =~= done_block
                                + pieces_names(rem));
                        }
                    }
                    j += 1;
                }
                proof {
                    assert(split_commas_from(interior@, 0).skip(m as int)
                        =~= Seq::<Seq<char>>::empty());
                    assert(block =~= done_block);
                    names_done = names_done + block;
                }
                pos = b.2;
            },
            None => {
                pos += 1;
            },
        }
    }
    proof {
        assert(blocks_names(v@, n as int) =~= Seq::<Seq<char>>::empty());
        assert(names_done + blocks_names(v@, n as int) =~= names_done);
    }
}

/// TypeScript-specific parsing utilities for declaration files.
pub struct TypeScriptParser;

impl TypeScriptParser {
    pub fn new() -> Self {
        TypeScriptParser
    }

    /// Parses declaration-file content into a module record: exported
    /// interfaces and type aliases become type entries, exported function
    /// declarations become function entries with parsed parameter lists,
    /// exported classes become bare class entries, and `export { ... }`
    /// blocks contribute export names not already present.
    pub fn parse_declaration_content(&self, content: &str, module_name: &str) -> (r: Result<
        NodeModuleInfo,
        crate::errors::ParseError,
    >)
        ensures
            r is Ok,
            ({
                let m = r->Ok_0;
                &&& m.name@ == module_name@
                &&& m.version is None
                &&& m.main is None
                &&& m.imports@.len() == 0
                &&& m.constants@.len() == 0
                &&& m.submodules@.len() == 0
                &&& m.types@.len() == decl_interfaces(content@).len() + decl_types(
                    content@,
                ).len()
                &&& forall|k: int|
                    0 <= k < decl_interfaces(content@).len() ==> type_entry_matches(
                        m.types@[k],
                        decl_interfaces(content@)[k],
                        TypeKind::Interface,
                        interface_prefix(),
                    )
                &&& forall|k: int|
                    0 <= k < decl_types(content@).len() ==> type_entry_matches(
                        m.types@[decl_interfaces(content@).len() + k],
                        decl_types(content@)[k],
                        TypeKind::Type,
                        type_prefix(),
                    )
                &&& m.functions@.len() == decl_functions(content@).len()
                &&& forall|k: int|
                    0 <= k < decl_functions(content@).len() ==> ts_fn_entry_matches(
                        m.functions@[k],
                        decl_functions(content@)[k],
                    )
                &&& m.classes@.len() == decl_classes(content@).len()
                &&& forall|k: int|
                    0 <= k < decl_classes(content@).len() ==> ts_class_entry_matches(
                        m.classes@[k],
                        decl_classes(content@)[k],
                    )
                &&& views_of(m.exports@) == add_unique(
                    decl_interfaces(content@) + decl_types(content@) + fn_names(
                        decl_functions(content@),
                    ) + decl_classes(content@),
                    decl_block_names(content@),
                )
            }),
    {
        let v = chars_of(content);
        let name = crate::strutil::chars_of(module_name);
        let mut mi = NodeModuleInfo::new(to_string_of(&name));
        extract_interfaces(&v, &mut mi);
        extract_type_aliases(&v, &mut mi);
        extract_function_declarations(&v, &mut mi);
        extract_class_declarations(&v, &mut mi);
        proof {
            let base = decl_interfaces(v@) + decl_types(v@) + fn_names(decl_functions(v@))
                + decl_classes(v@);
            assert(views_of(mi.exports@) =~= base) by {
                assert(views_of(mi.exports@).len() == base.len());
                assert forall|k: int| 0 <= k < base.len() implies views_of(mi.exports@)[k]
                    == base[k] by {
                    assert(views_of(mi.exports@)[k] == mi.exports@[k]@);
                    let ni = decl_interfaces(v@).len();
                    let nt = decl_types(v@).len();
                    let nf = decl_functions(v@).len();
                    if k < ni {
                        assert(base[k] == decl_interfaces(v@)[k]);
                    } else if k < ni + nt {
                        assert(base[k] == decl_types(v@)[k - ni]);
                    } else if k < ni + nt + nf {
                        assert(base[k] == fn_names(decl_functions(v@))[k - ni - nt]);
                        assert(fn_names(decl_functions(v@))[k - ni - nt] == decl_functions(
                            v@,
                        )[k - ni - nt].name);
                    } else {
                        assert(base[k] == decl_classes(v@)[k - ni - nt - nf]);
                    }
                }
            }
        }
        extract_exports(&v, &mut mi);
        Ok(mi)
    }

    /// Splits and parses a parameter list found in a declaration file;
    /// the list goes through the lexical parameter parser.
    pub fn parse_parameter_list(&self, params_str: &str) -> (r: Vec<Parameter>)
        ensures
            r@.len() == spec_split_params(params_str@).len(),
            forall|j: int|
                0 <= j < r@.len() ==> param_matches(
                    r@[j],
                    spec_parse_parameter(spec_split_params(params_str@)[j]),
                ),
    {
        let v = chars_of(params_str);
        ts_param_list(&v)
    }

    /// Parses one parameter fragment through the lexical parameter
    /// parser.
    pub fn parse_parameter(&self, param_str: &str) -> (r: Parameter)
        ensures
            param_matches(r, spec_parse_parameter(param_str@)),
    {
        let v = chars_of(param_str);
        parse_parameter_chars(&v)
    }
}

} // verus!
