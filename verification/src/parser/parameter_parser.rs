//! The lexical parameter parser: splits a comma-separated parameter-list
//! substring into individual parameter strings and parses each into a
//! structured [`Parameter`](crate::module_info::Parameter) record, tracking
//! nested bracket, generic-angle and quote depth throughout.

use vstd::prelude::*;
use crate::module_info::Parameter;
use crate::strutil::{
    chars_of, is_space_char, spec_trim, subvec, to_string_of, trimmed, starts_with_sub,
    spec_starts_with,
};

verus! {

/// The lexical scanning state: bracket depth, angle-bracket depth, the
/// active quote character if any, and the previous character (used to
/// detect escaped quotes).
pub struct ScanState {
    pub depth: int,
    pub angle: int,
    pub quote: Option<char>,
    pub prev: char,
}

pub open spec fn is_quote_char(c: char) -> bool {
    c == '\'' || c == '"' || c == '`'
}

pub open spec fn is_open_bracket(c: char) -> bool {
    c == '[' || c == '(' || c == '{'
}

pub open spec fn is_close_bracket(c: char) -> bool {
    c == ']' || c == ')' || c == '}'
}

/// The scanning state before any character has been read.
pub open spec fn init_scan() -> ScanState {
    ScanState { depth: 0, angle: 0, quote: None, prev: '\0' }
}

/// One step of the lexical scan.
///
/// A quote character toggles quoting unless escaped by a preceding
/// backslash; brackets and angle brackets count only outside quotes; every
/// character becomes the new previous character.
pub open spec fn scan_step(st: ScanState, c: char) -> ScanState {
    let mid = if is_quote_char(c) && st.prev != '\\' {
        match st.quote {
            None => ScanState { quote: Some(c), ..st },
            Some(q) => if q == c {
                ScanState { quote: None, ..st }
            } else {
                st
            },
        }
    } else if st.quote is None && is_open_bracket(c) {
        ScanState { depth: st.depth + 1, ..st }
    } else if st.quote is None && is_close_bracket(c) {
        ScanState { depth: st.depth - 1, ..st }
    } else if st.quote is None && c == '<' {
        ScanState { angle: st.angle + 1, ..st }
    } else if st.quote is None && c == '>' {
        ScanState { angle: st.angle - 1, ..st }
    } else {
        st
    };
    ScanState { prev: c, ..mid }
}

/// The scan state after reading all of `s`, starting from `st`.
pub open spec fn scan(s: Seq<char>, st: ScanState) -> ScanState
    decreases s.len(),
{
    if s.len() == 0 {
        st
    } else {
        scan(s.drop_first(), scan_step(st, s[0]))
    }
}

/// The state is outside every bracket, generic and quote.
pub open spec fn top_core(st: ScanState) -> bool {
    st.depth == 0 && st.angle == 0 && st.quote is None
}

pub proof fn lemma_scan_push(s: Seq<char>, st: ScanState, c: char)
    ensures
        scan(s.push(c), st) == scan_step(scan(s, st), c),
    decreases s.len(),
{
    if s.len() == 0 {
        assert(s.push(c).drop_first() =~= Seq::<char>::empty());
        assert(s.push(c)[0] == c);
    } else {
        assert(s.push(c).drop_first() =~= s.drop_first().push(c));
        assert(s.push(c)[0] == s[0]);
        lemma_scan_push(s.drop_first(), scan_step(st, s[0]), c);
        assert(s.push(c).len() != 0);
        assert(scan(s.push(c), st) == scan(s.push(c).drop_first(), scan_step(st, s[0])));
        assert(scan(s.drop_first().push(c), scan_step(st, s[0])) == scan_step(
            scan(s.drop_first(), scan_step(st, s[0])),
            c,
        ));
        assert(scan(s, st) == scan(s.drop_first(), scan_step(st, s[0])));
    }
}

pub proof fn lemma_scan_concat(a: Seq<char>, b: Seq<char>, st: ScanState)
    ensures
        scan(a + b, st) == scan(b, scan(a, st)),
    decreases a.len(),
{
    if a.len() == 0 {
        assert(a + b =~= b);
    } else {
        assert((a + b).drop_first() =~= a.drop_first() + b);
        assert((a + b)[0] == a[0]);
        lemma_scan_concat(a.drop_first(), b, scan_step(st, a[0]));
    }
}

/// Appends the trimmed segment to the accumulator unless it trims to
/// nothing.
pub open spec fn push_seg(acc: Seq<Seq<char>>, cur: Seq<char>) -> Seq<Seq<char>> {
    if spec_trim(cur).len() == 0 {
        acc
    } else {
        acc.push(spec_trim(cur))
    }
}

/// The splitting scan: a comma is a separator exactly when the state is
/// outside every bracket, generic and quote; separators flush the current
/// segment (trimmed, and dropped when empty), and every other character is
/// accumulated.
pub open spec fn split_rec(s: Seq<char>, st: ScanState, cur: Seq<char>, acc: Seq<Seq<char>>) -> Seq<
    Seq<char>,
>
    decreases s.len(),
{
    if s.len() == 0 {
        push_seg(acc, cur)
    } else {
        let c = s[0];
        if c == ',' && top_core(st) {
            split_rec(s.drop_first(), scan_step(st, c), Seq::empty(), push_seg(acc, cur))
        } else {
            split_rec(s.drop_first(), scan_step(st, c), cur.push(c), acc)
        }
    }
}

/// The sequence of parameter substrings that splitting `s` produces.
pub open spec fn spec_split_params(s: Seq<char>) -> Seq<Seq<char>> {
    split_rec(s, init_scan(), Seq::empty(), Seq::empty())
}

/// The scan state reached just before position `j` of `s`.
pub open spec fn top_at(s: Seq<char>, j: int) -> bool {
    top_core(scan(s.subrange(0, j), init_scan()))
}

/// First position at or after `j` holding a `:` outside every bracket,
/// generic and quote.
pub open spec fn find_colon_from(s: Seq<char>, j: int) -> Option<int>
    recommends
        0 <= j,
    decreases s.len() - j + 1,
{
    if j < 0 || j >= s.len() {
        None
    } else if s[j] == ':' && top_at(s, j) {
        Some(j)
    } else {
        find_colon_from(s, j + 1)
    }
}

pub open spec fn spec_find_colon(s: Seq<char>) -> Option<int> {
    find_colon_from(s, 0)
}

/// Position `j` holds an assignment `=`: top-level and not the first
/// character of `==`.
pub open spec fn assign_at(s: Seq<char>, j: int) -> bool {
    &&& 0 <= j < s.len()
    &&& s[j] == '='
    &&& top_at(s, j)
    &&& (j + 1 >= s.len() || s[j + 1] != '=')
}

/// First position at or after `j` holding an assignment `=`.
pub open spec fn find_assign_from(s: Seq<char>, j: int) -> Option<int>
    recommends
        0 <= j,
    decreases s.len() - j + 1,
{
    if j < 0 || j >= s.len() {
        None
    } else if assign_at(s, j) {
        Some(j)
    } else {
        find_assign_from(s, j + 1)
    }
}

pub open spec fn spec_find_assign(s: Seq<char>) -> Option<int> {
    find_assign_from(s, 0)
}

pub proof fn lemma_find_colon_from(s: Seq<char>, j: int)
    requires
        0 <= j,
    ensures
        match find_colon_from(s, j) {
            Some(p) => j <= p < s.len() && s[p] == ':' && top_at(s, p) && forall|k: int|
                j <= k < p ==> !(s[k] == ':' && top_at(s, k)),
            None => forall|k: int| j <= k < s.len() ==> !(s[k] == ':' && top_at(s, k)),
        },
    decreases s.len() - j + 1,
{
    if 0 <= j < s.len() && !(s[j] == ':' && top_at(s, j)) {
        lemma_find_colon_from(s, j + 1);
    }
}

pub proof fn lemma_find_assign_from(s: Seq<char>, j: int)
    requires
        0 <= j,
    ensures
        match find_assign_from(s, j) {
            Some(p) => j <= p < s.len() && assign_at(s, p) && forall|k: int|
                j <= k < p ==> !assign_at(s, k),
            None => forall|k: int| j <= k < s.len() ==> !assign_at(s, k),
        },
    decreases s.len() - j + 1,
{
    if 0 <= j < s.len() && !assign_at(s, j) {
        lemma_find_assign_from(s, j + 1);
    }
}

/// Finds the first top-level `:` of `v`.
pub fn find_colon_chars(v: &Vec<char>) -> (r: Option<usize>)
    ensures
        match r {
            Some(p) => spec_find_colon(v@) == Some(p as int) && p < v@.len(),
            None => spec_find_colon(v@) is None,
        },
{
    let n = v.len();
    let mut sc = Scanner::new();
    let mut i: usize = 0;
    proof {
        assert(v@.subrange(0, 0) =~= Seq::<char>::empty());
    }
    while i < n
        invariant
            i <= n == v@.len(),
            -(i as int) <= sc.depth <= i as int,
            -(i as int) <= sc.angle <= i as int,
            sc.abstracted() == scan(v@.subrange(0, i as int), init_scan()),
            forall|k: int| 0 <= k < i ==> !(v@[k] == ':' && top_at(v@, k)),
        decreases n - i,
    {
        let c = v[i];
        if c == ':' && sc.at_top() {
            proof {
                lemma_find_colon_from(v@, 0);
                match find_colon_from(v@, 0) {
                    Some(p) => {
                        if p < i as int {
                            assert(false);
                        }
                        if p > i as int {
                            assert(!(v@[i as int] == ':' && top_at(v@, i as int)));
                            assert(false);
                        }
                    },
                    None => {
                        assert(!(v@[i as int] == ':' && top_at(v@, i as int)));
                        assert(false);
                    },
                }
            }
            return Some(i);
        }
        sc.step(c);
        proof {
            assert(v@.subrange(0, i as int).push(v@[i as int]) =~= v@.subrange(0, i + 1 as int));
            lemma_scan_push(v@.subrange(0, i as int), init_scan(), v@[i as int]);
        }
        i += 1;
    }
    proof {
        lemma_find_colon_from(v@, 0);
        match find_colon_from(v@, 0) {
            Some(p) => {
                assert(!(v@[p] == ':' && top_at(v@, p)));
                assert(false);
            },
            None => {},
        }
    }
    None
}

/// Finds the first top-level assignment `=` of `v` (skipping `==`).
pub fn find_assign_chars(v: &Vec<char>) -> (r: Option<usize>)
    ensures
        match r {
            Some(p) => spec_find_assign(v@) == Some(p as int) && p < v@.len(),
            None => spec_find_assign(v@) is None,
        },
{
    let n = v.len();
    let mut sc = Scanner::new();
    let mut i: usize = 0;
    proof {
        assert(v@.subrange(0, 0) =~= Seq::<char>::empty());
    }
    while i < n
        invariant
            i <= n == v@.len(),
            -(i as int) <= sc.depth <= i as int,
            -(i as int) <= sc.angle <= i as int,
            sc.abstracted() == scan(v@.subrange(0, i as int), init_scan()),
            forall|k: int| 0 <= k < i ==> !assign_at(v@, k),
        decreases n - i,
    {
        let c = v[i];
        if c == '=' && sc.at_top() && (i + 1 >= n || v[i + 1] != '=') {
            proof {
                assert(assign_at(v@, i as int));
                lemma_find_assign_from(v@, 0);
                match find_assign_from(v@, 0) {
                    Some(p) => {
                        if p < i as int {
                            assert(false);
                        }
                        if p > i as int {
                            assert(!assign_at(v@, i as int));
                            assert(false);
                        }
                    },
                    None => {
                        assert(!assign_at(v@, i as int));
                        assert(false);
                    },
                }
            }
            return Some(i);
        }
        sc.step(c);
        proof {
            assert(v@.subrange(0, i as int).push(v@[i as int]) =~= v@.subrange(0, i + 1 as int));
            lemma_scan_push(v@.subrange(0, i as int), init_scan(), v@[i as int]);
        }
        i += 1;
    }
    proof {
        lemma_find_assign_from(v@, 0);
        match find_assign_from(v@, 0) {
            Some(p) => {
                assert(!assign_at(v@, p));
                assert(false);
            },
            None => {},
        }
    }
    None
}

/// The name/type split of a parameter fragment: text before the first
/// top-level `:` (trimmed) is the name; the text after it (trimmed) is the
/// type, absent when empty or when there is no top-level `:`.
pub open spec fn spec_name_type(s: Seq<char>) -> (Seq<char>, Option<Seq<char>>) {
    match spec_find_colon(s) {
        Some(p) => {
            let name = spec_trim(s.subrange(0, p));
            let ty = spec_trim(s.subrange(p + 1, s.len() as int));
            (name, if ty.len() == 0 { Option::None } else { Option::Some(ty) })
        },
        None => (spec_trim(s), None),
    }
}

/// Splits `v` into its name part and optional type part.
pub fn name_type_chars(v: &Vec<char>) -> (r: (Vec<char>, Option<Vec<char>>))
    ensures
        r.0@ == spec_name_type(v@).0,
        match r.1 {
            Some(t) => spec_name_type(v@).1 == Some(t@),
            None => spec_name_type(v@).1 is None,
        },
{
    let n = v.len();
    match find_colon_chars(v) {
        Some(p) => {
            let left = subvec(v, 0, p);
            let name = trimmed(&left);
            let right = subvec(v, p + 1, n);
            let ty = trimmed(&right);
            if ty.len() == 0 {
                (name, None)
            } else {
                (name, Some(ty))
            }
        },
        None => {
            let name = trimmed(v);
            (name, None)
        },
    }
}

/// The rest-parameter marker `...`.
pub open spec fn rest_marker() -> Seq<char> {
    seq!['.', '.', '.']
}

/// The fully parsed shape of one parameter fragment.
pub struct ParamShape {
    pub name: Seq<char>,
    pub ty: Option<Seq<char>>,
    pub optional: bool,
    pub rest: bool,
    pub dflt: Option<Seq<char>>,
}

/// The placeholder name an unparsable pattern degrades to.
pub open spec fn unknown_name() -> Seq<char> {
    seq!['u', 'n', 'k', 'n', 'o', 'w', 'n']
}

pub open spec fn is_ident_start_char(c: char) -> bool {
    ('a' <= c && c <= 'z') || ('A' <= c && c <= 'Z') || c == '_' || c == '$'
}

pub open spec fn is_ident_char(c: char) -> bool {
    is_ident_start_char(c) || ('0' <= c && c <= '9')
}

/// A plain identifier: non-empty, beginning with a letter, `_` or `$`,
/// and made of identifier characters throughout.
pub open spec fn is_plain_ident(s: Seq<char>) -> bool {
    &&& s.len() > 0
    &&& is_ident_start_char(s[0])
    &&& forall|i: int| 0 <= i < s.len() ==> is_ident_char(s[i])
}

/// Classifying one parameter fragment, in priority order: a `...` prefix
/// makes a rest parameter; otherwise a top-level `=` splits off a default
/// value and forces optionality; otherwise a trailing `?` (on the whole
/// fragment or on the name) marks optionality; the remainder splits into
/// name and type at the first top-level `:`.
pub open spec fn spec_classify_parameter(s: Seq<char>) -> ParamShape {
    let t = spec_trim(s);
    if spec_starts_with(t, rest_marker()) {
        let nt = spec_name_type(t.subrange(3, t.len() as int));
        ParamShape { name: nt.0, ty: nt.1, optional: false, rest: true, dflt: None }
    } else if spec_find_assign(t) is Some {
        let p = spec_find_assign(t)->Some_0;
        let nt = spec_name_type(t.subrange(0, p));
        let dflt = spec_trim(t.subrange(p + 1, t.len() as int));
        ParamShape { name: nt.0, ty: nt.1, optional: true, rest: false, dflt: Some(dflt) }
    } else {
        let opt0 = t.len() > 0 && t.last() == '?';
        let base = if opt0 {
            t.drop_last()
        } else {
            t
        };
        let nt = spec_name_type(base);
        if nt.0.len() > 0 && nt.0.last() == '?' {
            ParamShape { name: nt.0.drop_last(), ty: nt.1, optional: true, rest: false, dflt: None }
        } else {
            ParamShape { name: nt.0, ty: nt.1, optional: opt0, rest: false, dflt: None }
        }
    }
}

/// A fragment whose name is not a plain identifier (a destructuring
/// pattern and the like) is unparsable: it degrades to the placeholder
/// name `unknown` with no type, rather than failing the whole parse.
pub open spec fn degrade_shape(sh: ParamShape) -> ParamShape {
    if is_plain_ident(sh.name) {
        sh
    } else {
        ParamShape { name: unknown_name(), ty: None, ..sh }
    }
}

/// Parsing one parameter fragment: classification per
/// [`spec_classify_parameter`], then degradation of unparsable patterns
/// per [`degrade_shape`].
pub open spec fn spec_parse_parameter(s: Seq<char>) -> ParamShape {
    degrade_shape(spec_classify_parameter(s))
}

/// The parameter invariant holds by construction: a rest parameter never
/// carries a default value, and a parameter with a default value is
/// always optional.
pub proof fn lemma_parameter_invariant(s: Seq<char>)
    ensures
        spec_parse_parameter(s).rest ==> spec_parse_parameter(s).dflt is None,
        spec_parse_parameter(s).dflt is Some ==> spec_parse_parameter(s).optional,
{
}

/// The record `p` realizes the parsed shape `s`.
pub open spec fn param_matches(p: Parameter, s: ParamShape) -> bool {
    &&& p.name@ == s.name
    &&& match (p.param_type, s.ty) {
        (Some(a), Some(b)) => a@ == b,
        (None, None) => true,
        _ => false,
    }
    &&& p.is_optional == s.optional
    &&& p.is_rest == s.rest
    &&& match (p.default_value, s.dflt) {
        (Some(a), Some(b)) => a@ == b,
        (None, None) => true,
        _ => false,
    }
}

fn opt_string_of(o: Option<Vec<char>>) -> (r: Option<String>)
    ensures
        match (r, o) {
            (Some(a), Some(b)) => a@ == b@,
            (None, None) => true,
            _ => false,
        },
{
    match o {
        Some(v) => Some(to_string_of(&v)),
        None => None,
    }
}

pub fn is_plain_ident_exec(v: &Vec<char>) -> (r: bool)
    ensures
        r == is_plain_ident(v@),
{
    let n = v.len();
    if n == 0 {
        return false;
    }
    let c0 = v[0];
    if !(('a' <= c0 && c0 <= 'z') || ('A' <= c0 && c0 <= 'Z') || c0 == '_' || c0 == '$') {
        return false;
    }
    let mut i: usize = 0;
    while i < n
        invariant
            i <= n == v@.len(),
            forall|k: int| 0 <= k < i ==> is_ident_char(v@[k]),
        decreases n - i,
    {
        let c = v[i];
        if !(('a' <= c && c <= 'z') || ('A' <= c && c <= 'Z') || c == '_' || c == '$' || ('0' <= c
            && c <= '9')) {
            return false;
        }
        i += 1;
    }
    true
}

fn unknown_string() -> (s: String)
    ensures
        s@ == unknown_name(),
{
    let mut v: Vec<char> = Vec::new();
    v.push('u');
    v.push('n');
    v.push('k');
    v.push('n');
    v.push('o');
    v.push('w');
    v.push('n');
    proof {
        assert(v@ =~= unknown_name());
    }
    to_string_of(&v)
}

/// Parses a single parameter fragment given as characters.
pub fn parse_parameter_chars(v: &Vec<char>) -> (r: Parameter)
    ensures
        param_matches(r, spec_parse_parameter(v@)),
{
    let p = classify_parameter_chars(v);
    let nv = chars_of(p.name.as_str());
    if is_plain_ident_exec(&nv) {
        p
    } else {
        Parameter {
            name: unknown_string(),
            param_type: None,
            is_optional: p.is_optional,
            is_rest: p.is_rest,
            default_value: p.default_value,
        }
    }
}

/// Classifies one parameter fragment, before the unparsable-pattern
/// degradation.
fn classify_parameter_chars(v: &Vec<char>) -> (r: Parameter)
    ensures
        param_matches(r, spec_classify_parameter(v@)),
{
    let t = trimmed(v);
    let n = t.len();
    let mut dots: Vec<char> = Vec::new();
    dots.push('.');
    dots.push('.');
    dots.push('.');
    proof {
        assert(dots@ =~= rest_marker());
    }
    if starts_with_sub(&t, &dots) {
        let rest = subvec(&t, 3, n);
        let nt = name_type_chars(&rest);
        Parameter {
            name: to_string_of(&nt.0),
            param_type: opt_string_of(nt.1),
            is_optional: false,
            is_rest: true,
            default_value: None,
        }
    } else {
        match find_assign_chars(&t) {
            Some(p) => {
                let left = subvec(&t, 0, p);
                let nt = name_type_chars(&left);
                let right = subvec(&t, p + 1, n);
                let dflt = trimmed(&right);
                Parameter {
                    name: to_string_of(&nt.0),
                    param_type: opt_string_of(nt.1),
                    is_optional: true,
                    is_rest: false,
                    default_value: Some(to_string_of(&dflt)),
                }
            },
            None => {
                let opt0 = n > 0 && t[n - 1] == '?';
                let base = if opt0 {
                    subvec(&t, 0, n - 1)
                } else {
                    subvec(&t, 0, n)
                };
                proof {
                    if opt0 {
                        assert(base@ =~= t@.drop_last());
                    } else {
                        assert(base@ =~= t@);
                    }
                }
                let nt = name_type_chars(&base);
                let m = nt.0.len();
                if m > 0 && nt.0[m - 1] == '?' {
                    let name = subvec(&nt.0, 0, m - 1);
                    proof {
                        assert(name@ =~= nt.0@.drop_last());
                    }
                    Parameter {
                        name: to_string_of(&name),
                        param_type: opt_string_of(nt.1),
                        is_optional: true,
                        is_rest: false,
                        default_value: None,
                    }
                } else {
                    Parameter {
                        name: to_string_of(&nt.0),
                        param_type: opt_string_of(nt.1),
                        is_optional: opt0,
                        is_rest: false,
                        default_value: None,
                    }
                }
            },
        }
    }
}

/// The parameter segments of a whole signature string: the text between
/// the first `(` and the last `)` (falling back to the whole string's ends
/// when absent), split as a parameter list; an inverted or empty range
/// yields no parameters.
pub open spec fn spec_sig_param_segs(s: Seq<char>) -> Seq<Seq<char>> {
    let a = match crate::strutil::find_char_from(s, '(', 0) {
        Some(i) => i,
        None => 0,
    };
    let b = match crate::strutil::rfind_char(s, ')') {
        Some(i) => i,
        None => s.len() as int,
    };
    if a >= b {
        Seq::empty()
    } else {
        spec_split_params(s.subrange(a + 1, b))
    }
}

// ---------------------------------------------------------------------
// Splitting idempotence.
//
// Splitting a parameter list, joining the segments with ", " and
// splitting again yields the same segments.  The development below
// characterizes the segments that splitting produces (trimmed, non-empty,
// free of top-level commas, and — except possibly for the last — scanned
// back to the outermost level) and then shows that re-splitting such a
// join reproduces the segments exactly.
// ---------------------------------------------------------------------

/// The states agree on everything the bracket/quote tracking depends on,
/// apart from the previous character.
pub open spec fn core_eq(a: ScanState, b: ScanState) -> bool {
    a.depth == b.depth && a.angle == b.angle && a.quote == b.quote
}

pub open spec fn all_space(s: Seq<char>) -> bool {
    forall|i: int| 0 <= i < s.len() ==> is_space_char(s[i])
}

/// No comma of `s` sits at the outermost level.
pub open spec fn no_top_comma(s: Seq<char>) -> bool {
    forall|k: int| 0 <= k < s.len() ==> !(s[k] == ',' && top_at(s, k))
}

/// A well-formed split segment: its own trim, non-empty, and free of
/// top-level commas.
pub open spec fn seg_ok(g: Seq<char>) -> bool {
    spec_trim(g) == g && g.len() > 0 && no_top_comma(g)
}

/// A segment whose scan returns to the outermost level.
pub open spec fn seg_closed(g: Seq<char>) -> bool {
    seg_ok(g) && top_core(scan(g, init_scan()))
}

/// The separator used to re-join segments.
pub open spec fn sep_str() -> Seq<char> {
    seq![',', ' ']
}

/// The segments joined with `", "`.
pub open spec fn spec_join(segs: Seq<Seq<char>>) -> Seq<char>
    decreases segs.len(),
{
    if segs.len() == 0 {
        Seq::empty()
    } else if segs.len() == 1 {
        segs[0]
    } else {
        segs[0] + sep_str() + spec_join(segs.drop_first())
    }
}

/// Scanning from two states that agree on the core and on whether the
/// previous character was a backslash proceeds identically; after at least
/// one character the states coincide completely.
pub proof fn lemma_scan_core_eq(s: Seq<char>, st1: ScanState, st2: ScanState)
    requires
        core_eq(st1, st2),
        (st1.prev == '\\') == (st2.prev == '\\'),
    ensures
        core_eq(scan(s, st1), scan(s, st2)),
        s.len() > 0 ==> scan(s, st1) == scan(s, st2),
{
    if s.len() > 0 {
        assert(scan_step(st1, s[0]) == scan_step(st2, s[0]));
    }
}

/// Whitespace characters leave the scanning core untouched.
pub proof fn lemma_scan_spaces(ws: Seq<char>, st: ScanState)
    requires
        all_space(ws),
    ensures
        core_eq(scan(ws, st), st),
        ws.len() > 0 ==> scan(ws, st).prev == ws.last(),
        ws.len() == 0 ==> scan(ws, st) == st,
    decreases ws.len(),
{
    if ws.len() > 0 {
        let c = ws[0];
        assert(is_space_char(c));
        let st1 = scan_step(st, c);
        assert(st1.depth == st.depth && st1.angle == st.angle && st1.quote == st.quote);
        assert(st1.prev == c);
        assert forall|i: int| 0 <= i < ws.drop_first().len() implies is_space_char(
            ws.drop_first()[i],
        ) by {
            assert(ws.drop_first()[i] == ws[i + 1]);
        }
        lemma_scan_spaces(ws.drop_first(), st1);
        if ws.len() == 1 {
            assert(ws.last() == c);
        } else {
            assert(ws.drop_first().last() == ws.last());
        }
    }
}

/// A whitespace prefix does not change the scanning core.
pub proof fn lemma_scan_ws_prefix(ws: Seq<char>, p: Seq<char>)
    requires
        all_space(ws),
    ensures
        core_eq(scan(ws + p, init_scan()), scan(p, init_scan())),
{
    lemma_scan_concat(ws, p, init_scan());
    lemma_scan_spaces(ws, init_scan());
    let stw = scan(ws, init_scan());
    if ws.len() > 0 {
        assert(stw.prev == ws.last());
        assert(is_space_char(ws.last()));
        assert(stw.prev != '\\');
    }
    lemma_scan_core_eq(p, stw, init_scan());
}

/// A trimmed string, being non-empty, has no surrounding whitespace.
pub proof fn lemma_trimmed_flat(g: Seq<char>)
    requires
        spec_trim(g) == g,
        g.len() > 0,
    ensures
        leading_spaces_of(g) == 0,
        trailing_spaces_of(g) == 0,
        !is_space_char(g[0]),
        !is_space_char(g.last()),
{
    crate::strutil::lemma_leading_spaces(g);
    crate::strutil::lemma_trailing_spaces(g);
    let lead = leading_spaces_of(g);
    let trail = trailing_spaces_of(g);
    if lead == g.len() {
        assert(spec_trim(g).len() == 0);
        assert(false);
    }
    if g.len() - trail <= lead {
        assert(is_space_char(g[lead]));
        assert(false);
    }
    assert(spec_trim(g).len() == g.len() - lead - trail);
    assert(lead == 0 && trail == 0);
}

/// Shorthand for the strutil leading-space count.
pub open spec fn leading_spaces_of(s: Seq<char>) -> int {
    crate::strutil::leading_spaces(s)
}

/// Shorthand for the strutil trailing-space count.
pub open spec fn trailing_spaces_of(s: Seq<char>) -> int {
    crate::strutil::trailing_spaces(s)
}

/// Prefixing whitespace to a flat non-empty segment trims back to the
/// segment itself.
pub proof fn lemma_trim_ws_prefix(ws: Seq<char>, g: Seq<char>)
    requires
        all_space(ws),
        spec_trim(g) == g,
        g.len() > 0,
    ensures
        spec_trim(ws + g) == g,
{
    lemma_trimmed_flat(g);
    let s = ws + g;
    assert forall|i: int| 0 <= i < ws.len() implies is_space_char(s[i]) by {
        assert(s[i] == ws[i]);
    }
    assert(s[ws.len() as int] == g[0]);
    crate::strutil::lemma_leading_spaces_unique(s, ws.len() as int);
    assert(s.last() == g.last());
    crate::strutil::lemma_trailing_spaces_unique(s, 0);
    assert(spec_trim(s) =~= g);
}

/// Trimming does not change whether a position's scan state is top-level,
/// so a string without top-level commas trims to one without them.
pub proof fn lemma_no_top_comma_trim(cur: Seq<char>)
    requires
        no_top_comma(cur),
    ensures
        no_top_comma(spec_trim(cur)),
{
    crate::strutil::lemma_leading_spaces(cur);
    crate::strutil::lemma_trailing_spaces(cur);
    let lead = leading_spaces_of(cur);
    let trail = trailing_spaces_of(cur);
    let t = spec_trim(cur);
    if lead == cur.len() {
        assert(t.len() == 0);
    } else {
        if cur.len() - trail <= lead {
            assert(is_space_char(cur[lead]));
            assert(false);
        }
        assert forall|k: int| 0 <= k < t.len() implies !(t[k] == ',' && top_at(t, k)) by {
            let ws = cur.subrange(0, lead);
            assert(all_space(ws));
            assert(t.subrange(0, k) =~= cur.subrange(lead, lead + k));
            assert(cur.subrange(0, lead + k) =~= ws + cur.subrange(lead, lead + k));
            lemma_scan_ws_prefix(ws, cur.subrange(lead, lead + k));
            assert(top_at(t, k) == top_at(cur, lead + k));
            assert(t[k] == cur[lead + k]);
            assert(!(cur[lead + k] == ',' && top_at(cur, lead + k)));
        }
    }
}

/// Trimming does not change the core of the final scan state.
pub proof fn lemma_top_scan_trim(cur: Seq<char>)
    ensures
        core_eq(scan(spec_trim(cur), init_scan()), scan(cur, init_scan())),
{
    crate::strutil::lemma_leading_spaces(cur);
    crate::strutil::lemma_trailing_spaces(cur);
    let lead = leading_spaces_of(cur);
    let trail = trailing_spaces_of(cur);
    let t = spec_trim(cur);
    if lead == cur.len() {
        assert(all_space(cur));
        lemma_scan_spaces(cur, init_scan());
        assert(t.len() == 0);
    } else {
        if cur.len() - trail <= lead {
            assert(is_space_char(cur[lead]));
            assert(false);
        }
        let ws1 = cur.subrange(0, lead);
        let ws2 = cur.subrange(cur.len() - trail, cur.len() as int);
        assert(all_space(ws1));
        assert(all_space(ws2)) by {
            assert forall|i: int| 0 <= i < ws2.len() implies is_space_char(ws2[i]) by {
                assert(ws2[i] == cur[cur.len() - trail + i]);
            }
        }
        assert(cur =~= cur.subrange(0, cur.len() - trail) + ws2);
        lemma_scan_concat(cur.subrange(0, cur.len() - trail), ws2, init_scan());
        lemma_scan_spaces(ws2, scan(cur.subrange(0, cur.len() - trail), init_scan()));
        assert(cur.subrange(0, cur.len() - trail) =~= ws1 + t);
        lemma_scan_ws_prefix(ws1, t);
    }
}

/// Consuming a segment without top-level commas accumulates it whole:
/// no character of it flushes.
pub proof fn lemma_skip_seg(
    ws: Seq<char>,
    g: Seq<char>,
    j: int,
    rest: Seq<char>,
    acc: Seq<Seq<char>>,
)
    requires
        all_space(ws),
        no_top_comma(g),
        0 <= j <= g.len(),
    ensures
        split_rec(
            g.subrange(j, g.len() as int) + rest,
            scan(ws + g.subrange(0, j), init_scan()),
            ws + g.subrange(0, j),
            acc,
        ) == split_rec(rest, scan(ws + g, init_scan()), ws + g, acc),
    decreases g.len() - j,
{
    if j == g.len() {
        assert(g.subrange(j, g.len() as int) + rest =~= rest);
        assert(ws + g.subrange(0, j) =~= ws + g);
    } else {
        let c = g[j];
        let s0 = g.subrange(j, g.len() as int) + rest;
        assert(s0.len() > 0);
        assert(s0[0] == c);
        let cur = ws + g.subrange(0, j);
        let st = scan(cur, init_scan());
        if c == ',' {
            assert(!top_at(g, j));
            assert(cur =~= ws + g.subrange(0, j));
            lemma_scan_ws_prefix(ws, g.subrange(0, j));
            assert(core_eq(st, scan(g.subrange(0, j), init_scan())));
            assert(!top_core(st));
        }
        assert(!(c == ',' && top_core(st)));
        assert(s0.drop_first() =~= g.subrange(j + 1, g.len() as int) + rest);
        assert(cur.push(c) =~= ws + g.subrange(0, j + 1));
        lemma_scan_push(cur, init_scan(), c);
        assert(scan_step(st, c) == scan(ws + g.subrange(0, j + 1), init_scan()));
        lemma_skip_seg(ws, g, j + 1, rest, acc);
    }
}

/// Re-splitting the join of well-formed segments (all flushed back to the
/// outermost level except possibly the last) appends exactly those
/// segments to the accumulator.
pub proof fn lemma_join_split(segs: Seq<Seq<char>>, ws: Seq<char>, acc: Seq<Seq<char>>)
    requires
        segs.len() > 0,
        all_space(ws),
        forall|i: int| 0 <= i < segs.len() ==> seg_ok(#[trigger] segs[i]),
        forall|i: int| 0 <= i < segs.len() - 1 ==> seg_closed(#[trigger] segs[i]),
    ensures
        split_rec(spec_join(segs), scan(ws, init_scan()), ws, acc) == acc + segs,
    decreases segs.len(),
{
    let g0 = segs[0];
    assert(seg_ok(g0));
    let rest: Seq<char> = if segs.len() == 1 {
        Seq::empty()
    } else {
        sep_str() + spec_join(segs.drop_first())
    };
    assert(spec_join(segs) == g0.subrange(0, g0.len() as int) + rest) by {
        if segs.len() == 1 {
            assert(g0.subrange(0, g0.len() as int) + rest =~= g0);
        } else {
            assert(g0.subrange(0, g0.len() as int) =~= g0);
            assert(g0.subrange(0, g0.len() as int) + rest =~= g0 + sep_str() + spec_join(
                segs.drop_first(),
            ));
        }
    }
    assert(ws + g0.subrange(0, 0) =~= ws);
    lemma_skip_seg(ws, g0, 0, rest, acc);
    // now at: split_rec(rest, scan(ws + g0, init), ws + g0, acc)
    lemma_trim_ws_prefix(ws, g0);
    if segs.len() == 1 {
        assert(split_rec(rest, scan(ws + g0, init_scan()), ws + g0, acc) == push_seg(acc, ws + g0));
        assert(push_seg(acc, ws + g0) == acc.push(g0));
        assert(acc.push(g0) =~= acc + segs);
    } else {
        let stg = scan(ws + g0, init_scan());
        assert(seg_closed(g0));
        lemma_scan_ws_prefix(ws, g0);
        assert(top_core(stg));
        assert(rest[0] == ',');
        assert(rest.len() > 0);
        // the comma flushes g0
        let st1 = scan_step(stg, ',');
        assert(rest.drop_first() =~= seq![' '] + spec_join(segs.drop_first()));
        assert(split_rec(rest, stg, ws + g0, acc) == split_rec(
            rest.drop_first(),
            st1,
            Seq::empty(),
            acc.push(g0),
        ));
        // the following space is accumulated
        let s1 = rest.drop_first();
        assert(s1[0] == ' ');
        assert(s1.len() > 0);
        let st2 = scan_step(st1, ' ');
        assert(!(s1[0] == ',' && top_core(st1)));
        assert(split_rec(s1, st1, Seq::empty(), acc.push(g0)) == split_rec(
            s1.drop_first(),
            st2,
            Seq::empty().push(' '),
            acc.push(g0),
        ));
        assert(s1.drop_first() =~= spec_join(segs.drop_first()));
        assert(Seq::empty().push(' ') =~= seq![' ']);
        assert(st2 == scan(seq![' '], init_scan())) by {
            let one = seq![' '];
            assert(one.len() == 1);
            assert(one[0] == ' ');
            assert(one.drop_first() =~= Seq::<char>::empty());
            assert(scan(one, init_scan()) == scan(one.drop_first(), scan_step(init_scan(), ' ')));
            assert(scan(Seq::<char>::empty(), scan_step(init_scan(), ' ')) == scan_step(
                init_scan(),
                ' ',
            ));
        }
        assert(all_space(seq![' ']));
        assert forall|i: int| 0 <= i < segs.drop_first().len() implies seg_ok(
            #[trigger] segs.drop_first()[i],
        ) by {
            assert(segs.drop_first()[i] == segs[i + 1]);
        }
        assert forall|i: int| 0 <= i < segs.drop_first().len() - 1 implies seg_closed(
            #[trigger] segs.drop_first()[i],
        ) by {
            assert(segs.drop_first()[i] == segs[i + 1]);
        }
        lemma_join_split(segs.drop_first(), seq![' '], acc.push(g0));
        assert(acc.push(g0) + segs.drop_first() =~= acc + segs);
    }
}

/// Every segment that splitting produces is trimmed, non-empty and free
/// of top-level commas, and every segment but possibly the last was
/// flushed at the outermost level.
pub proof fn lemma_split_good(s: Seq<char>, st: ScanState, cur: Seq<char>, acc: Seq<Seq<char>>)
    requires
        core_eq(st, scan(cur, init_scan())),
        (st.prev == '\\') == (scan(cur, init_scan()).prev == '\\'),
        no_top_comma(cur),
        forall|i: int| 0 <= i < acc.len() ==> seg_closed(#[trigger] acc[i]),
    ensures
        forall|i: int|
            0 <= i < split_rec(s, st, cur, acc).len() ==> seg_ok(
                #[trigger] split_rec(s, st, cur, acc)[i],
            ),
        forall|i: int|
            0 <= i < split_rec(s, st, cur, acc).len() - 1 ==> seg_closed(
                #[trigger] split_rec(s, st, cur, acc)[i],
            ),
    decreases s.len(),
{
    let stc = scan(cur, init_scan());
    if s.len() == 0 {
        if spec_trim(cur).len() == 0 {
            assert(split_rec(s, st, cur, acc) == acc);
            assert forall|i: int| 0 <= i < acc.len() implies seg_ok(#[trigger] acc[i]) by {
                assert(seg_closed(acc[i]));
            }
        } else {
            crate::strutil::lemma_trim_idempotent(cur);
            lemma_no_top_comma_trim(cur);
            assert(seg_ok(spec_trim(cur)));
            let r = acc.push(spec_trim(cur));
            assert forall|i: int| 0 <= i < r.len() implies seg_ok(#[trigger] r[i]) by {
                if i < acc.len() {
                    assert(r[i] == acc[i]);
                } else {
                    assert(r[i] == spec_trim(cur));
                }
            }
            assert forall|i: int| 0 <= i < r.len() - 1 implies seg_closed(#[trigger] r[i]) by {
                assert(r[i] == acc[i]);
            }
        }
    } else {
        let c = s[0];
        if c == ',' && top_core(st) {
            let acc2 = push_seg(acc, cur);
            if spec_trim(cur).len() > 0 {
                crate::strutil::lemma_trim_idempotent(cur);
                lemma_no_top_comma_trim(cur);
                lemma_top_scan_trim(cur);
                assert(top_core(scan(spec_trim(cur), init_scan())));
                assert(seg_closed(spec_trim(cur)));
            }
            assert forall|i: int| 0 <= i < acc2.len() implies seg_closed(#[trigger] acc2[i]) by {
                if i < acc.len() {
                    assert(acc2[i] == acc[i]);
                } else {
                    assert(acc2[i] == spec_trim(cur));
                }
            }
            let st2 = scan_step(st, c);
            assert(scan(Seq::<char>::empty(), init_scan()) == init_scan());
            assert(core_eq(st2, init_scan()));
            lemma_split_good(s.drop_first(), st2, Seq::empty(), acc2);
            assert(split_rec(s, st, cur, acc) == split_rec(
                s.drop_first(),
                st2,
                Seq::empty(),
                acc2,
            ));
        } else {
            let st2 = scan_step(st, c);
            let cur2 = cur.push(c);
            lemma_scan_push(cur, init_scan(), c);
            assert(scan(cur2, init_scan()) == scan_step(stc, c));
            assert(core_eq(st2, scan_step(stc, c)));
            assert(st2.prev == c && scan_step(stc, c).prev == c);
            assert(no_top_comma(cur2)) by {
                assert forall|k: int| 0 <= k < cur2.len() implies !(cur2[k] == ',' && top_at(
                    cur2,
                    k,
                )) by {
                    if k < cur.len() {
                        assert(cur2.subrange(0, k) =~= cur.subrange(0, k));
                        assert(cur2[k] == cur[k]);
                        assert(top_at(cur2, k) == top_at(cur, k));
                    } else {
                        assert(cur2.subrange(0, k) =~= cur);
                        assert(cur2[k] == c);
                        if c == ',' {
                            assert(!top_core(st));
                            assert(!top_core(stc));
                        }
                    }
                }
            }
            lemma_split_good(s.drop_first(), st2, cur2, acc);
            assert(split_rec(s, st, cur, acc) == split_rec(s.drop_first(), st2, cur2, acc));
        }
    }
}

/// The segments of any split are well formed, and all but possibly the
/// last return the scan to the outermost level.
pub proof fn lemma_split_segments_good(s: Seq<char>)
    ensures
        forall|i: int|
            0 <= i < spec_split_params(s).len() ==> seg_ok(#[trigger] spec_split_params(s)[i]),
        forall|i: int|
            0 <= i < spec_split_params(s).len() - 1 ==> seg_closed(
                #[trigger] spec_split_params(s)[i],
            ),
{
    assert(scan(Seq::<char>::empty(), init_scan()) == init_scan());
    lemma_split_good(s, init_scan(), Seq::empty(), Seq::empty());
}

/// Splitting idempotence: joining the split of any parameter-list string
/// with `", "` and splitting again yields the same sequence of segments.
pub proof fn lemma_split_join_idempotent(s: Seq<char>)
    ensures
        spec_split_params(spec_join(spec_split_params(s))) == spec_split_params(s),
{
    let segs = spec_split_params(s);
    lemma_split_segments_good(s);
    if segs.len() == 0 {
        assert(spec_join(segs) =~= Seq::<char>::empty());
        assert(spec_trim(Seq::<char>::empty()).len() == 0);
        assert(spec_split_params(spec_join(segs)) =~= segs);
    } else {
        assert(all_space(Seq::<char>::empty()));
        lemma_join_split(segs, Seq::empty(), Seq::empty());
        assert(scan(Seq::<char>::empty(), init_scan()) == init_scan());
        assert(Seq::<Seq<char>>::empty() + segs =~= segs);
    }
}

/// The executable scanner mirroring [`ScanState`].
struct Scanner {
    depth: i128,
    angle: i128,
    quote: Option<char>,
    prev: char,
}

impl Scanner {
    spec fn abstracted(&self) -> ScanState {
        ScanState {
            depth: self.depth as int,
            angle: self.angle as int,
            quote: self.quote,
            prev: self.prev,
        }
    }

    fn new() -> (r: Self)
        ensures
            r.abstracted() == init_scan(),
            r.depth == 0,
            r.angle == 0,
    {
        Scanner { depth: 0, angle: 0, quote: None, prev: '\0' }
    }

    fn at_top(&self) -> (r: bool)
        ensures
            r == top_core(self.abstracted()),
    {
        self.depth == 0 && self.angle == 0 && self.quote.is_none()
    }

    /// Advances the scanner by one character.
    fn step(&mut self, c: char)
        requires
            -0x10000000000000000 <= old(self).depth <= 0x10000000000000000,
            -0x10000000000000000 <= old(self).angle <= 0x10000000000000000,
        ensures
            final(self).abstracted() == scan_step(old(self).abstracted(), c),
            final(self).depth - old(self).depth <= 1,
            old(self).depth - final(self).depth <= 1,
            final(self).angle - old(self).angle <= 1,
            old(self).angle - final(self).angle <= 1,
    {
        let is_q = c == '\'' || c == '"' || c == '`';
        if is_q && self.prev != '\\' {
            match self.quote {
                None => {
                    self.quote = Some(c);
                },
                Some(q) => {
                    if q == c {
                        self.quote = None;
                    }
                },
            }
        } else if self.quote.is_none() && (c == '[' || c == '(' || c == '{') {
            self.depth = self.depth + 1;
        } else if self.quote.is_none() && (c == ']' || c == ')' || c == '}') {
            self.depth = self.depth - 1;
        } else if self.quote.is_none() && c == '<' {
            self.angle = self.angle + 1;
        } else if self.quote.is_none() && c == '>' {
            self.angle = self.angle - 1;
        }
        self.prev = c;
    }
}

/// Parses parameter strings with proper handling of nested brackets,
/// quotes and generic type arguments.
pub struct ParameterParser;

impl ParameterParser {
    pub fn new() -> Self {
        ParameterParser
    }

    /// Splits a parameter-list string at commas that sit outside every
    /// bracket, generic and quote; each flushed segment is trimmed and
    /// empty segments are discarded.
    pub fn split_parameters(&self, params: &str) -> (r: Vec<String>)
        ensures
            r@.len() == spec_split_params(params@).len(),
            forall|k: int|
                0 <= k < r@.len() ==> r@[k]@ == spec_split_params(params@)[k],
    {
        let v = chars_of(params);
        let segs = split_params_chars(&v);
        let mut r: Vec<String> = Vec::new();
        let n = segs.len();
        let mut i: usize = 0;
        while i < n
            invariant
                i <= n == segs@.len(),
                segs@.len() == spec_split_params(params@).len(),
                forall|k: int| 0 <= k < n ==> segs@[k]@ == spec_split_params(params@)[k],
                r@.len() == i,
                forall|k: int| 0 <= k < i ==> r@[k]@ == spec_split_params(params@)[k],
            decreases n - i,
        {
            r.push(to_string_of(&segs[i]));
            i += 1;
        }
        r
    }

    /// Parses a single parameter string into a [`Parameter`] record.
    pub fn parse_parameter(&self, param_str: &str) -> (r: Parameter)
        ensures
            param_matches(r, spec_parse_parameter(param_str@)),
    {
        let v = chars_of(param_str);
        parse_parameter_chars(&v)
    }

    /// Extracts the parameter name and optional type from text such as
    /// `name: Type`.
    pub fn extract_name_and_type(&self, param_str: &str) -> (r: (String, Option<String>))
        ensures
            r.0@ == spec_name_type(param_str@).0,
            match r.1 {
                Some(t) => spec_name_type(param_str@).1 == Some(t@),
                None => spec_name_type(param_str@).1 is None,
            },
    {
        let v = chars_of(param_str);
        let nt = name_type_chars(&v);
        (to_string_of(&nt.0), opt_string_of(nt.1))
    }

    /// Finds the `:` separating name from type, respecting nested
    /// structures.
    pub fn find_type_separator(&self, param_str: &str) -> (r: Option<usize>)
        ensures
            match r {
                Some(p) => spec_find_colon(param_str@) == Some(p as int),
                None => spec_find_colon(param_str@) is None,
            },
    {
        let v = chars_of(param_str);
        find_colon_chars(&v)
    }

    /// Finds the assignment `=`, respecting nested structures and skipping
    /// `==`/`===`.
    pub fn find_assignment_operator(&self, param_str: &str) -> (r: Option<usize>)
        ensures
            match r {
                Some(p) => spec_find_assign(param_str@) == Some(p as int),
                None => spec_find_assign(param_str@) is None,
            },
    {
        let v = chars_of(param_str);
        find_assign_chars(&v)
    }

    /// Parses the parameter list found between the outer parentheses of a
    /// whole signature string.
    pub fn parse_parameters_from_signature(&self, signature: &str) -> (r: Vec<Parameter>)
        ensures
            r@.len() == spec_sig_param_segs(signature@).len(),
            forall|k: int|
                0 <= k < r@.len() ==> param_matches(
                    r@[k],
                    spec_parse_parameter(spec_sig_param_segs(signature@)[k]),
                ),
    {
        let v = chars_of(signature);
        let n = v.len();
        let a: usize = match crate::strutil::find_char(&v, '(', 0) {
            Some(i) => i,
            None => 0,
        };
        let b: usize = match crate::strutil::rfind_char_exec(&v, ')') {
            Some(i) => {
                proof {
                    crate::strutil::lemma_rfind_char(v@, ')');
                }
                i
            },
            None => n,
        };
        if a >= b {
            let r: Vec<Parameter> = Vec::new();
            return r;
        }
        proof {
            if a > 0 {
                crate::strutil::lemma_find_char_from(v@, '(', 0);
            }
        }
        let inner = subvec(&v, a + 1, b);
        let segs = split_params_chars(&inner);
        let m = segs.len();
        let mut r: Vec<Parameter> = Vec::new();
        let mut i: usize = 0;
        while i < m
            invariant
                i <= m == segs@.len(),
                segs@.len() == spec_sig_param_segs(v@).len(),
                forall|k: int| 0 <= k < m ==> segs@[k]@ == spec_sig_param_segs(v@)[k],
                r@.len() == i,
                forall|k: int|
                    0 <= k < i ==> param_matches(
                        r@[k],
                        spec_parse_parameter(spec_sig_param_segs(v@)[k]),
                    ),
            decreases m - i,
        {
            r.push(parse_parameter_chars(&segs[i]));
            i += 1;
        }
        r
    }
}

/// Splits a character vector into its trimmed, non-empty top-level
/// comma-separated segments.
pub fn split_params_chars(v: &Vec<char>) -> (r: Vec<Vec<char>>)
    ensures
        r@.len() == spec_split_params(v@).len(),
        forall|k: int| 0 <= k < r@.len() ==> r@[k]@ == spec_split_params(v@)[k],
{
    let n = v.len();
    let mut sc = Scanner::new();
    let mut cur: Vec<char> = Vec::new();
    let mut out: Vec<Vec<char>> = Vec::new();
    let ghost mut gacc: Seq<Seq<char>> = Seq::empty();
    let mut i: usize = 0;
    proof {
        assert(v@.subrange(0, n as int) =~= v@);
    }
    while i < n
        invariant
            i <= n == v@.len(),
            -(i as int) <= sc.depth <= i as int,
            -(i as int) <= sc.angle <= i as int,
            gacc.len() == out@.len(),
            forall|k: int| 0 <= k < gacc.len() ==> out@[k]@ == gacc[k],
            spec_split_params(v@) == split_rec(
                v@.subrange(i as int, n as int),
                sc.abstracted(),
                cur@,
                gacc,
            ),
        decreases n - i,
    {
        let c = v[i];
        proof {
            assert(v@.subrange(i as int, n as int)[0] == v@[i as int]);
            assert(v@.subrange(i as int, n as int).drop_first() =~= v@.subrange(
                i + 1 as int,
                n as int,
            ));
        }
        if c == ',' && sc.at_top() {
            let t = trimmed(&cur);
            if t.len() > 0 {
                proof {
                    gacc = gacc.push(t@);
                }
                out.push(t);
            }
            cur = Vec::new();
            sc.step(c);
            proof {
                assert(cur@ =~= Seq::<char>::empty());
            }
        } else {
            sc.step(c);
            cur.push(c);
        }
        i += 1;
    }
    proof {
        assert(v@.subrange(n as int, n as int) =~= Seq::<char>::empty());
    }
    let t = trimmed(&cur);
    if t.len() > 0 {
        proof {
            gacc = gacc.push(t@);
        }
        out.push(t);
    }
    out
}

} // verus!
