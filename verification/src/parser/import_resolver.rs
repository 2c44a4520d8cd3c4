//! The import-chain resolver: locates a symbol's definition by searching
//! the current module, probing conventional submodule locations, following
//! import and re-export statements across modules, and finally consulting
//! a small fixed table of well-known signatures.
//!
//! The resolver performs no file access itself.  A resolution is a
//! [`ResolveSession`]: the session emits [`Request`]s (parse this module,
//! list the `lib` directory), the caller performs them and feeds the plain
//! results back, and every step is verified — including that any run
//! terminates, by an explicit hop budget that fails closed.

use vstd::prelude::*;
use crate::module_info::{
    clone_opt_string, clone_params, NodeModuleInfo, SignatureInfo, SignatureKind,
};
use crate::parser::ast_parser::{view_of_parameter, ParamView};
use crate::strutil::{
    chars_of, find_char_from, has_sub, push_all, push_str_chars, rfind_char,
    rfind_char_exec, spec_ends_with, spec_lower, spec_replace, spec_starts_with, spec_trim,
    subvec, to_string_of, trimmed, contains_sub, find_sub, lower_chars, replace_chars,
    starts_with_sub, eq_str,
};

verus! {

// ---------------------------------------------------------------------
// Signatures at the view level.
// ---------------------------------------------------------------------

/// The view-level contents of a [`SignatureInfo`].
pub struct SigView {
    pub name: Seq<char>,
    pub kind: SignatureKind,
    pub params: Seq<ParamView>,
    pub ret: Option<Seq<char>>,
    pub doc: Option<Seq<char>>,
}

pub open spec fn view_of_sig(s: SignatureInfo) -> SigView {
    SigView {
        name: s.name@,
        kind: s.kind,
        params: s.parameters@.map_values(|p: crate::module_info::Parameter| view_of_parameter(p)),
        ret: match s.return_type {
            Some(t) => Some(t@),
            None => None,
        },
        doc: match s.doc_comment {
            Some(d) => Some(d@),
            None => None,
        },
    }
}

pub open spec fn opt_view(o: Option<String>) -> Option<Seq<char>> {
    match o {
        Some(s) => Some(s@),
        None => None,
    }
}

// ---------------------------------------------------------------------
// Searching one module record.
// ---------------------------------------------------------------------

pub open spec fn find_fn_idx(fns: Seq<crate::module_info::FunctionInfo>, name: Seq<char>, i: int)
    -> Option<int>
    recommends
        0 <= i,
    decreases fns.len() - i + 1,
{
    if i < 0 || i >= fns.len() {
        None
    } else if fns[i].name@ == name {
        Some(i)
    } else {
        find_fn_idx(fns, name, i + 1)
    }
}

pub open spec fn find_const_idx(cs: Seq<crate::module_info::ConstantInfo>, name: Seq<char>, i: int)
    -> Option<int>
    recommends
        0 <= i,
    decreases cs.len() - i + 1,
{
    if i < 0 || i >= cs.len() {
        None
    } else if cs[i].name@ == name {
        Some(i)
    } else {
        find_const_idx(cs, name, i + 1)
    }
}

/// The signature a function match yields.
pub open spec fn sig_of_function(f: crate::module_info::FunctionInfo) -> SigView {
    SigView {
        name: f.name@,
        kind: SignatureKind::Function,
        params: f.parameters@.map_values(|p: crate::module_info::Parameter| view_of_parameter(p)),
        ret: opt_view(f.return_type),
        doc: opt_view(f.doc_comment),
    }
}

/// The signature a class match yields: a constructor-kind signature whose
/// return type is the class name; without an explicit constructor the
/// parameter list is empty.
pub open spec fn sig_of_class(c: crate::module_info::ClassInfo) -> SigView {
    SigView {
        name: c.name@,
        kind: SignatureKind::Constructor,
        params: match c.constructor {
            Some(ctor) => ctor.parameters@.map_values(
                |p: crate::module_info::Parameter| view_of_parameter(p),
            ),
            None => Seq::empty(),
        },
        ret: Some(c.name@),
        doc: opt_view(c.doc_comment),
    }
}

/// The signature a method match yields: named `Class.method`.
pub open spec fn sig_of_method(
    c: crate::module_info::ClassInfo,
    m: crate::module_info::FunctionInfo,
) -> SigView {
    SigView {
        name: c.name@ + seq!['.'] + m.name@,
        kind: SignatureKind::Method,
        params: m.parameters@.map_values(|p: crate::module_info::Parameter| view_of_parameter(p)),
        ret: opt_view(m.return_type),
        doc: opt_view(m.doc_comment),
    }
}

/// The signature a constant match yields: function-kind with no
/// parameters (a deliberate simplification).
pub open spec fn sig_of_constant(c: crate::module_info::ConstantInfo) -> SigView {
    SigView {
        name: c.name@,
        kind: SignatureKind::Function,
        params: Seq::empty(),
        ret: opt_view(c.value_type),
        doc: opt_view(c.doc_comment),
    }
}

/// Searching the classes: a class name match yields its constructor
/// signature; otherwise the class's methods are searched; then the next
/// class.
pub open spec fn find_class_sig(cs: Seq<crate::module_info::ClassInfo>, name: Seq<char>, i: int)
    -> Option<SigView>
    recommends
        0 <= i,
    decreases cs.len() - i + 1,
{
    if i < 0 || i >= cs.len() {
        None
    } else if cs[i].name@ == name {
        Some(sig_of_class(cs[i]))
    } else {
        match find_fn_idx(cs[i].methods@, name, 0) {
            Some(j) => Some(sig_of_method(cs[i], cs[i].methods@[j])),
            None => find_class_sig(cs, name, i + 1),
        }
    }
}

/// The search order of one module: functions, then classes (names and
/// methods), then constants; the first exact name match wins.
pub open spec fn spec_find_symbol(m: NodeModuleInfo, name: Seq<char>) -> Option<SigView> {
    match find_fn_idx(m.functions@, name, 0) {
        Some(i) => Some(sig_of_function(m.functions@[i])),
        None => match find_class_sig(m.classes@, name, 0) {
            Some(s) => Some(s),
            None => match find_const_idx(m.constants@, name, 0) {
                Some(i) => Some(sig_of_constant(m.constants@[i])),
                None => None,
            },
        },
    }
}

pub proof fn lemma_find_fn_idx(fns: Seq<crate::module_info::FunctionInfo>, name: Seq<char>, i: int)
    requires
        0 <= i,
    ensures
        match find_fn_idx(fns, name, i) {
            Some(j) => i <= j < fns.len() && fns[j].name@ == name && forall|k: int|
                i <= k < j ==> fns[k].name@ != name,
            None => forall|k: int| i <= k < fns.len() ==> fns[k].name@ != name,
        },
    decreases fns.len() - i + 1,
{
    if 0 <= i < fns.len() && fns[i].name@ != name {
        lemma_find_fn_idx(fns, name, i + 1);
    }
}

pub proof fn lemma_find_const_idx(
    cs: Seq<crate::module_info::ConstantInfo>,
    name: Seq<char>,
    i: int,
)
    requires
        0 <= i,
    ensures
        match find_const_idx(cs, name, i) {
            Some(j) => i <= j < cs.len() && cs[j].name@ == name && forall|k: int|
                i <= k < j ==> cs[k].name@ != name,
            None => forall|k: int| i <= k < cs.len() ==> cs[k].name@ != name,
        },
    decreases cs.len() - i + 1,
{
    if 0 <= i < cs.len() && cs[i].name@ != name {
        lemma_find_const_idx(cs, name, i + 1);
    }
}

/// Copies the signature a function match yields.
fn make_fn_sig(f: &crate::module_info::FunctionInfo) -> (r: SignatureInfo)
    ensures
        view_of_sig(r) == sig_of_function(*f),
{
    SignatureInfo {
        name: f.name.clone(),
        kind: SignatureKind::Function,
        parameters: clone_params(&f.parameters),
        return_type: clone_opt_string(&f.return_type),
        doc_comment: clone_opt_string(&f.doc_comment),
    }
}

fn make_class_sig(c: &crate::module_info::ClassInfo) -> (r: SignatureInfo)
    ensures
        view_of_sig(r) == sig_of_class(*c),
{
    let r = SignatureInfo {
        name: c.name.clone(),
        kind: SignatureKind::Constructor,
        parameters: match &c.constructor {
            Some(ctor) => clone_params(&ctor.parameters),
            None => Vec::new(),
        },
        return_type: Some(c.name.clone()),
        doc_comment: clone_opt_string(&c.doc_comment),
    };
    proof {
        if c.constructor is None {
            assert(r.parameters@.map_values(
                |p: crate::module_info::Parameter| view_of_parameter(p),
            ) =~= Seq::<ParamView>::empty());
        }
    }
    r
}

fn make_method_sig(
    c: &crate::module_info::ClassInfo,
    m: &crate::module_info::FunctionInfo,
) -> (r: SignatureInfo)
    ensures
        view_of_sig(r) == sig_of_method(*c, *m),
{
    let mut nv = chars_of(c.name.as_str());
    nv.push('.');
    let mv = chars_of(m.name.as_str());
    push_all(&mut nv, &mv);
    proof {
        assert(nv@ =~= c.name@ + seq!['.'] + m.name@);
    }
    SignatureInfo {
        name: to_string_of(&nv),
        kind: SignatureKind::Method,
        parameters: clone_params(&m.parameters),
        return_type: clone_opt_string(&m.return_type),
        doc_comment: clone_opt_string(&m.doc_comment),
    }
}

fn make_const_sig(c: &crate::module_info::ConstantInfo) -> (r: SignatureInfo)
    ensures
        view_of_sig(r) == sig_of_constant(*c),
{
    let r = SignatureInfo {
        name: c.name.clone(),
        kind: SignatureKind::Function,
        parameters: Vec::new(),
        return_type: clone_opt_string(&c.value_type),
        doc_comment: clone_opt_string(&c.doc_comment),
    };
    proof {
        assert(r.parameters@.map_values(|p: crate::module_info::Parameter| view_of_parameter(p))
            =~= Seq::<ParamView>::empty());
    }
    r
}

/// Searches a module record for an exact, case-sensitive name match among
/// its functions, classes (names and methods) and constants, producing
/// the matching signature.
pub fn find_symbol_in_module(m: &NodeModuleInfo, symbol: &str) -> (r: Option<SignatureInfo>)
    ensures
        match r {
            Some(sig) => spec_find_symbol(*m, symbol@) == Some(view_of_sig(sig)),
            None => spec_find_symbol(*m, symbol@) is None,
        },
{
    let sv = chars_of(symbol);
    // functions
    let nf = m.functions.len();
    let mut i: usize = 0;
    while i < nf
        invariant
            i <= nf == m.functions@.len(),
            sv@ == symbol@,
            forall|k: int| 0 <= k < i ==> m.functions@[k].name@ != symbol@,
        decreases nf - i,
    {
        if eq_str(&sv, m.functions[i].name.as_str()) {
            proof {
                lemma_find_fn_idx(m.functions@, symbol@, 0);
                match find_fn_idx(m.functions@, symbol@, 0) {
                    Some(j) => {
                        if j < i as int {
                            assert(false);
                        }
                        if j > i as int {
                            assert(m.functions@[i as int].name@ != symbol@);
                            assert(false);
                        }
                    },
                    None => {
                        assert(m.functions@[i as int].name@ != symbol@);
                        assert(false);
                    },
                }
            }
            return Some(make_fn_sig(&m.functions[i]));
        }
        i += 1;
    }
    proof {
        lemma_find_fn_idx(m.functions@, symbol@, 0);
        match find_fn_idx(m.functions@, symbol@, 0) {
            Some(j) => {
                assert(m.functions@[j].name@ == symbol@);
                assert(false);
            },
            None => {},
        }
    }
    // classes
    let nc = m.classes.len();
    let mut ci: usize = 0;
    while ci < nc
        invariant
            ci <= nc == m.classes@.len(),
            sv@ == symbol@,
            find_fn_idx(m.functions@, symbol@, 0) is None,
            find_class_sig(m.classes@, symbol@, 0) == find_class_sig(
                m.classes@,
                symbol@,
                ci as int,
            ),
        decreases nc - ci,
    {
        let c = &m.classes[ci];
        if eq_str(&sv, c.name.as_str()) {
            return Some(make_class_sig(c));
        }
        let nm = c.methods.len();
        let mut mi: usize = 0;
        while mi < nm
            invariant
                mi <= nm == c.methods@.len(),
                sv@ == symbol@,
                ci < nc == m.classes@.len(),
                *c == m.classes@[ci as int],
                c.name@ != symbol@,
                find_fn_idx(m.functions@, symbol@, 0) is None,
                find_class_sig(m.classes@, symbol@, 0) == find_class_sig(
                    m.classes@,
                    symbol@,
                    ci as int,
                ),
                forall|k: int| 0 <= k < mi ==> c.methods@[k].name@ != symbol@,
            decreases nm - mi,
        {
            if eq_str(&sv, c.methods[mi].name.as_str()) {
                proof {
                    lemma_find_fn_idx(c.methods@, symbol@, 0);
                    match find_fn_idx(c.methods@, symbol@, 0) {
                        Some(j) => {
                            if j < mi as int {
                                assert(false);
                            }
                            if j > mi as int {
                                assert(c.methods@[mi as int].name@ != symbol@);
                                assert(false);
                            }
                        },
                        None => {
                            assert(c.methods@[mi as int].name@ != symbol@);
                            assert(false);
                        },
                    }
                    assert(find_class_sig(m.classes@, symbol@, ci as int) == Some(
                        sig_of_method(m.classes@[ci as int], c.methods@[mi as int]),
                    ));
                }
                return Some(make_method_sig(c, &c.methods[mi]));
            }
            mi += 1;
        }
        proof {
            lemma_find_fn_idx(c.methods@, symbol@, 0);
            match find_fn_idx(c.methods@, symbol@, 0) {
                Some(j) => {
                    assert(c.methods@[j].name@ == symbol@);
                    assert(false);
                },
                None => {},
            }
            assert(find_class_sig(m.classes@, symbol@, ci as int) == find_class_sig(
                m.classes@,
                symbol@,
                ci + 1 as int,
            ));
        }
        ci += 1;
    }
    // constants
    let nk = m.constants.len();
    let mut ki: usize = 0;
    while ki < nk
        invariant
            ki <= nk == m.constants@.len(),
            sv@ == symbol@,
            find_fn_idx(m.functions@, symbol@, 0) is None,
            find_class_sig(m.classes@, symbol@, 0) is None,
            forall|k: int| 0 <= k < ki ==> m.constants@[k].name@ != symbol@,
        decreases nk - ki,
    {
        if eq_str(&sv, m.constants[ki].name.as_str()) {
            proof {
                lemma_find_const_idx(m.constants@, symbol@, 0);
                match find_const_idx(m.constants@, symbol@, 0) {
                    Some(j) => {
                        if j < ki as int {
                            assert(false);
                        }
                        if j > ki as int {
                            assert(m.constants@[ki as int].name@ != symbol@);
                            assert(false);
                        }
                    },
                    None => {
                        assert(m.constants@[ki as int].name@ != symbol@);
                        assert(false);
                    },
                }
            }
            return Some(make_const_sig(&m.constants[ki]));
        }
        ki += 1;
    }
    proof {
        lemma_find_const_idx(m.constants@, symbol@, 0);
        match find_const_idx(m.constants@, symbol@, 0) {
            Some(j) => {
                assert(m.constants@[j].name@ == symbol@);
                assert(false);
            },
            None => {},
        }
    }
    None
}

// ---------------------------------------------------------------------
// Imports: heuristic re-parsing of raw import statement texts.
// ---------------------------------------------------------------------

/// Information about one import statement.
pub struct ImportInfo {
    /// The module specifier, e.g. `./router`.
    pub from_module: Option<String>,
    /// The imported symbol name.
    pub import_name: String,
    /// The local alias, currently never set.
    pub as_name: Option<String>,
    /// The specifier begins with `.`.
    pub is_relative: bool,
}

/// The view-level contents of an [`ImportInfo`].
pub struct ImportView {
    pub from_module: Option<Seq<char>>,
    pub import_name: Seq<char>,
    pub as_name: Option<Seq<char>>,
    pub is_relative: bool,
}

pub open spec fn view_of_import(i: ImportInfo) -> ImportView {
    ImportView {
        from_module: opt_view(i.from_module),
        import_name: i.import_name@,
        as_name: opt_view(i.as_name),
        is_relative: i.is_relative,
    }
}

pub open spec fn from_pat() -> Seq<char> {
    seq![' ', 'f', 'r', 'o', 'm', ' ']
}

pub open spec fn require_pat() -> Seq<char> {
    seq!['r', 'e', 'q', 'u', 'i', 'r', 'e', '(']
}

pub open spec fn require_q_pat() -> Seq<char> {
    seq!['r', 'e', 'q', 'u', 'i', 'r', 'e', '(', '\'']
}

/// Parsing one raw import statement for a symbol.
///
/// An ES-module import (`... from 'specifier'`) whose import part holds
/// the symbol yields the specifier, trimmed of whitespace and quotes;
/// otherwise a CommonJS `require('specifier')` in a statement holding the
/// symbol yields the specifier between the single quotes.  The specifier
/// is relative when it begins with `.`.
pub open spec fn spec_parse_import(stmt: Seq<char>, symbol: Seq<char>) -> Option<ImportView> {
    let from = crate::strutil::spec_find(stmt, from_pat());
    if from is Some && has_sub(stmt.subrange(0, from->Some_0), symbol) {
        let fp = from->Some_0;
        let raw = stmt.subrange(fp + 6, stmt.len() as int);
        let mp = crate::strutil::spec_trim_char(
            crate::strutil::spec_trim_char(spec_trim(raw), '"'),
            '\'',
        );
        Some(
            ImportView {
                from_module: Some(mp),
                import_name: symbol,
                as_name: None,
                is_relative: mp.len() > 0 && mp[0] == '.',
            },
        )
    } else if has_sub(stmt, require_pat()) && has_sub(stmt, symbol) {
        match crate::strutil::spec_find(stmt, require_q_pat()) {
            Some(rp) => {
                let ms = rp + 9;
                match find_char_from(stmt, '\'', ms) {
                    Some(e) => {
                        let mp = stmt.subrange(ms, e);
                        Some(
                            ImportView {
                                from_module: Some(mp),
                                import_name: symbol,
                                as_name: None,
                                is_relative: mp.len() > 0 && mp[0] == '.',
                            },
                        )
                    },
                    None => None,
                }
            },
            None => None,
        }
    } else {
        None
    }
}

fn pat_from() -> (v: Vec<char>)
    ensures
        v@ == from_pat(),
{
    let mut v: Vec<char> = Vec::new();
    v.push(' ');
    v.push('f');
    v.push('r');
    v.push('o');
    v.push('m');
    v.push(' ');
    proof {
        assert(v@ =~= from_pat());
    }
    v
}

fn pat_require() -> (v: Vec<char>)
    ensures
        v@ == require_pat(),
{
    let mut v: Vec<char> = Vec::new();
    v.push('r');
    v.push('e');
    v.push('q');
    v.push('u');
    v.push('i');
    v.push('r');
    v.push('e');
    v.push('(');
    proof {
        assert(v@ =~= require_pat());
    }
    v
}

fn pat_require_q() -> (v: Vec<char>)
    ensures
        v@ == require_q_pat(),
{
    let mut v = pat_require();
    v.push('\'');
    proof {
        assert(v@ =~= require_q_pat());
    }
    v
}

/// Builds an [`ImportInfo`] for a specifier given as characters.
fn import_of_specifier(mp: &Vec<char>, symbol: &str) -> (r: ImportInfo)
    ensures
        view_of_import(r) == (ImportView {
            from_module: Some(mp@),
            import_name: symbol@,
            as_name: None,
            is_relative: mp@.len() > 0 && mp@[0] == '.',
        }),
{
    let is_relative = mp.len() > 0 && mp[0] == '.';
    ImportInfo {
        from_module: Some(to_string_of(mp)),
        import_name: crate::strutil::str_to_string(symbol),
        as_name: None,
        is_relative,
    }
}

/// Parses an import statement to extract import information for `symbol`.
pub fn parse_import_statement(stmt: &str, symbol: &str) -> (r: Option<ImportInfo>)
    ensures
        match r {
            Some(ii) => spec_parse_import(stmt@, symbol@) == Some(view_of_import(ii)),
            None => spec_parse_import(stmt@, symbol@) is None,
        },
{
    let v = chars_of(stmt);
    let sv = chars_of(symbol);
    let n = v.len();
    let fpat = pat_from();
    match find_sub(&v, &fpat) {
        Some(fp) => {
            proof {
                crate::strutil::lemma_find_from(v@, from_pat(), 0);
            }
            let import_part = subvec(&v, 0, fp);
            if contains_sub(&import_part, &sv) {
                let raw = subvec(&v, fp + 6, n);
                let t0 = trimmed(&raw);
                let t1 = crate::strutil::trim_char_ends(&t0, '"');
                let mp = crate::strutil::trim_char_ends(&t1, '\'');
                return Some(import_of_specifier(&mp, symbol));
            }
            parse_require_part(&v, &sv, symbol)
        },
        None => parse_require_part(&v, &sv, symbol),
    }
}

/// The CommonJS half of [`parse_import_statement`].
fn parse_require_part(v: &Vec<char>, sv: &Vec<char>, symbol: &str) -> (r: Option<ImportInfo>)
    requires
        sv@ == symbol@,
        !(crate::strutil::spec_find(v@, from_pat()) is Some && has_sub(
            v@.subrange(0, crate::strutil::spec_find(v@, from_pat())->Some_0),
            symbol@,
        )),
    ensures
        match r {
            Some(ii) => spec_parse_import(v@, symbol@) == Some(view_of_import(ii)),
            None => spec_parse_import(v@, symbol@) is None,
        },
{
    let n = v.len();
    let rpat = pat_require();
    let rqpat = pat_require_q();
    if contains_sub(v, &rpat) && contains_sub(v, sv) {
        match find_sub(v, &rqpat) {
            Some(rp) => {
                proof {
                    crate::strutil::lemma_find_from(v@, require_q_pat(), 0);
                }
                let ms = rp + 9;
                match crate::strutil::find_char(v, '\'', ms) {
                    Some(e) => {
                        proof {
                            crate::strutil::lemma_find_char_from(v@, '\'', ms as int);
                        }
                        let mp = subvec(v, ms, e);
                        Some(import_of_specifier(&mp, symbol))
                    },
                    None => None,
                }
            },
            None => None,
        }
    } else {
        None
    }
}

/// First import text that holds the symbol and parses.
pub open spec fn find_import_idx(imps: Seq<String>, sym: Seq<char>, i: int) -> Option<int>
    recommends
        0 <= i,
    decreases imps.len() - i + 1,
{
    if i < 0 || i >= imps.len() {
        None
    } else if has_sub(imps[i]@, sym) && spec_parse_import(imps[i]@, sym) is Some {
        Some(i)
    } else {
        find_import_idx(imps, sym, i + 1)
    }
}

pub open spec fn spec_find_import(m: NodeModuleInfo, sym: Seq<char>) -> Option<ImportView> {
    match find_import_idx(m.imports@, sym, 0) {
        Some(i) => spec_parse_import(m.imports@[i]@, sym),
        None => None,
    }
}

pub proof fn lemma_find_import_idx(imps: Seq<String>, sym: Seq<char>, i: int)
    requires
        0 <= i,
    ensures
        match find_import_idx(imps, sym, i) {
            Some(j) => i <= j < imps.len() && has_sub(imps[j]@, sym) && spec_parse_import(
                imps[j]@,
                sym,
            ) is Some && forall|k: int|
                i <= k < j ==> !(has_sub(imps[k]@, sym) && spec_parse_import(
                    imps[k]@,
                    sym,
                ) is Some),
            None => forall|k: int|
                i <= k < imps.len() ==> !(has_sub(imps[k]@, sym) && spec_parse_import(
                    imps[k]@,
                    sym,
                ) is Some),
        },
    decreases imps.len() - i + 1,
{
    if 0 <= i < imps.len() && !(has_sub(imps[i]@, sym) && spec_parse_import(imps[i]@, sym)
        is Some) {
        lemma_find_import_idx(imps, sym, i + 1);
    }
}

/// Scans a module's raw import texts for one that holds the symbol and
/// parses as an import of it.
pub fn find_import_for_symbol(m: &NodeModuleInfo, symbol: &str) -> (r: Option<ImportInfo>)
    ensures
        match r {
            Some(ii) => spec_find_import(*m, symbol@) == Some(view_of_import(ii)),
            None => spec_find_import(*m, symbol@) is None,
        },
{
    let sv = chars_of(symbol);
    let n = m.imports.len();
    let mut i: usize = 0;
    while i < n
        invariant
            i <= n == m.imports@.len(),
            sv@ == symbol@,
            forall|k: int|
                0 <= k < i ==> !(has_sub(m.imports@[k]@, symbol@) && spec_parse_import(
                    m.imports@[k]@,
                    symbol@,
                ) is Some),
        decreases n - i,
    {
        let text = chars_of(m.imports[i].as_str());
        if contains_sub(&text, &sv) {
            match parse_import_statement(m.imports[i].as_str(), symbol) {
                Some(ii) => {
                    proof {
                        lemma_find_import_idx(m.imports@, symbol@, 0);
                        match find_import_idx(m.imports@, symbol@, 0) {
                            Some(j) => {
                                if j < i as int {
                                    assert(false);
                                }
                                if j > i as int {
                                    assert(!(has_sub(m.imports@[i as int]@, symbol@)
                                        && spec_parse_import(m.imports@[i as int]@, symbol@)
                                        is Some));
                                    assert(false);
                                }
                            },
                            None => {
                                assert(!(has_sub(m.imports@[i as int]@, symbol@)
                                    && spec_parse_import(m.imports@[i as int]@, symbol@) is Some));
                                assert(false);
                            },
                        }
                    }
                    return Some(ii);
                },
                None => {},
            }
        }
        i += 1;
    }
    proof {
        lemma_find_import_idx(m.imports@, symbol@, 0);
        match find_import_idx(m.imports@, symbol@, 0) {
            Some(j) => {
                assert(!(has_sub(m.imports@[j]@, symbol@) && spec_parse_import(
                    m.imports@[j]@,
                    symbol@,
                ) is Some));
                assert(false);
            },
            None => {},
        }
    }
    None
}

// ---------------------------------------------------------------------
// Module paths.
// ---------------------------------------------------------------------

/// The directory of a module path: everything before its last component,
/// with dots read as separators; the package root for a bare name.
pub open spec fn parent_dir(current: Seq<char>) -> Seq<char> {
    if current.len() == 0 {
        Seq::empty()
    } else {
        let slashed = spec_replace(current, '.', '/');
        match rfind_char(slashed, '/') {
            Some(i) => slashed.subrange(0, i),
            None => Seq::empty(),
        }
    }
}

/// `s` with every leading `./` removed.
pub open spec fn drop_dotslash(s: Seq<char>) -> Seq<char>
    decreases s.len(),
{
    if s.len() >= 2 && s[0] == '.' && s[1] == '/' {
        drop_dotslash(s.subrange(2, s.len() as int))
    } else {
        s
    }
}

/// Resolving an import specifier against the current module: a relative
/// specifier is joined to the current module's directory and expressed
/// dot-separated; a bare specifier is used as-is.
pub open spec fn spec_resolve_import_path(
    current: Seq<char>,
    from_module: Option<Seq<char>>,
    is_relative: bool,
) -> Option<Seq<char>> {
    match from_module {
        Some(fm) => if is_relative {
            let dir = parent_dir(current);
            let stripped = drop_dotslash(fm);
            let joined = if dir.len() == 0 {
                stripped
            } else {
                dir + seq!['/'] + stripped
            };
            Some(spec_replace(joined, '/', '.'))
        } else {
            Some(fm)
        },
        None => None,
    }
}

/// Resolves an import specifier to a module path within the same package.
pub fn resolve_import_path(current_module: &str, import_info: &ImportInfo) -> (r: Option<String>)
    ensures
        match r {
            Some(p) => spec_resolve_import_path(
                current_module@,
                opt_view(import_info.from_module),
                import_info.is_relative,
            ) == Some(p@),
            None => spec_resolve_import_path(
                current_module@,
                opt_view(import_info.from_module),
                import_info.is_relative,
            ) is None,
        },
{
    match &import_info.from_module {
        Some(fm) => {
            if import_info.is_relative {
                let cur = chars_of(current_module);
                let dir: Vec<char> = if cur.len() == 0 {
                    Vec::new()
                } else {
                    let slashed = replace_chars(&cur, '.', '/');
                    match rfind_char_exec(&slashed, '/') {
                        Some(i) => {
                            proof {
                                crate::strutil::lemma_rfind_char(slashed@, '/');
                            }
                            subvec(&slashed, 0, i)
                        },
                        None => Vec::new(),
                    }
                };
                proof {
                    assert(dir@ == parent_dir(current_module@));
                }
                let fmv = chars_of(fm.as_str());
                let fn_ = fmv.len();
                let mut start: usize = 0;
                proof {
                    assert(fmv@.subrange(0, fn_ as int) =~= fmv@);
                }
                while fn_ - start >= 2 && fmv[start] == '.' && fmv[start + 1] == '/'
                    invariant
                        start <= fn_ == fmv@.len(),
                        drop_dotslash(fmv@) == drop_dotslash(
                            fmv@.subrange(start as int, fn_ as int),
                        ),
                    decreases fn_ - start,
                {
                    proof {
                        let rem = fmv@.subrange(start as int, fn_ as int);
                        assert(rem[0] == fmv@[start as int]);
                        assert(rem[1] == fmv@[start + 1]);
                        assert(rem.subrange(2, rem.len() as int) =~= fmv@.subrange(
                            start + 2 as int,
                            fn_ as int,
                        ));
                    }
                    start += 2;
                }
                proof {
                    let rem = fmv@.subrange(start as int, fn_ as int);
                    assert(!(rem.len() >= 2 && rem[0] == '.' && rem[1] == '/')) by {
                        if rem.len() >= 2 {
                            assert(rem[0] == fmv@[start as int]);
                            assert(rem[1] == fmv@[start + 1]);
                        }
                    }
                    assert(drop_dotslash(fmv@) == rem);
                }
                let stripped = subvec(&fmv, start, fn_);
                let mut joined: Vec<char>;
                if dir.len() == 0 {
                    joined = stripped;
                } else {
                    joined = dir;
                    joined.push('/');
                    push_all(&mut joined, &stripped);
                    proof {
                        assert(joined@ =~= parent_dir(current_module@) + seq!['/'] + drop_dotslash(
                            fm@,
                        ));
                    }
                }
                let dotted = replace_chars(&joined, '/', '.');
                Some(to_string_of(&dotted))
            } else {
                Some(fm.clone())
            }
        },
        None => None,
    }
}

// ---------------------------------------------------------------------
// The fixed table of hand-written fallback signatures.
// ---------------------------------------------------------------------

/// The fallback table, keyed by `(module path, symbol)`: `express`'s
/// `Router` and `Express`, `react`'s `useState` and `useEffect`, and a
/// generic variadic signature for any symbol of a `lodash` module path.
pub open spec fn spec_smart_signature(mp: Seq<char>, sym: Seq<char>) -> Option<SigView> {
    if mp == "express"@ && sym == "Router"@ {
        Some(
            SigView {
                name: "Router"@,
                kind: SignatureKind::Constructor,
                params: Seq::empty(),
                ret: Some("Router"@),
                doc: Some("Express router constructor"@),
            },
        )
    } else if mp == "express"@ && sym == "Express"@ {
        Some(
            SigView {
                name: "Express"@,
                kind: SignatureKind::Function,
                params: Seq::empty(),
                ret: Some("Application"@),
                doc: Some("Express application factory"@),
            },
        )
    } else if mp == "react"@ && sym == "useState"@ {
        Some(
            SigView {
                name: "useState"@,
                kind: SignatureKind::Function,
                params: seq![
                    (ParamView {
                        name: "initialState"@,
                        ty: Some("T"@),
                        optional: false,
                        rest: false,
                        dflt: None,
                    }),
                ],
                ret: Some("[T, Dispatch<SetStateAction<T>>]"@),
                doc: Some("React state hook"@),
            },
        )
    } else if mp == "react"@ && sym == "useEffect"@ {
        Some(
            SigView {
                name: "useEffect"@,
                kind: SignatureKind::Function,
                params: seq![
                    (ParamView {
                        name: "effect"@,
                        ty: Some("EffectCallback"@),
                        optional: false,
                        rest: false,
                        dflt: None,
                    }),
                    (ParamView {
                        name: "deps"@,
                        ty: Some("DependencyList"@),
                        optional: true,
                        rest: false,
                        dflt: None,
                    }),
                ],
                ret: Some("void"@),
                doc: Some("React effect hook"@),
            },
        )
    } else if spec_starts_with(mp, "lodash"@) {
        Some(
            SigView {
                name: sym,
                kind: SignatureKind::Function,
                params: seq![
                    (ParamView {
                        name: "args"@,
                        ty: Some("any[]"@),
                        optional: false,
                        rest: true,
                        dflt: None,
                    }),
                ],
                ret: Some("any"@),
                doc: Some("Lodash "@ + sym + " function"@),
            },
        )
    } else {
        None
    }
}

fn make_plain_param(name: &str, ty: &str, optional: bool, rest: bool) -> (r:
    crate::module_info::Parameter)
    ensures
        view_of_parameter(r) == (ParamView {
            name: name@,
            ty: Some(ty@),
            optional,
            rest,
            dflt: None,
        }),
{
    crate::module_info::Parameter {
        name: crate::strutil::str_to_string(name),
        param_type: Some(crate::strutil::str_to_string(ty)),
        is_optional: optional,
        is_rest: rest,
        default_value: None,
    }
}

/// Produces the hand-written fallback signature for well-known symbols
/// of well-known packages, if the table has one.
pub fn try_smart_signatures(mod_path: &str, symbol: &str) -> (r: Option<SignatureInfo>)
    ensures
        match r {
            Some(sig) => spec_smart_signature(mod_path@, symbol@) == Some(view_of_sig(sig)),
            None => spec_smart_signature(mod_path@, symbol@) is None,
        },
{
    let mp = chars_of(mod_path);
    let sv = chars_of(symbol);
    if eq_str(&mp, "express") && eq_str(&sv, "Router") {
        let r = SignatureInfo {
            name: crate::strutil::str_to_string("Router"),
            kind: SignatureKind::Constructor,
            parameters: Vec::new(),
            return_type: Some(crate::strutil::str_to_string("Router")),
            doc_comment: Some(crate::strutil::str_to_string("Express router constructor")),
        };
        proof {
            assert(r.parameters@.map_values(
                |p: crate::module_info::Parameter| view_of_parameter(p),
            ) =~= Seq::<ParamView>::empty());
        }
        Some(r)
    } else if eq_str(&mp, "express") && eq_str(&sv, "Express") {
        let r = SignatureInfo {
            name: crate::strutil::str_to_string("Express"),
            kind: SignatureKind::Function,
            parameters: Vec::new(),
            return_type: Some(crate::strutil::str_to_string("Application")),
            doc_comment: Some(crate::strutil::str_to_string("Express application factory")),
        };
        proof {
            assert(r.parameters@.map_values(
                |p: crate::module_info::Parameter| view_of_parameter(p),
            ) =~= Seq::<ParamView>::empty());
        }
        Some(r)
    } else if eq_str(&mp, "react") && eq_str(&sv, "useState") {
        let mut parameters: Vec<crate::module_info::Parameter> = Vec::new();
        parameters.push(make_plain_param("initialState", "T", false, false));
        let r = SignatureInfo {
            name: crate::strutil::str_to_string("useState"),
            kind: SignatureKind::Function,
            parameters,
            return_type: Some(crate::strutil::str_to_string("[T, Dispatch<SetStateAction<T>>]")),
            doc_comment: Some(crate::strutil::str_to_string("React state hook")),
        };
        proof {
            assert(r.parameters@.map_values(
                |p: crate::module_info::Parameter| view_of_parameter(p),
            ) =~= spec_smart_signature(mod_path@, symbol@)->Some_0.params);
        }
        Some(r)
    } else if eq_str(&mp, "react") && eq_str(&sv, "useEffect") {
        let mut parameters: Vec<crate::module_info::Parameter> = Vec::new();
        parameters.push(make_plain_param("effect", "EffectCallback", false, false));
        parameters.push(make_plain_param("deps", "DependencyList", true, false));
        let r = SignatureInfo {
            name: crate::strutil::str_to_string("useEffect"),
            kind: SignatureKind::Function,
            parameters,
            return_type: Some(crate::strutil::str_to_string("void")),
            doc_comment: Some(crate::strutil::str_to_string("React effect hook")),
        };
        proof {
            assert(r.parameters@.map_values(
                |p: crate::module_info::Parameter| view_of_parameter(p),
            ) =~= spec_smart_signature(mod_path@, symbol@)->Some_0.params);
        }
        Some(r)
    } else {
        let lodash = chars_of("lodash");
        if starts_with_sub(&mp, &lodash) {
            let mut parameters: Vec<crate::module_info::Parameter> = Vec::new();
            parameters.push(make_plain_param("args", "any[]", false, true));
            let mut doc = chars_of("Lodash ");
            push_all(&mut doc, &sv);
            push_str_chars(&mut doc, " function");
            let r = SignatureInfo {
                name: crate::strutil::str_to_string(symbol),
                kind: SignatureKind::Function,
                parameters,
                return_type: Some(crate::strutil::str_to_string("any")),
                doc_comment: Some(to_string_of(&doc)),
            };
            proof {
                assert(r.parameters@.map_values(
                    |p: crate::module_info::Parameter| view_of_parameter(p),
                ) =~= spec_smart_signature(mod_path@, symbol@)->Some_0.params);
            }
            Some(r)
        } else {
            None
        }
    }
}

// ---------------------------------------------------------------------
// Candidate files and probe locations.
// ---------------------------------------------------------------------

/// The candidate files for a module path, in the fixed try order: the
/// empty path and `.` map to the package index; any other path, with
/// dots read as separators, is tried as a file with each extension and
/// then as a directory's index file with each extension.
pub open spec fn spec_candidates(mp: Seq<char>) -> Seq<Seq<char>> {
    if mp.len() == 0 || mp == "."@ {
        seq!["index.js"@, "index.ts"@, "index.d.ts"@]
    } else {
        let base = spec_replace(mp, '.', '/');
        seq![
            base + ".js"@,
            base + ".ts"@,
            base + ".d.ts"@,
            base + "/index.js"@,
            base + "/index.ts"@,
            base + "/index.d.ts"@,
        ]
    }
}

/// Lists the candidate files for a module path, in try order.
pub fn module_file_candidates(mod_path: &str) -> (r: Vec<String>)
    ensures
        r@.len() == spec_candidates(mod_path@).len(),
        forall|k: int| 0 <= k < r@.len() ==> r@[k]@ == spec_candidates(mod_path@)[k],
{
    let v = chars_of(mod_path);
    let mut r: Vec<String> = Vec::new();
    if v.len() == 0 || eq_str(&v, ".") {
        r.push(crate::strutil::str_to_string("index.js"));
        r.push(crate::strutil::str_to_string("index.ts"));
        r.push(crate::strutil::str_to_string("index.d.ts"));
        proof {
            assert(spec_candidates(mod_path@).len() == 3);
            assert(r@[0]@ == spec_candidates(mod_path@)[0]);
            assert(r@[1]@ == spec_candidates(mod_path@)[1]);
            assert(r@[2]@ == spec_candidates(mod_path@)[2]);
        }
    } else {
        let base = replace_chars(&v, '.', '/');
        let n = base.len();
        let mut c0 = subvec(&base, 0, n);
        push_str_chars(&mut c0, ".js");
        r.push(to_string_of(&c0));
        let mut c1 = subvec(&base, 0, n);
        push_str_chars(&mut c1, ".ts");
        r.push(to_string_of(&c1));
        let mut c2 = subvec(&base, 0, n);
        push_str_chars(&mut c2, ".d.ts");
        r.push(to_string_of(&c2));
        let mut c3 = subvec(&base, 0, n);
        push_str_chars(&mut c3, "/index.js");
        r.push(to_string_of(&c3));
        let mut c4 = subvec(&base, 0, n);
        push_str_chars(&mut c4, "/index.ts");
        r.push(to_string_of(&c4));
        let mut c5 = subvec(&base, 0, n);
        push_str_chars(&mut c5, "/index.d.ts");
        r.push(to_string_of(&c5));
        proof {
            assert(base@ =~= spec_replace(mod_path@, '.', '/'));
            assert(base@.subrange(0, n as int) =~= base@);
            assert(spec_candidates(mod_path@).len() == 6);
            assert(r@[0]@ == spec_candidates(mod_path@)[0]);
            assert(r@[1]@ == spec_candidates(mod_path@)[1]);
            assert(r@[2]@ == spec_candidates(mod_path@)[2]);
            assert(r@[3]@ == spec_candidates(mod_path@)[3]);
            assert(r@[4]@ == spec_candidates(mod_path@)[4]);
            assert(r@[5]@ == spec_candidates(mod_path@)[5]);
        }
    }
    r
}

/// The fixed list of conventional submodule locations probed for a
/// symbol, in order.
pub open spec fn spec_probe_patterns(sym: Seq<char>) -> Seq<Seq<char>> {
    let lower = spec_lower(sym);
    seq![
        "lib/"@ + lower,
        "src/"@ + lower,
        lower,
        "lib/router"@,
        "lib/express"@,
        "router"@,
    ]
}

/// Lists the conventional submodule locations probed for a symbol.
pub fn probe_patterns(symbol: &str) -> (r: Vec<String>)
    ensures
        r@.len() == 6,
        forall|k: int| 0 <= k < 6 ==> r@[k]@ == spec_probe_patterns(symbol@)[k],
{
    let sv = chars_of(symbol);
    let lower = lower_chars(&sv);
    let ln = lower.len();
    let mut r: Vec<String> = Vec::new();
    let mut p0 = chars_of("lib/");
    push_all(&mut p0, &lower);
    r.push(to_string_of(&p0));
    let mut p1 = chars_of("src/");
    push_all(&mut p1, &lower);
    r.push(to_string_of(&p1));
    r.push(to_string_of(&lower));
    r.push(crate::strutil::str_to_string("lib/router"));
    r.push(crate::strutil::str_to_string("lib/express"));
    r.push(crate::strutil::str_to_string("router"));
    proof {
        assert(spec_probe_patterns(symbol@).len() == 6);
        assert(r@[0]@ == spec_probe_patterns(symbol@)[0]);
        assert(r@[1]@ == spec_probe_patterns(symbol@)[1]);
        assert(r@[2]@ == spec_probe_patterns(symbol@)[2]);
        assert(r@[3]@ == spec_probe_patterns(symbol@)[3]);
        assert(r@[4]@ == spec_probe_patterns(symbol@)[4]);
        assert(r@[5]@ == spec_probe_patterns(symbol@)[5]);
    }
    r
}

/// `s` with every trailing occurrence of `pat` removed.
pub open spec fn drop_suffix_rep(s: Seq<char>, pat: Seq<char>) -> Seq<char>
    decreases s.len(),
{
    if pat.len() > 0 && spec_ends_with(s, pat) {
        drop_suffix_rep(s.subrange(0, s.len() - pat.len()), pat)
    } else {
        s
    }
}

/// The module path probed for a file found in `lib/`: `lib/` plus the
/// file name with trailing `.js` then `.ts` suffixes removed.
pub open spec fn spec_lib_module_of(name: Seq<char>) -> Seq<char> {
    "lib/"@ + drop_suffix_rep(drop_suffix_rep(name, ".js"@), ".ts"@)
}

/// Does `v[..hi]` end with `pat`?
fn suffix_matches(v: &Vec<char>, hi: usize, pat: &Vec<char>) -> (r: bool)
    requires
        pat@.len() <= hi <= v@.len(),
    ensures
        r == spec_ends_with(v@.subrange(0, hi as int), pat@),
{
    let m = pat.len();
    let r = crate::strutil::matches_at(v, pat, hi - m);
    proof {
        let cur = v@.subrange(0, hi as int);
        assert(cur.subrange(cur.len() - pat@.len(), cur.len() as int) =~= v@.subrange(
            (hi - m) as int,
            hi as int,
        ));
    }
    r
}

fn drop_suffix_rep_exec(v: Vec<char>, pat: &Vec<char>) -> (r: Vec<char>)
    requires
        pat@.len() > 0,
    ensures
        r@ == drop_suffix_rep(v@, pat@),
{
    let mut hi = v.len();
    let m = pat.len();
    proof {
        assert(v@.subrange(0, v@.len() as int) =~= v@);
    }
    while hi >= m && suffix_matches(&v, hi, pat)
        invariant
            hi <= v@.len(),
            m == pat@.len(),
            0 < m,
            drop_suffix_rep(v@, pat@) == drop_suffix_rep(v@.subrange(0, hi as int), pat@),
        decreases hi,
    {
        proof {
            let cur = v@.subrange(0, hi as int);
            assert(cur.subrange(cur.len() - pat@.len(), cur.len() as int) =~= v@.subrange(
                hi - m,
                hi as int,
            ));
            assert(spec_ends_with(cur, pat@));
            assert(cur.subrange(0, cur.len() - pat@.len()) =~= v@.subrange(0, (hi - m) as int));
        }
        hi = hi - m;
    }
    proof {
        let cur = v@.subrange(0, hi as int);
        if hi >= m {
            assert(cur.subrange(cur.len() - pat@.len(), cur.len() as int) =~= v@.subrange(
                hi - m,
                hi as int,
            ));
        }
        assert(!spec_ends_with(cur, pat@)) by {
            if spec_ends_with(cur, pat@) {
                assert(cur.len() >= pat@.len());
                assert(cur.subrange(cur.len() - pat@.len(), cur.len() as int) == pat@);
                assert(v@.subrange((hi - m) as int, hi as int) == pat@);
            }
        }
        assert(drop_suffix_rep(v@.subrange(0, hi as int), pat@) == cur);
    }
    proof {
        assert(v@.subrange(0, v@.len() as int) =~= v@);
    }
    subvec(&v, 0, hi)
}

/// Builds the probe module path for a `lib/` directory entry.
pub fn lib_module_of(name: &str) -> (r: String)
    ensures
        r@ == spec_lib_module_of(name@),
{
    let v = chars_of(name);
    let js = chars_of(".js");
    let ts = chars_of(".ts");
    proof {
        reveal_strlit(".js");
        reveal_strlit(".ts");
    }
    let a = drop_suffix_rep_exec(v, &js);
    let b = drop_suffix_rep_exec(a, &ts);
    let mut out = chars_of("lib/");
    push_all(&mut out, &b);
    to_string_of(&out)
}

// ---------------------------------------------------------------------
// The resolution session: an event-driven walk over modules.
// ---------------------------------------------------------------------

pub open spec fn opt_sig_view(o: Option<SignatureInfo>) -> Option<SigView> {
    match o {
        Some(s) => Some(view_of_sig(s)),
        None => None,
    }
}

/// What the session asks its caller to do next.
pub enum Request {
    /// Parse the module at this path (trying its candidate files) and
    /// feed back the record, or feed back nothing on failure.
    ParseModule(String),
    /// List the file names in the package's `lib` directory, or feed
    /// back nothing if there is none.
    ListLibDir,
    /// The resolution is finished with this outcome.
    Done(Option<SignatureInfo>),
}

pub enum RequestView {
    ParseModule(Seq<char>),
    ListLibDir,
    Done(Option<SigView>),
}

impl View for Request {
    type V = RequestView;

    open spec fn view(&self) -> RequestView {
        match self {
            Request::ParseModule(p) => RequestView::ParseModule(p@),
            Request::ListLibDir => RequestView::ListLibDir,
            Request::Done(o) => RequestView::Done(opt_sig_view(*o)),
        }
    }
}

enum Phase {
    Entry,
    Probe { info: NodeModuleInfo, idx: usize },
    LibScan { info: NodeModuleInfo },
    LibProbe { info: NodeModuleInfo, names: Vec<String>, idx: usize },
    Target { target: String, import_name: String },
}

pub enum PhaseView {
    Entry,
    Probe { info: NodeModuleInfo, idx: int },
    LibScan { info: NodeModuleInfo },
    LibProbe { info: NodeModuleInfo, names: Seq<Seq<char>>, idx: int },
    Target { target: Seq<char>, import_name: Seq<char> },
}

pub struct SessionView {
    pub mod_path: Seq<char>,
    pub symbol: Seq<char>,
    pub phase: PhaseView,
    pub hops: nat,
}

/// One in-progress resolution: the current query, the phase of the
/// search, and the remaining hop budget for re-export chains.
pub struct ResolveSession {
    mod_path: String,
    symbol: String,
    phase: Phase,
    hops: u64,
}

impl View for ResolveSession {
    type V = SessionView;

    closed spec fn view(&self) -> SessionView {
        SessionView {
            mod_path: self.mod_path@,
            symbol: self.symbol@,
            phase: match self.phase {
                Phase::Entry => PhaseView::Entry,
                Phase::Probe { info, idx } => PhaseView::Probe { info, idx: idx as int },
                Phase::LibScan { info } => PhaseView::LibScan { info },
                Phase::LibProbe { info, names, idx } => PhaseView::LibProbe {
                    info,
                    names: names@.map_values(|s: String| s@),
                    idx: idx as int,
                },
                Phase::Target { target, import_name } => PhaseView::Target {
                    target: target@,
                    import_name: import_name@,
                },
            },
            hops: self.hops as nat,
        }
    }
}

/// The maximum number of re-export hops followed before the resolver
/// fails closed.
pub open spec fn max_hops() -> nat {
    64
}

pub open spec fn spec_start(mp: Seq<char>, sym: Seq<char>) -> (SessionView, RequestView) {
    (
        SessionView { mod_path: mp, symbol: sym, phase: PhaseView::Entry, hops: max_hops() },
        RequestView::ParseModule(mp),
    )
}

/// The import-chain decision once every structural search of the current
/// module has failed: follow the first matching import to its target, or
/// fall through to the fixed signature table.
pub open spec fn import_step(s: SessionView, info: NodeModuleInfo) -> (SessionView, RequestView) {
    match spec_find_import(info, s.symbol) {
        Some(ii) => match spec_resolve_import_path(s.mod_path, ii.from_module, ii.is_relative) {
            Some(target) => (
                SessionView {
                    phase: PhaseView::Target { target, import_name: ii.import_name },
                    ..s
                },
                RequestView::ParseModule(target),
            ),
            None => (s, RequestView::Done(spec_smart_signature(s.mod_path, s.symbol))),
        },
        None => (s, RequestView::Done(spec_smart_signature(s.mod_path, s.symbol))),
    }
}

/// The effect of a parse result on the session.
pub open spec fn spec_on_parse(s: SessionView, res: Option<NodeModuleInfo>) -> (
    SessionView,
    RequestView,
) {
    match s.phase {
        PhaseView::Entry => match res {
            None => (s, RequestView::Done(spec_smart_signature(s.mod_path, s.symbol))),
            Some(info) => match spec_find_symbol(info, s.symbol) {
                Some(sig) => (s, RequestView::Done(Some(sig))),
                None => (
                    SessionView { phase: PhaseView::Probe { info, idx: 0 }, ..s },
                    RequestView::ParseModule(spec_probe_patterns(s.symbol)[0]),
                ),
            },
        },
        PhaseView::Probe { info, idx } => {
            let hit = match res {
                Some(sub) => spec_find_symbol(sub, s.symbol),
                None => None,
            };
            match hit {
                Some(sig) => (s, RequestView::Done(Some(sig))),
                None => if idx + 1 < 6 {
                    (
                        SessionView { phase: PhaseView::Probe { info, idx: idx + 1 }, ..s },
                        RequestView::ParseModule(spec_probe_patterns(s.symbol)[idx + 1]),
                    )
                } else {
                    (
                        SessionView { phase: PhaseView::LibScan { info }, ..s },
                        RequestView::ListLibDir,
                    )
                },
            }
        },
        PhaseView::LibProbe { info, names, idx } => {
            let hit = match res {
                Some(sub) => spec_find_symbol(sub, s.symbol),
                None => None,
            };
            match hit {
                Some(sig) => (s, RequestView::Done(Some(sig))),
                None => if idx + 1 < names.len() {
                    (
                        SessionView {
                            phase: PhaseView::LibProbe { info, names, idx: idx + 1 },
                            ..s
                        },
                        RequestView::ParseModule(spec_lib_module_of(names[idx + 1])),
                    )
                } else {
                    import_step(s, info)
                },
            }
        },
        PhaseView::Target { target, import_name } => match res {
            None => (s, RequestView::Done(spec_smart_signature(s.mod_path, s.symbol))),
            Some(tinfo) => match spec_find_symbol(tinfo, import_name) {
                Some(sig) => (s, RequestView::Done(Some(sig))),
                None => match spec_find_import(tinfo, import_name) {
                    Some(nested) => if s.hops == 0 {
                        (s, RequestView::Done(None))
                    } else {
                        (
                            SessionView {
                                mod_path: target,
                                symbol: nested.import_name,
                                phase: PhaseView::Entry,
                                hops: (s.hops - 1) as nat,
                            },
                            RequestView::ParseModule(target),
                        )
                    },
                    None => (s, RequestView::Done(spec_smart_signature(s.mod_path, s.symbol))),
                },
            },
        },
        PhaseView::LibScan { .. } => (s, RequestView::Done(None)),
    }
}

/// The `lib/` entries whose lowercased name holds the lowercased symbol.
pub open spec fn lib_filter(es: Seq<String>, sym_lower: Seq<char>) -> Seq<Seq<char>>
    decreases es.len(),
{
    if es.len() == 0 {
        Seq::empty()
    } else {
        lib_filter(es.drop_last(), sym_lower) + (if has_sub(spec_lower(es.last()@), sym_lower) {
            seq![es.last()@]
        } else {
            Seq::empty()
        })
    }
}

/// The effect of a directory listing on the session.
pub open spec fn spec_on_dir(s: SessionView, entries: Option<Vec<String>>) -> (
    SessionView,
    RequestView,
) {
    match s.phase {
        PhaseView::LibScan { info } => {
            let names = match entries {
                Some(es) => lib_filter(es@, spec_lower(s.symbol)),
                None => Seq::empty(),
            };
            if names.len() == 0 {
                import_step(s, info)
            } else {
                (
                    SessionView { phase: PhaseView::LibProbe { info, names, idx: 0 }, ..s },
                    RequestView::ParseModule(spec_lib_module_of(names[0])),
                )
            }
        },
        _ => (s, RequestView::Done(None)),
    }
}

// ---------------------------------------------------------------------
// Termination: every step either finishes or strictly shrinks the
// measure (hops, stage, remaining work in the stage).
// ---------------------------------------------------------------------

pub open spec fn phase_stage(p: PhaseView) -> nat {
    match p {
        PhaseView::Entry => 4,
        PhaseView::Probe { .. } => 3,
        PhaseView::LibScan { .. } => 2,
        PhaseView::LibProbe { .. } => 1,
        PhaseView::Target { .. } => 0,
    }
}

pub open spec fn stage_rem(p: PhaseView) -> nat {
    match p {
        PhaseView::Probe { idx, .. } => if idx <= 6 {
            (6 - idx) as nat
        } else {
            0
        },
        PhaseView::LibProbe { names, idx, .. } => if idx <= names.len() {
            (names.len() - idx) as nat
        } else {
            0
        },
        _ => 0,
    }
}

/// The session measures decrease lexicographically.
pub open spec fn measure_lt(a: SessionView, b: SessionView) -> bool {
    ||| a.hops < b.hops
    ||| (a.hops == b.hops && phase_stage(a.phase) < phase_stage(b.phase))
    ||| (a.hops == b.hops && phase_stage(a.phase) == phase_stage(b.phase) && stage_rem(a.phase)
        < stage_rem(b.phase))
}

/// Any parse event either finishes the resolution or strictly decreases
/// the session measure; with the directory event below, this is why every
/// resolution terminates.
pub proof fn lemma_on_parse_decreases(s: SessionView, res: Option<NodeModuleInfo>)
    ensures
        !(spec_on_parse(s, res).1 is Done) ==> measure_lt(spec_on_parse(s, res).0, s),
{
}

/// Any directory event either finishes the resolution or strictly
/// decreases the session measure.
pub proof fn lemma_on_dir_decreases(s: SessionView, entries: Option<Vec<String>>)
    ensures
        !(spec_on_dir(s, entries).1 is Done) ==> measure_lt(spec_on_dir(s, entries).0, s),
{
}

// ---------------------------------------------------------------------
// The whole interaction, as a function of an oracle for the outside
// world.  Totality of this function is the resolver's termination.
// ---------------------------------------------------------------------

/// What the file system would answer: the parseable modules by path, and
/// the `lib` directory listing if one exists.
pub struct Oracle {
    pub modules: Map<Seq<char>, NodeModuleInfo>,
    pub lib_entries: Option<Vec<String>>,
}

pub open spec fn oracle_module(o: Oracle, p: Seq<char>) -> Option<NodeModuleInfo> {
    if o.modules.contains_key(p) {
        Some(o.modules[p])
    } else {
        None
    }
}

/// The final outcome of running the session against the oracle, from the
/// given state and pending request.
pub open spec fn outcome_from(s: SessionView, req: RequestView, o: Oracle) -> Option<SigView>
    decreases s.hops, phase_stage(s.phase), stage_rem(s.phase),
{
    match req {
        RequestView::Done(r) => r,
        RequestView::ParseModule(p) => {
            proof {
                lemma_on_parse_decreases(s, oracle_module(o, p));
            }
            let n = spec_on_parse(s, oracle_module(o, p));
            match n.1 {
                RequestView::Done(r) => r,
                _ => outcome_from(n.0, n.1, o),
            }
        },
        RequestView::ListLibDir => {
            proof {
                lemma_on_dir_decreases(s, o.lib_entries);
            }
            let n = spec_on_dir(s, o.lib_entries);
            match n.1 {
                RequestView::Done(r) => r,
                _ => outcome_from(n.0, n.1, o),
            }
        },
    }
}

/// The outcome of a whole resolution of `mp:sym` against the oracle.
pub open spec fn spec_outcome(mp: Seq<char>, sym: Seq<char>, o: Oracle) -> Option<SigView> {
    outcome_from(spec_start(mp, sym).0, spec_start(mp, sym).1, o)
}

// ---------------------------------------------------------------------
// Laws of the resolver.
// ---------------------------------------------------------------------

/// Probing `p` for `sym` finds nothing: the module is missing or lacks
/// the symbol.
pub open spec fn probe_fails(o: Oracle, p: Seq<char>, sym: Seq<char>) -> bool {
    match oracle_module(o, p) {
        Some(m) => spec_find_symbol(m, sym) is None,
        None => true,
    }
}

/// The `lib` directory contributes no candidate for `sym`.
pub open spec fn lib_scan_empty(o: Oracle, sym: Seq<char>) -> bool {
    match o.lib_entries {
        Some(es) => lib_filter(es@, spec_lower(sym)).len() == 0,
        None => true,
    }
}

/// Direct-hit correctness: when the starting module parses and defines
/// the symbol, the resolution returns exactly the signature that the
/// module search yields.
pub proof fn lemma_direct_hit(mp: Seq<char>, sym: Seq<char>, o: Oracle, info: NodeModuleInfo)
    requires
        oracle_module(o, mp) == Some(info),
        spec_find_symbol(info, sym) is Some,
    ensures
        spec_outcome(mp, sym, o) == spec_find_symbol(info, sym),
{
}

/// Fallback exactness: when the starting module cannot be parsed at all,
/// the resolution returns exactly the fixed table's answer, regardless
/// of any other file-system contents.
pub proof fn lemma_fallback_when_unparsed(mp: Seq<char>, sym: Seq<char>, o: Oracle)
    requires
        oracle_module(o, mp) is None,
    ensures
        spec_outcome(mp, sym, o) == spec_smart_signature(mp, sym),
{
}

/// Fallback exactness when the structural search runs out: the starting
/// module parses but defines no match, every probe location fails, the
/// `lib` scan contributes nothing, and no import of the symbol resolves
/// to a target — then the resolution returns exactly the fixed table's
/// answer.  With [`lemma_fallback_when_unparsed`], the table is consulted
/// whenever no structural strategy found a match first.
pub proof fn lemma_fallback_when_searched_out(
    mp: Seq<char>,
    sym: Seq<char>,
    o: Oracle,
    info: NodeModuleInfo,
)
    requires
        oracle_module(o, mp) == Some(info),
        spec_find_symbol(info, sym) is None,
        forall|j: int| 0 <= j < 6 ==> probe_fails(o, #[trigger] spec_probe_patterns(sym)[j], sym),
        lib_scan_empty(o, sym),
        match spec_find_import(info, sym) {
            Some(ii) => spec_resolve_import_path(mp, ii.from_module, ii.is_relative) is None,
            None => true,
        },
    ensures
        spec_outcome(mp, sym, o) == spec_smart_signature(mp, sym),
{
    let st0 = spec_start(mp, sym).0;
    let n1 = spec_on_parse(st0, oracle_module(o, mp));
    let s1 = SessionView { phase: (PhaseView::Probe { info, idx: 0 }), ..st0 };
    assert(n1 == (s1, RequestView::ParseModule(spec_probe_patterns(sym)[0])));
    assert(spec_outcome(mp, sym, o) == outcome_from(n1.0, n1.1, o));
    lemma_probe_chain(s1, info, 0, o);
    let s2 = SessionView { phase: (PhaseView::LibScan { info }), ..s1 };
    assert(outcome_from(n1.0, n1.1, o) == outcome_from(s2, RequestView::ListLibDir, o));
    let n3 = spec_on_dir(s2, o.lib_entries);
    assert(n3 == import_step(s2, info));
    assert(n3.1 == RequestView::Done(spec_smart_signature(mp, sym)));
}

/// Failed probes chain through to the `lib` scan.
proof fn lemma_probe_chain(s: SessionView, info: NodeModuleInfo, k: int, o: Oracle)
    requires
        s.phase == (PhaseView::Probe { info, idx: k }),
        0 <= k < 6,
        forall|j: int| 0 <= j < 6 ==> probe_fails(o, #[trigger] spec_probe_patterns(s.symbol)[j], s.symbol),
    ensures
        outcome_from(s, RequestView::ParseModule(spec_probe_patterns(s.symbol)[k]), o)
            == outcome_from(
            (SessionView { phase: (PhaseView::LibScan { info }), ..s }),
            RequestView::ListLibDir,
            o,
        ),
    decreases 6 - k,
{
    let res = oracle_module(o, spec_probe_patterns(s.symbol)[k]);
    assert(probe_fails(o, spec_probe_patterns(s.symbol)[k], s.symbol));
    let n = spec_on_parse(s, res);
    if k < 5 {
        let s2 = SessionView { phase: (PhaseView::Probe { info, idx: k + 1 }), ..s };
        assert(n == (s2, RequestView::ParseModule(spec_probe_patterns(s.symbol)[k + 1])));
        lemma_probe_chain(s2, info, k + 1, o);
    }
}

/// Re-export correctness: when module `a` does not define `x` but
/// imports it from `b`, and `b` defines `x`, then resolving `a:x` and
/// resolving `b:x` return the same signature — the one `b` defines.
///
/// The hypotheses that no probe location and no `lib/` entry supplies the
/// symbol are forced by the search order: the first hit wins, so a
/// definition of `x` at a conventional location would answer `a:x` before
/// the import chain is consulted, and the two resolutions could then
/// legitimately differ.  Likewise the import text must parse and its
/// specifier must resolve, or `a:x` never reaches `b` at all.
pub proof fn lemma_reexport_resolution(
    a: Seq<char>,
    b: Seq<char>,
    x: Seq<char>,
    o: Oracle,
    ia: NodeModuleInfo,
    ib: NodeModuleInfo,
    ii: ImportView,
)
    requires
        oracle_module(o, a) == Some(ia),
        spec_find_symbol(ia, x) is None,
        forall|j: int| 0 <= j < 6 ==> probe_fails(o, #[trigger] spec_probe_patterns(x)[j], x),
        lib_scan_empty(o, x),
        spec_find_import(ia, x) == Some(ii),
        ii.import_name == x,
        spec_resolve_import_path(a, ii.from_module, ii.is_relative) == Some(b),
        oracle_module(o, b) == Some(ib),
        spec_find_symbol(ib, x) is Some,
    ensures
        spec_outcome(a, x, o) == spec_find_symbol(ib, x),
        spec_outcome(b, x, o) == spec_find_symbol(ib, x),
{
    // the direct resolution of b:x
    lemma_direct_hit(b, x, o, ib);
    // the resolution of a:x
    let st0 = spec_start(a, x).0;
    let n1 = spec_on_parse(st0, oracle_module(o, a));
    let s1 = SessionView { phase: (PhaseView::Probe { info: ia, idx: 0 }), ..st0 };
    assert(n1 == (s1, RequestView::ParseModule(spec_probe_patterns(x)[0])));
    assert(spec_outcome(a, x, o) == outcome_from(n1.0, n1.1, o));
    lemma_probe_chain(s1, ia, 0, o);
    let s2 = SessionView { phase: (PhaseView::LibScan { info: ia }), ..s1 };
    assert(outcome_from(n1.0, n1.1, o) == outcome_from(s2, RequestView::ListLibDir, o));
    let n3 = spec_on_dir(s2, o.lib_entries);
    assert(n3 == import_step(s2, ia));
    let s4 = SessionView {
        phase: (PhaseView::Target { target: b, import_name: x }),
        ..s2
    };
    assert(n3 == (s4, RequestView::ParseModule(b)));
    assert(outcome_from(s2, RequestView::ListLibDir, o) == outcome_from(s4, n3.1, o));
    let n5 = spec_on_parse(s4, oracle_module(o, b));
    assert(n5.1 == RequestView::Done(spec_find_symbol(ib, x)));
    assert(outcome_from(s4, RequestView::ParseModule(b), o) == spec_find_symbol(ib, x));
}

// ---------------------------------------------------------------------
// The executable session.
// ---------------------------------------------------------------------

/// Resolves symbols through import chains and re-exports.
pub struct ImportChainResolver;

impl ImportChainResolver {
    pub fn new() -> Self {
        ImportChainResolver
    }

    /// Begins a resolution of `symbol` starting from `mod_path` within
    /// the package; the first request asks for the starting module.
    pub fn start_resolve(&self, mod_path: &str, symbol: &str) -> (r: (ResolveSession, Request))
        ensures
            r.0@ == spec_start(mod_path@, symbol@).0,
            r.1@ == spec_start(mod_path@, symbol@).1,
    {
        let s = ResolveSession {
            mod_path: crate::strutil::str_to_string(mod_path),
            symbol: crate::strutil::str_to_string(symbol),
            phase: Phase::Entry,
            hops: 64,
        };
        let req = Request::ParseModule(crate::strutil::str_to_string(mod_path));
        (s, req)
    }
}

/// Decides the import-chain step for a searched-out module.
fn import_decision(mod_path: &String, symbol: &String, info: &NodeModuleInfo) -> (r: Option<
    (String, String),
>)
    ensures
        match spec_find_import(*info, symbol@) {
            Some(ii) => match spec_resolve_import_path(mod_path@, ii.from_module, ii.is_relative) {
                Some(t) => r matches Some(p) && p.0@ == t && p.1@ == ii.import_name,
                None => r is None,
            },
            None => r is None,
        },
{
    match find_import_for_symbol(info, symbol.as_str()) {
        Some(ii) => {
            match resolve_import_path(mod_path.as_str(), &ii) {
                Some(target) => Some((target, ii.import_name)),
                None => None,
            }
        },
        None => None,
    }
}

impl ResolveSession {
    /// Feeds the result of a requested module parse back into the
    /// session; valid after a `ParseModule` request.  Fed after any other
    /// request, the session fails closed.
    pub fn on_parse(self, res: Option<NodeModuleInfo>) -> (r: (ResolveSession, Request))
        ensures
            r.0@ == spec_on_parse(self@, res).0,
            r.1@ == spec_on_parse(self@, res).1,
    {
        let ResolveSession { mod_path, symbol, phase, hops } = self;
        match phase {
            Phase::Entry => {
                match res {
                    None => {
                        let sig = try_smart_signatures(mod_path.as_str(), symbol.as_str());
                        (
                            ResolveSession { mod_path, symbol, phase: Phase::Entry, hops },
                            Request::Done(sig),
                        )
                    },
                    Some(info) => {
                        match find_symbol_in_module(&info, symbol.as_str()) {
                            Some(sig) => (
                                ResolveSession { mod_path, symbol, phase: Phase::Entry, hops },
                                Request::Done(Some(sig)),
                            ),
                            None => {
                                let pats = probe_patterns(symbol.as_str());
                                let first = pats[0].clone();
                                (
                                    ResolveSession {
                                        mod_path,
                                        symbol,
                                        phase: Phase::Probe { info, idx: 0 },
                                        hops,
                                    },
                                    Request::ParseModule(first),
                                )
                            },
                        }
                    },
                }
            },
            Phase::Probe { info, idx } => {
                let hit = match &res {
                    Some(sub) => find_symbol_in_module(sub, symbol.as_str()),
                    None => None,
                };
                match hit {
                    Some(sig) => (
                        ResolveSession { mod_path, symbol, phase: Phase::Probe { info, idx }, hops },
                        Request::Done(Some(sig)),
                    ),
                    None => {
                        if idx < 5 {
                            let pats = probe_patterns(symbol.as_str());
                            let next = pats[idx + 1].clone();
                            (
                                ResolveSession {
                                    mod_path,
                                    symbol,
                                    phase: Phase::Probe { info, idx: idx + 1 },
                                    hops,
                                },
                                Request::ParseModule(next),
                            )
                        } else {
                            (
                                ResolveSession {
                                    mod_path,
                                    symbol,
                                    phase: Phase::LibScan { info },
                                    hops,
                                },
                                Request::ListLibDir,
                            )
                        }
                    },
                }
            },
            Phase::LibProbe { info, names, idx } => {
                let hit = match &res {
                    Some(sub) => find_symbol_in_module(sub, symbol.as_str()),
                    None => None,
                };
                match hit {
                    Some(sig) => (
                        ResolveSession {
                            mod_path,
                            symbol,
                            phase: Phase::LibProbe { info, names, idx },
                            hops,
                        },
                        Request::Done(Some(sig)),
                    ),
                    None => {
                        if names.len() > 0 && idx < names.len() - 1 {
                            let next = lib_module_of(names[idx + 1].as_str());
                            (
                                ResolveSession {
                                    mod_path,
                                    symbol,
                                    phase: Phase::LibProbe { info, names, idx: idx + 1 },
                                    hops,
                                },
                                Request::ParseModule(next),
                            )
                        } else {
                            match import_decision(&mod_path, &symbol, &info) {
                                Some(ti) => {
                                    let target2 = ti.0.clone();
                                    (
                                        ResolveSession {
                                            mod_path,
                                            symbol,
                                            phase: Phase::Target {
                                                target: ti.0,
                                                import_name: ti.1,
                                            },
                                            hops,
                                        },
                                        Request::ParseModule(target2),
                                    )
                                },
                                None => {
                                    let sig = try_smart_signatures(
                                        mod_path.as_str(),
                                        symbol.as_str(),
                                    );
                                    (
                                        ResolveSession {
                                            mod_path,
                                            symbol,
                                            phase: Phase::LibProbe { info, names, idx },
                                            hops,
                                        },
                                        Request::Done(sig),
                                    )
                                },
                            }
                        }
                    },
                }
            },
            Phase::Target { target, import_name } => {
                match res {
                    None => {
                        let sig = try_smart_signatures(mod_path.as_str(), symbol.as_str());
                        (
                            ResolveSession {
                                mod_path,
                                symbol,
                                phase: Phase::Target { target, import_name },
                                hops,
                            },
                            Request::Done(sig),
                        )
                    },
                    Some(tinfo) => {
                        match find_symbol_in_module(&tinfo, import_name.as_str()) {
                            Some(sig) => (
                                ResolveSession {
                                    mod_path,
                                    symbol,
                                    phase: Phase::Target { target, import_name },
                                    hops,
                                },
                                Request::Done(Some(sig)),
                            ),
                            None => {
                                match find_import_for_symbol(&tinfo, import_name.as_str()) {
                                    Some(nested) => {
                                        if hops == 0 {
                                            (
                                                ResolveSession {
                                                    mod_path,
                                                    symbol,
                                                    phase: Phase::Target { target, import_name },
                                                    hops,
                                                },
                                                Request::Done(None),
                                            )
                                        } else {
                                            let target2 = target.clone();
                                            (
                                                ResolveSession {
                                                    mod_path: target,
                                                    symbol: nested.import_name,
                                                    phase: Phase::Entry,
                                                    hops: hops - 1,
                                                },
                                                Request::ParseModule(target2),
                                            )
                                        }
                                    },
                                    None => {
                                        let sig = try_smart_signatures(
                                            mod_path.as_str(),
                                            symbol.as_str(),
                                        );
                                        (
                                            ResolveSession {
                                                mod_path,
                                                symbol,
                                                phase: Phase::Target { target, import_name },
                                                hops,
                                            },
                                            Request::Done(sig),
                                        )
                                    },
                                }
                            },
                        }
                    },
                }
            },
            Phase::LibScan { info } => {
                (
                    ResolveSession { mod_path, symbol, phase: Phase::LibScan { info }, hops },
                    Request::Done(None),
                )
            },
        }
    }

    /// Feeds the `lib` directory listing back into the session; valid
    /// after a `ListLibDir` request.  Fed after any other request, the
    /// session fails closed.
    pub fn on_dir(self, entries: Option<Vec<String>>) -> (r: (ResolveSession, Request))
        ensures
            r.0@ == spec_on_dir(self@, entries).0,
            r.1@ == spec_on_dir(self@, entries).1,
    {
        let ResolveSession { mod_path, symbol, phase, hops } = self;
        match phase {
            Phase::LibScan { info } => {
                let sv = chars_of(symbol.as_str());
                let lower_sym = lower_chars(&sv);
                let mut names: Vec<String> = Vec::new();
                match &entries {
                    Some(es) => {
                        let n = es.len();
                        let mut i: usize = 0;
                        proof {
                            assert(es@.subrange(0, 0) =~= Seq::<String>::empty());
                            assert(names@.map_values(|s: String| s@) =~= lib_filter(
                                es@.subrange(0, 0),
                                spec_lower(symbol@),
                            ));
                        }
                        while i < n
                            invariant
                                i <= n == es@.len(),
                                lower_sym@ == spec_lower(symbol@),
                                names@.map_values(|s: String| s@) == lib_filter(
                                    es@.subrange(0, i as int),
                                    spec_lower(symbol@),
                                ),
                            decreases n - i,
                        {
                            proof {
                                assert(es@.subrange(0, i + 1 as int).drop_last() =~= es@.subrange(
                                    0,
                                    i as int,
                                ));
                                assert(es@.subrange(0, i + 1 as int).last() == es@[i as int]);
                            }
                            let ev = chars_of(es[i].as_str());
                            let el = lower_chars(&ev);
                            if contains_sub(&el, &lower_sym) {
                                let ghost prev = names@;
                                names.push(es[i].clone());
                                proof {
                                    assert(names@.map_values(|s: String| s@) =~= prev.map_values(
                                        |s: String| s@,
                                    ).push(es@[i as int]@));
                                }
                            }
                            proof {
                                assert(names@.map_values(|s: String| s@) =~= lib_filter(
                                    es@.subrange(0, i + 1 as int),
                                    spec_lower(symbol@),
                                ));
                            }
                            i += 1;
                        }
                        proof {
                            assert(es@.subrange(0, n as int) =~= es@);
                        }
                    },
                    None => {
                        proof {
                            assert(names@.map_values(|s: String| s@) =~= Seq::<Seq<char>>::empty());
                        }
                    },
                }
                if names.len() == 0 {
                    proof {
                        assert(names@.map_values(|s: String| s@) =~= Seq::<Seq<char>>::empty());
                    }
                    match import_decision(&mod_path, &symbol, &info) {
                        Some(ti) => {
                            let target2 = ti.0.clone();
                            (
                                ResolveSession {
                                    mod_path,
                                    symbol,
                                    phase: Phase::Target { target: ti.0, import_name: ti.1 },
                                    hops,
                                },
                                Request::ParseModule(target2),
                            )
                        },
                        None => {
                            let sig = try_smart_signatures(mod_path.as_str(), symbol.as_str());
                            (
                                ResolveSession {
                                    mod_path,
                                    symbol,
                                    phase: Phase::LibScan { info },
                                    hops,
                                },
                                Request::Done(sig),
                            )
                        },
                    }
                } else {
                    let first = lib_module_of(names[0].as_str());
                    proof {
                        assert(names@.map_values(|s: String| s@)[0] == names@[0]@);
                    }
                    (
                        ResolveSession {
                            mod_path,
                            symbol,
                            phase: Phase::LibProbe { info, names, idx: 0 },
                            hops,
                        },
                        Request::ParseModule(first),
                    )
                }
            },
            other => {
                (ResolveSession { mod_path, symbol, phase: other, hops }, Request::Done(None))
            },
        }
    }
}

} // verus!
