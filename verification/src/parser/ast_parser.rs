//! The source-file walker: turns the top-level items of a parsed
//! JavaScript/TypeScript module into a normalized module record.
//!
//! The syntax tree itself is produced outside the library; what the walker
//! reads is modeled here as plain data ([`JsItem`] and its parts), so the
//! walk — which declarations become which records, what is exported, how
//! parameters map — is specified and verified in full.  Only top-level
//! items are visited: export declarations, named re-exports, default
//! exports, imports and top-level statements.

use vstd::prelude::*;
use crate::module_info::{
    ClassInfo, ConstantInfo, FunctionInfo, NodeModuleInfo, Parameter, PropertyInfo, TypeInfo,
    TypeKind,
};
use crate::strutil::{chars_of, to_string_of};

verus! {

/// A function's grammar-level shape: its parameter patterns and markers.
pub struct JsFunction {
    pub params: Vec<JsPat>,
    pub has_return_type: bool,
    pub is_async: bool,
    pub is_generator: bool,
}

/// A parameter pattern, reduced to what the walk reads.
pub enum JsPat {
    /// A plain identifier, possibly typed and optional.
    Ident { name: String, has_type: bool, optional: bool },
    /// A rest pattern wrapping an identifier.
    RestIdent { name: String, has_type: bool },
    /// A rest pattern wrapping anything else.
    RestOther,
    /// A defaulted identifier.
    AssignIdent { name: String, has_type: bool },
    /// A defaulted non-identifier pattern.
    AssignOther,
    /// Any other pattern (destructuring and the like).
    Other,
}

/// A constructor parameter: a plain pattern or a TypeScript parameter
/// property (which the walk skips).
pub enum JsCtorParam {
    Plain(JsPat),
    TsProp,
}

/// A class member, reduced to what the walk reads.
pub enum JsMember {
    Ctor { params: Vec<JsCtorParam> },
    /// A method; `name` is absent for computed or non-identifier keys.
    Method { name: Option<String>, func: JsFunction },
    /// A property; `name` is absent for non-identifier keys.
    Prop { name: Option<String>, has_type: bool, readonly: bool, is_static: bool },
    Other,
}

pub struct JsClass {
    pub members: Vec<JsMember>,
    pub has_super: bool,
}

/// The initializer of one variable declarator.
pub enum JsInit {
    /// A function or arrow expression.
    FnLike,
    /// Any other expression.
    OtherExpr,
    /// No initializer.
    Absent,
}

/// One variable declarator; `name` is absent for non-identifier patterns.
pub struct JsVarDecl {
    pub name: Option<String>,
    pub init: JsInit,
}

/// A top-level declaration.
pub enum JsDecl {
    Fn { name: String, func: JsFunction },
    ClassDecl { name: String, class: JsClass },
    Var { decls: Vec<JsVarDecl> },
    Interface { name: String },
    TypeAlias { name: String },
    EnumDecl { name: String },
    Other,
}

/// A top-level module item.
pub enum JsItem {
    /// `export <decl>`.
    ExportDecl(JsDecl),
    /// `export { a, b }`: the exported (or original) specifier names.
    ExportNamed { names: Vec<String> },
    /// `export default function`, possibly named.
    ExportDefaultFn { name: Option<String>, func: JsFunction },
    /// `export default class`, possibly named.
    ExportDefaultClass { name: Option<String>, class: JsClass },
    /// Any other `export default` declaration.
    ExportDefaultOther,
    /// An import statement, kept as its raw text.
    Import { text: String },
    /// A top-level statement that is a declaration.
    StmtDecl(JsDecl),
    /// Anything else.
    Other,
}

pub open spec fn unknown_str() -> Seq<char> {
    seq!['u', 'n', 'k', 'n', 'o', 'w', 'n']
}

pub open spec fn default_str() -> Seq<char> {
    seq!['d', 'e', 'f', 'a', 'u', 'l', 't']
}

pub open spec fn rest_unknown_str() -> Seq<char> {
    seq!['.', '.', '.', 'u', 'n', 'k', 'n', 'o', 'w', 'n']
}

pub open spec fn constructor_str() -> Seq<char> {
    seq!['c', 'o', 'n', 's', 't', 'r', 'u', 'c', 't', 'o', 'r']
}

pub open spec fn interface_str() -> Seq<char> {
    seq!['i', 'n', 't', 'e', 'r', 'f', 'a', 'c', 'e', ' ']
}

pub open spec fn type_str() -> Seq<char> {
    seq!['t', 'y', 'p', 'e', ' ']
}

pub open spec fn enum_str() -> Seq<char> {
    seq!['e', 'n', 'u', 'm', ' ']
}

fn unknown_string() -> (s: String)
    ensures
        s@ == unknown_str(),
{
    let mut v: Vec<char> = Vec::new();
    v.push('u');
    v.push('n');
    v.push('k');
    v.push('n');
    v.push('o');
    v.push('w');
    v.push('n');
    proof {
        assert(v@ =~= unknown_str());
    }
    to_string_of(&v)
}

fn default_string() -> (s: String)
    ensures
        s@ == default_str(),
{
    let mut v: Vec<char> = Vec::new();
    v.push('d');
    v.push('e');
    v.push('f');
    v.push('a');
    v.push('u');
    v.push('l');
    v.push('t');
    proof {
        assert(v@ =~= default_str());
    }
    to_string_of(&v)
}

// ---------------------------------------------------------------------
// Shapes: the view-level contents of the records the walk produces.
// ---------------------------------------------------------------------

/// The view-level contents of a [`Parameter`].
pub struct ParamView {
    pub name: Seq<char>,
    pub ty: Option<Seq<char>>,
    pub optional: bool,
    pub rest: bool,
    pub dflt: Option<Seq<char>>,
}

pub open spec fn view_of_parameter(p: Parameter) -> ParamView {
    ParamView {
        name: p.name@,
        ty: match p.param_type {
            Some(t) => Some(t@),
            None => None,
        },
        optional: p.is_optional,
        rest: p.is_rest,
        dflt: match p.default_value {
            Some(d) => Some(d@),
            None => None,
        },
    }
}

/// The view-level contents of a [`FunctionInfo`].
pub struct FnView {
    pub name: Seq<char>,
    pub params: Seq<ParamView>,
    pub ret: Option<Seq<char>>,
    pub is_async: bool,
    pub is_generator: bool,
    pub doc: Option<Seq<char>>,
}

pub open spec fn view_of_fn(f: FunctionInfo) -> FnView {
    FnView {
        name: f.name@,
        params: f.parameters@.map_values(|p: Parameter| view_of_parameter(p)),
        ret: match f.return_type {
            Some(t) => Some(t@),
            None => None,
        },
        is_async: f.is_async,
        is_generator: f.is_generator,
        doc: match f.doc_comment {
            Some(d) => Some(d@),
            None => None,
        },
    }
}

/// The view-level contents of a [`PropertyInfo`].
pub struct PropView {
    pub name: Seq<char>,
    pub ty: Option<Seq<char>>,
    pub readonly: bool,
    pub is_static: bool,
}

pub open spec fn view_of_prop(p: PropertyInfo) -> PropView {
    PropView {
        name: p.name@,
        ty: match p.property_type {
            Some(t) => Some(t@),
            None => None,
        },
        readonly: p.is_readonly,
        is_static: p.is_static,
    }
}

/// The view-level contents of a [`ClassInfo`].
pub struct ClassView {
    pub name: Seq<char>,
    pub ctor: Option<FnView>,
    pub methods: Seq<FnView>,
    pub props: Seq<PropView>,
    pub extends: Option<Seq<char>>,
    pub implements: Seq<Seq<char>>,
}

pub open spec fn view_of_class(c: ClassInfo) -> ClassView {
    ClassView {
        name: c.name@,
        ctor: match c.constructor {
            Some(f) => Some(view_of_fn(f)),
            None => None,
        },
        methods: c.methods@.map_values(|f: FunctionInfo| view_of_fn(f)),
        props: c.properties@.map_values(|p: PropertyInfo| view_of_prop(p)),
        extends: match c.extends {
            Some(e) => Some(e@),
            None => None,
        },
        implements: c.implements@.map_values(|s: String| s@),
    }
}

/// The view-level contents of a [`TypeInfo`].
pub struct TyView {
    pub name: Seq<char>,
    pub kind: TypeKind,
    pub def: Seq<char>,
}

pub open spec fn view_of_type(t: TypeInfo) -> TyView {
    TyView { name: t.name@, kind: t.kind, def: t.definition@ }
}

/// The view-level contents of the whole module record (submodules apart).
pub struct ModuleShape {
    pub name: Seq<char>,
    pub exports: Seq<Seq<char>>,
    pub imports: Seq<Seq<char>>,
    pub functions: Seq<FnView>,
    pub classes: Seq<ClassView>,
    pub types: Seq<TyView>,
    pub constants: Seq<Seq<char>>,
}

pub open spec fn shape_of_module(m: NodeModuleInfo) -> ModuleShape {
    ModuleShape {
        name: m.name@,
        exports: m.exports@.map_values(|s: String| s@),
        imports: m.imports@.map_values(|s: String| s@),
        functions: m.functions@.map_values(|f: FunctionInfo| view_of_fn(f)),
        classes: m.classes@.map_values(|c: ClassInfo| view_of_class(c)),
        types: m.types@.map_values(|t: TypeInfo| view_of_type(t)),
        constants: m.constants@.map_values(|c: ConstantInfo| c.name@),
    }
}

// ---------------------------------------------------------------------
// What each model value must become.
// ---------------------------------------------------------------------

/// The parameter record produced for a pattern: identifiers keep their
/// names; annotated types and default texts degrade to the placeholders
/// `unknown` and `default`; unparsable patterns degrade to `unknown`.
pub open spec fn param_of_pat(p: JsPat) -> ParamView {
    match p {
        JsPat::Ident { name, has_type, optional } => ParamView {
            name: name@,
            ty: if has_type {
                Some(unknown_str())
            } else {
                None
            },
            optional,
            rest: false,
            dflt: None,
        },
        JsPat::RestIdent { name, has_type } => ParamView {
            name: name@,
            ty: if has_type {
                Some(unknown_str())
            } else {
                None
            },
            optional: false,
            rest: true,
            dflt: None,
        },
        JsPat::RestOther => ParamView {
            name: rest_unknown_str(),
            ty: None,
            optional: false,
            rest: true,
            dflt: None,
        },
        JsPat::AssignIdent { name, has_type } => ParamView {
            name: name@,
            ty: if has_type {
                Some(unknown_str())
            } else {
                None
            },
            optional: true,
            rest: false,
            dflt: Some(default_str()),
        },
        JsPat::AssignOther => ParamView {
            name: unknown_str(),
            ty: None,
            optional: true,
            rest: false,
            dflt: Some(default_str()),
        },
        JsPat::Other => ParamView {
            name: unknown_str(),
            ty: None,
            optional: false,
            rest: false,
            dflt: None,
        },
    }
}

/// The function record produced for a named function.
pub open spec fn fn_view_of(name: Seq<char>, f: JsFunction) -> FnView {
    FnView {
        name,
        params: f.params@.map_values(|p: JsPat| param_of_pat(p)),
        ret: if f.has_return_type {
            Some(unknown_str())
        } else {
            None
        },
        is_async: f.is_async,
        is_generator: f.is_generator,
        doc: None,
    }
}

/// The parameters of the last constructor among the members, if any.
pub open spec fn ctor_of_members(ms: Seq<JsMember>) -> Option<Seq<JsCtorParam>>
    decreases ms.len(),
{
    if ms.len() == 0 {
        None
    } else {
        match ms.last() {
            JsMember::Ctor { params } => Some(params@),
            _ => ctor_of_members(ms.drop_last()),
        }
    }
}

/// The plain patterns among constructor parameters, in order; parameter
/// properties are skipped.
pub open spec fn plain_ctor_params(ps: Seq<JsCtorParam>) -> Seq<JsPat>
    decreases ps.len(),
{
    if ps.len() == 0 {
        Seq::empty()
    } else {
        plain_ctor_params(ps.drop_last()) + (match ps.last() {
            JsCtorParam::Plain(p) => seq![p],
            JsCtorParam::TsProp => Seq::empty(),
        })
    }
}

/// The identifier-keyed methods among the members, in order.
pub open spec fn methods_of_members(ms: Seq<JsMember>) -> Seq<FnView>
    decreases ms.len(),
{
    if ms.len() == 0 {
        Seq::empty()
    } else {
        methods_of_members(ms.drop_last()) + (match ms.last() {
            JsMember::Method { name: Some(n), func } => seq![fn_view_of(n@, func)],
            _ => Seq::empty(),
        })
    }
}

/// The identifier-keyed properties among the members, in order.
pub open spec fn props_of_members(ms: Seq<JsMember>) -> Seq<PropView>
    decreases ms.len(),
{
    if ms.len() == 0 {
        Seq::empty()
    } else {
        props_of_members(ms.drop_last()) + (match ms.last() {
            JsMember::Prop { name: Some(n), has_type, readonly, is_static } => seq![
                (PropView {
                    name: n@,
                    ty: if has_type {
                        Some(unknown_str())
                    } else {
                        None
                    },
                    readonly,
                    is_static,
                }),
            ],
            _ => Seq::empty(),
        })
    }
}

/// The constructor record produced for the given constructor parameters.
pub open spec fn ctor_view_of(ps: Seq<JsCtorParam>) -> FnView {
    FnView {
        name: constructor_str(),
        params: plain_ctor_params(ps).map_values(|p: JsPat| param_of_pat(p)),
        ret: None,
        is_async: false,
        is_generator: false,
        doc: None,
    }
}

/// The class record produced for a named class.
pub open spec fn class_view_of(name: Seq<char>, c: JsClass) -> ClassView {
    ClassView {
        name,
        ctor: match ctor_of_members(c.members@) {
            Some(ps) => Some(ctor_view_of(ps)),
            None => None,
        },
        methods: methods_of_members(c.members@),
        props: props_of_members(c.members@),
        extends: if c.has_super {
            Some(unknown_str())
        } else {
            None
        },
        implements: Seq::empty(),
    }
}

// ---------------------------------------------------------------------
// The fold over top-level items.
// ---------------------------------------------------------------------

/// The effect of one variable declarator: a named declarator is exported
/// when requested; a function-like initializer yields a function record
/// with no parameters, any other initializer a constant record, and a
/// missing initializer no record at all.
pub open spec fn step_var(m: ModuleShape, vd: JsVarDecl, is_export: bool) -> ModuleShape {
    match vd.name {
        Some(n) => {
            let m1 = if is_export {
                ModuleShape { exports: m.exports.push(n@), ..m }
            } else {
                m
            };
            match vd.init {
                JsInit::FnLike => ModuleShape {
                    functions: m1.functions.push(
                        (FnView {
                            name: n@,
                            params: Seq::empty(),
                            ret: None,
                            is_async: false,
                            is_generator: false,
                            doc: None,
                        }),
                    ),
                    ..m1
                },
                JsInit::OtherExpr => ModuleShape { constants: m1.constants.push(n@), ..m1 },
                JsInit::Absent => m1,
            }
        },
        None => m,
    }
}

pub open spec fn step_vars(m: ModuleShape, vds: Seq<JsVarDecl>, is_export: bool) -> ModuleShape
    decreases vds.len(),
{
    if vds.len() == 0 {
        m
    } else {
        step_var(step_vars(m, vds.drop_last(), is_export), vds.last(), is_export)
    }
}

/// The effect of one top-level declaration on the module record.
pub open spec fn step_decl(m: ModuleShape, d: JsDecl, is_export: bool) -> ModuleShape {
    match d {
        JsDecl::Fn { name, func } => {
            let m1 = if is_export {
                ModuleShape { exports: m.exports.push(name@), ..m }
            } else {
                m
            };
            ModuleShape { functions: m1.functions.push(fn_view_of(name@, func)), ..m1 }
        },
        JsDecl::ClassDecl { name, class } => {
            let m1 = if is_export {
                ModuleShape { exports: m.exports.push(name@), ..m }
            } else {
                m
            };
            ModuleShape { classes: m1.classes.push(class_view_of(name@, class)), ..m1 }
        },
        JsDecl::Var { decls } => step_vars(m, decls@, is_export),
        JsDecl::Interface { name } => {
            let m1 = if is_export {
                ModuleShape { exports: m.exports.push(name@), ..m }
            } else {
                m
            };
            ModuleShape {
                types: m1.types.push(
                    (TyView {
                        name: name@,
                        kind: TypeKind::Interface,
                        def: interface_str() + name@,
                    }),
                ),
                ..m1
            }
        },
        JsDecl::TypeAlias { name } => {
            let m1 = if is_export {
                ModuleShape { exports: m.exports.push(name@), ..m }
            } else {
                m
            };
            ModuleShape {
                types: m1.types.push(
                    (TyView { name: name@, kind: TypeKind::Type, def: type_str() + name@ }),
                ),
                ..m1
            }
        },
        JsDecl::EnumDecl { name } => {
            let m1 = if is_export {
                ModuleShape { exports: m.exports.push(name@), ..m }
            } else {
                m
            };
            ModuleShape {
                types: m1.types.push(
                    (TyView { name: name@, kind: TypeKind::Enum, def: enum_str() + name@ }),
                ),
                ..m1
            }
        },
        JsDecl::Other => m,
    }
}

pub open spec fn push_names(exports: Seq<Seq<char>>, names: Seq<String>) -> Seq<Seq<char>> {
    exports + names.map_values(|s: String| s@)
}

/// The effect of one top-level item on the module record.
pub open spec fn step_item(m: ModuleShape, item: JsItem) -> ModuleShape {
    match item {
        JsItem::ExportDecl(d) => step_decl(m, d, true),
        JsItem::ExportNamed { names } => ModuleShape {
            exports: push_names(m.exports, names@),
            ..m
        },
        JsItem::ExportDefaultFn { name, func } => {
            let m1 = match name {
                Some(n) => ModuleShape { functions: m.functions.push(fn_view_of(n@, func)), ..m },
                None => m,
            };
            ModuleShape { exports: m1.exports.push(default_str()), ..m1 }
        },
        JsItem::ExportDefaultClass { name, class } => {
            let m1 = match name {
                Some(n) => ModuleShape { classes: m.classes.push(class_view_of(n@, class)), ..m },
                None => m,
            };
            ModuleShape { exports: m1.exports.push(default_str()), ..m1 }
        },
        JsItem::ExportDefaultOther => ModuleShape { exports: m.exports.push(default_str()), ..m },
        JsItem::Import { text } => ModuleShape { imports: m.imports.push(text@), ..m },
        JsItem::StmtDecl(d) => step_decl(m, d, false),
        JsItem::Other => m,
    }
}

/// A fresh module record's shape.
pub open spec fn empty_shape(name: Seq<char>) -> ModuleShape {
    ModuleShape {
        name,
        exports: Seq::empty(),
        imports: Seq::empty(),
        functions: Seq::empty(),
        classes: Seq::empty(),
        types: Seq::empty(),
        constants: Seq::empty(),
    }
}

/// The module record that walking all items produces.
pub open spec fn fold_items(items: Seq<JsItem>, name: Seq<char>) -> ModuleShape
    decreases items.len(),
{
    if items.len() == 0 {
        empty_shape(name)
    } else {
        step_item(fold_items(items.drop_last(), name), items.last())
    }
}

// ---------------------------------------------------------------------
// Pushing one record changes the mapped view by one push.
// ---------------------------------------------------------------------

proof fn lemma_push_string_view(a: Seq<String>, s: String)
    ensures
        a.push(s).map_values(|x: String| x@) == a.map_values(|x: String| x@).push(s@),
{
    assert(a.push(s).map_values(|x: String| x@) =~= a.map_values(|x: String| x@).push(s@));
}

proof fn lemma_concat_string_view(a: Seq<String>, b: Seq<String>)
    ensures
        (a + b).map_values(|x: String| x@) == a.map_values(|x: String| x@) + b.map_values(
            |x: String| x@,
        ),
{
    assert((a + b).map_values(|x: String| x@) =~= a.map_values(|x: String| x@) + b.map_values(
        |x: String| x@,
    ));
}

proof fn lemma_push_fn_view(a: Seq<FunctionInfo>, f: FunctionInfo)
    ensures
        a.push(f).map_values(|x: FunctionInfo| view_of_fn(x)) == a.map_values(
            |x: FunctionInfo| view_of_fn(x),
        ).push(view_of_fn(f)),
{
    assert(a.push(f).map_values(|x: FunctionInfo| view_of_fn(x)) =~= a.map_values(
        |x: FunctionInfo| view_of_fn(x),
    ).push(view_of_fn(f)));
}

proof fn lemma_push_class_view(a: Seq<ClassInfo>, c: ClassInfo)
    ensures
        a.push(c).map_values(|x: ClassInfo| view_of_class(x)) == a.map_values(
            |x: ClassInfo| view_of_class(x),
        ).push(view_of_class(c)),
{
    assert(a.push(c).map_values(|x: ClassInfo| view_of_class(x)) =~= a.map_values(
        |x: ClassInfo| view_of_class(x),
    ).push(view_of_class(c)));
}

proof fn lemma_push_type_view(a: Seq<TypeInfo>, t: TypeInfo)
    ensures
        a.push(t).map_values(|x: TypeInfo| view_of_type(x)) == a.map_values(
            |x: TypeInfo| view_of_type(x),
        ).push(view_of_type(t)),
{
    assert(a.push(t).map_values(|x: TypeInfo| view_of_type(x)) =~= a.map_values(
        |x: TypeInfo| view_of_type(x),
    ).push(view_of_type(t)));
}

proof fn lemma_push_const_view(a: Seq<ConstantInfo>, c: ConstantInfo)
    ensures
        a.push(c).map_values(|x: ConstantInfo| x.name@) == a.map_values(
            |x: ConstantInfo| x.name@,
        ).push(c.name@),
{
    assert(a.push(c).map_values(|x: ConstantInfo| x.name@) =~= a.map_values(
        |x: ConstantInfo| x.name@,
    ).push(c.name@));
}

proof fn lemma_push_param_view(a: Seq<Parameter>, p: Parameter)
    ensures
        a.push(p).map_values(|x: Parameter| view_of_parameter(x)) == a.map_values(
            |x: Parameter| view_of_parameter(x),
        ).push(view_of_parameter(p)),
{
    assert(a.push(p).map_values(|x: Parameter| view_of_parameter(x)) =~= a.map_values(
        |x: Parameter| view_of_parameter(x),
    ).push(view_of_parameter(p)));
}

proof fn lemma_push_pat_view(a: Seq<JsPat>, p: JsPat)
    ensures
        a.push(p).map_values(|x: JsPat| param_of_pat(x)) == a.map_values(
            |x: JsPat| param_of_pat(x),
        ).push(param_of_pat(p)),
{
    assert(a.push(p).map_values(|x: JsPat| param_of_pat(x)) =~= a.map_values(
        |x: JsPat| param_of_pat(x),
    ).push(param_of_pat(p)));
}

// ---------------------------------------------------------------------
// The executable walk.
// ---------------------------------------------------------------------

/// Produces the parameter record for one pattern.
pub fn extract_parameter_info(pat: &JsPat) -> (r: Parameter)
    ensures
        view_of_parameter(r) == param_of_pat(*pat),
{
    match pat {
        JsPat::Ident { name, has_type, optional } => Parameter {
            name: name.clone(),
            param_type: if *has_type {
                Some(unknown_string())
            } else {
                None
            },
            is_optional: *optional,
            is_rest: false,
            default_value: None,
        },
        JsPat::RestIdent { name, has_type } => Parameter {
            name: name.clone(),
            param_type: if *has_type {
                Some(unknown_string())
            } else {
                None
            },
            is_optional: false,
            is_rest: true,
            default_value: None,
        },
        JsPat::RestOther => {
            let mut v: Vec<char> = Vec::new();
            v.push('.');
            v.push('.');
            v.push('.');
            v.push('u');
            v.push('n');
            v.push('k');
            v.push('n');
            v.push('o');
            v.push('w');
            v.push('n');
            proof {
                assert(v@ =~= rest_unknown_str());
            }
            Parameter {
                name: to_string_of(&v),
                param_type: None,
                is_optional: false,
                is_rest: true,
                default_value: None,
            }
        },
        JsPat::AssignIdent { name, has_type } => Parameter {
            name: name.clone(),
            param_type: if *has_type {
                Some(unknown_string())
            } else {
                None
            },
            is_optional: true,
            is_rest: false,
            default_value: Some(default_string()),
        },
        JsPat::AssignOther => Parameter {
            name: unknown_string(),
            param_type: None,
            is_optional: true,
            is_rest: false,
            default_value: Some(default_string()),
        },
        JsPat::Other => Parameter {
            name: unknown_string(),
            param_type: None,
            is_optional: false,
            is_rest: false,
            default_value: None,
        },
    }
}

/// Produces the function record for a named function.
pub fn extract_function_info(func: &JsFunction, name: &str) -> (r: FunctionInfo)
    ensures
        view_of_fn(r) == fn_view_of(name@, *func),
{
    let n = func.params.len();
    let mut parameters: Vec<Parameter> = Vec::new();
    let mut k: usize = 0;
    while k < n
        invariant
            k <= n == func.params@.len(),
            parameters@.len() == k,
            forall|j: int|
                0 <= j < k ==> view_of_parameter(#[trigger] parameters@[j]) == param_of_pat(
                    func.params@[j],
                ),
        decreases n - k,
    {
        parameters.push(extract_parameter_info(&func.params[k]));
        k += 1;
    }
    let name_chars = chars_of(name);
    let r = FunctionInfo {
        name: to_string_of(&name_chars),
        parameters,
        return_type: if func.has_return_type {
            Some(unknown_string())
        } else {
            None
        },
        is_async: func.is_async,
        is_generator: func.is_generator,
        doc_comment: None,
    };
    proof {
        assert(r.parameters@.map_values(|p: Parameter| view_of_parameter(p)) =~= func.params@
            .map_values(|p: JsPat| param_of_pat(p)));
    }
    r
}

/// Produces the class record for a named class: the last constructor's
/// plain parameters, identifier-keyed methods and properties in order,
/// and an `unknown` parent when a superclass is present.
pub fn extract_class_info(class: &JsClass, name: &str) -> (r: ClassInfo)
    ensures
        view_of_class(r) == class_view_of(name@, *class),
{
    let n = class.members.len();
    let mut constructor: Option<FunctionInfo> = None;
    let mut methods: Vec<FunctionInfo> = Vec::new();
    let mut properties: Vec<PropertyInfo> = Vec::new();
    let mut k: usize = 0;
    proof {
        assert(class.members@.subrange(0, 0) =~= Seq::<JsMember>::empty());
        assert(methods@.map_values(|f: FunctionInfo| view_of_fn(f)) =~= methods_of_members(
            class.members@.subrange(0, 0),
        ));
        assert(properties@.map_values(|p: PropertyInfo| view_of_prop(p)) =~= props_of_members(
            class.members@.subrange(0, 0),
        ));
    }
    while k < n
        invariant
            k <= n == class.members@.len(),
            match ctor_of_members(class.members@.subrange(0, k as int)) {
                Some(ps) => match constructor {
                    Some(f) => view_of_fn(f) == ctor_view_of(ps),
                    None => false,
                },
                None => constructor is None,
            },
            methods@.map_values(|f: FunctionInfo| view_of_fn(f)) == methods_of_members(
                class.members@.subrange(0, k as int),
            ),
            properties@.map_values(|p: PropertyInfo| view_of_prop(p)) == props_of_members(
                class.members@.subrange(0, k as int),
            ),
        decreases n - k,
    {
        proof {
            assert(class.members@.subrange(0, k + 1 as int).drop_last() =~= class.members@
                .subrange(0, k as int));
            assert(class.members@.subrange(0, k + 1 as int).last() == class.members@[k as int]);
        }
        match &class.members[k] {
            JsMember::Ctor { params } => {
                let pn = params.len();
                let mut ps: Vec<Parameter> = Vec::new();
                let mut j: usize = 0;
                proof {
                    assert(params@.subrange(0, 0) =~= Seq::<JsCtorParam>::empty());
                    assert(ps@.map_values(|p: Parameter| view_of_parameter(p))
                        =~= plain_ctor_params(params@.subrange(0, 0)).map_values(
                        |p: JsPat| param_of_pat(p),
                    ));
                }
                while j < pn
                    invariant
                        j <= pn == params@.len(),
                        ps@.map_values(|p: Parameter| view_of_parameter(p)) == plain_ctor_params(
                            params@.subrange(0, j as int),
                        ).map_values(|p: JsPat| param_of_pat(p)),
                    decreases pn - j,
                {
                    proof {
                        assert(params@.subrange(0, j + 1 as int).drop_last() =~= params@.subrange(
                            0,
                            j as int,
                        ));
                        assert(params@.subrange(0, j + 1 as int).last() == params@[j as int]);
                    }
                    match &params[j] {
                        JsCtorParam::Plain(p) => {
                            ps.push(extract_parameter_info(p));
                            proof {
                                assert(params@[j as int] == JsCtorParam::Plain(*p));
                                assert(plain_ctor_params(params@.subrange(0, j + 1 as int))
                                    =~= plain_ctor_params(params@.subrange(0, j as int)).push(*p));
                                assert(ps@.drop_last().push(ps@.last()) =~= ps@);
                                lemma_push_param_view(ps@.drop_last(), ps@.last());
                                lemma_push_pat_view(
                                    plain_ctor_params(params@.subrange(0, j as int)),
                                    *p,
                                );
                            }
                        },
                        JsCtorParam::TsProp => {
                            proof {
                                assert(plain_ctor_params(params@.subrange(0, j + 1 as int))
                                    =~= plain_ctor_params(params@.subrange(0, j as int)));
                            }
                        },
                    }
                    j += 1;
                }
                proof {
                    assert(params@.subrange(0, pn as int) =~= params@);
                }
                let mut cname: Vec<char> = Vec::new();
                cname.push('c');
                cname.push('o');
                cname.push('n');
                cname.push('s');
                cname.push('t');
                cname.push('r');
                cname.push('u');
                cname.push('c');
                cname.push('t');
                cname.push('o');
                cname.push('r');
                proof {
                    assert(cname@ =~= constructor_str());
                }
                constructor = Some(
                    FunctionInfo {
                        name: to_string_of(&cname),
                        parameters: ps,
                        return_type: None,
                        is_async: false,
                        is_generator: false,
                        doc_comment: None,
                    },
                );
            },
            JsMember::Method { name: mname, func } => {
                match mname {
                    Some(id) => {
                        methods.push(extract_function_info(func, id.as_str()));
                        proof {
                            lemma_push_fn_view(methods@.drop_last(), methods@.last());
                            assert(methods@.drop_last().push(methods@.last()) =~= methods@);
                        }
                    },
                    None => {},
                }
            },
            JsMember::Prop { name: pname, has_type, readonly, is_static } => {
                match pname {
                    Some(id) => {
                        let p = PropertyInfo {
                            name: id.clone(),
                            property_type: if *has_type {
                                Some(unknown_string())
                            } else {
                                None
                            },
                            is_readonly: *readonly,
                            is_static: *is_static,
                            doc_comment: None,
                        };
                        properties.push(p);
                        proof {
                            assert(properties@.map_values(|p: PropertyInfo| view_of_prop(p))
                                =~= props_of_members(class.members@.subrange(0, k + 1 as int)));
                        }
                    },
                    None => {},
                }
            },
            JsMember::Other => {},
        }
        proof {
            assert(methods@.map_values(|f: FunctionInfo| view_of_fn(f)) =~= methods_of_members(
                class.members@.subrange(0, k + 1 as int),
            ));
            assert(properties@.map_values(|p: PropertyInfo| view_of_prop(p)) =~= props_of_members(
                class.members@.subrange(0, k + 1 as int),
            ));
        }
        k += 1;
    }
    proof {
        assert(class.members@.subrange(0, n as int) =~= class.members@);
    }
    let name_chars = chars_of(name);
    let r = ClassInfo {
        name: to_string_of(&name_chars),
        constructor,
        methods,
        properties,
        extends: if class.has_super {
            Some(unknown_string())
        } else {
            None
        },
        implements: Vec::new(),
        doc_comment: None,
    };
    proof {
        assert(r.implements@.map_values(|s: String| s@) =~= Seq::<Seq<char>>::empty());
    }
    r
}

/// Applies one top-level declaration to the module record.
pub fn process_decl(mi: &mut NodeModuleInfo, d: &JsDecl, is_export: bool)
    ensures
        shape_of_module(*final(mi)) == step_decl(shape_of_module(*old(mi)), *d, is_export),
        final(mi).version == old(mi).version,
        final(mi).main == old(mi).main,
        final(mi).submodules == old(mi).submodules,
{
    let ghost s0 = shape_of_module(*old(mi));
    match d {
        JsDecl::Fn { name, func } => {
            if is_export {
                let nm2 = name.clone();
                let ghost prev = mi.exports@;
                mi.exports.push(nm2);
                proof {
                    lemma_push_string_view(prev, mi.exports@.last());
                    assert(mi.exports@.map_values(|s: String| s@) == prev.map_values(
                        |s: String| s@,
                    ).push(name@));
                }
            }
            let f = extract_function_info(func, name.as_str());
            let ghost fv = view_of_fn(f);
            let ghost fs = mi.functions@;
            mi.add_function(f);
            proof {
                lemma_push_fn_view(fs, mi.functions@.last());
                assert(mi.functions@.map_values(|x: FunctionInfo| view_of_fn(x)) == fs.map_values(
                    |x: FunctionInfo| view_of_fn(x),
                ).push(fv));
                assert(shape_of_module(*mi) == step_decl(s0, *d, is_export));
            }
        },
        JsDecl::ClassDecl { name, class } => {
            if is_export {
                let nm2 = name.clone();
                let ghost prev = mi.exports@;
                mi.exports.push(nm2);
                proof {
                    lemma_push_string_view(prev, mi.exports@.last());
                    assert(mi.exports@.map_values(|s: String| s@) == prev.map_values(
                        |s: String| s@,
                    ).push(name@));
                }
            }
            let c = extract_class_info(class, name.as_str());
            let ghost cv = view_of_class(c);
            let ghost cs = mi.classes@;
            mi.add_class(c);
            proof {
                lemma_push_class_view(cs, mi.classes@.last());
                assert(mi.classes@.map_values(|x: ClassInfo| view_of_class(x)) == cs.map_values(
                    |x: ClassInfo| view_of_class(x),
                ).push(cv));
                assert(shape_of_module(*mi) == step_decl(s0, *d, is_export));
            }
        },
        JsDecl::Var { decls } => {
            let n = decls.len();
            let mut j: usize = 0;
            proof {
                assert(decls@.subrange(0, 0) =~= Seq::<JsVarDecl>::empty());
            }
            while j < n
                invariant
                    j <= n == decls@.len(),
                    shape_of_module(*mi) == step_vars(s0, decls@.subrange(0, j as int), is_export),
                    mi.version == old(mi).version,
                    mi.main == old(mi).main,
                    mi.submodules == old(mi).submodules,
                decreases n - j,
            {
                proof {
                    assert(decls@.subrange(0, j + 1 as int).drop_last() =~= decls@.subrange(
                        0,
                        j as int,
                    ));
                    assert(decls@.subrange(0, j + 1 as int).last() == decls@[j as int]);
                }
                let ghost sj = shape_of_module(*mi);
                match &decls[j].name {
                    Some(nm) => {
                        if is_export {
                            let nm2 = nm.clone();
                            let ghost prev = mi.exports@;
                            mi.exports.push(nm2);
                            proof {
                                lemma_push_string_view(prev, mi.exports@.last());
                                assert(mi.exports@.map_values(|s: String| s@) == prev.map_values(
                                    |s: String| s@,
                                ).push(nm@));
                            }
                        }
                        match &decls[j].init {
                            JsInit::FnLike => {
                                let ghost fs = mi.functions@;
                                let f = FunctionInfo {
                                    name: nm.clone(),
                                    parameters: Vec::new(),
                                    return_type: None,
                                    is_async: false,
                                    is_generator: false,
                                    doc_comment: None,
                                };
                                proof {
                                    assert(f.parameters@.map_values(
                                        |p: Parameter| view_of_parameter(p),
                                    ) =~= Seq::<ParamView>::empty());
                                }
                                let ghost fv = view_of_fn(f);
                                mi.add_function(f);
                                proof {
                                    lemma_push_fn_view(fs, mi.functions@.last());
                                    assert(mi.functions@.map_values(
                                        |x: FunctionInfo| view_of_fn(x),
                                    ) == fs.map_values(|x: FunctionInfo| view_of_fn(x)).push(fv));
                                }
                            },
                            JsInit::OtherExpr => {
                                let ghost cs = mi.constants@;
                                let crec = ConstantInfo {
                                    name: nm.clone(),
                                    value_type: None,
                                    doc_comment: None,
                                };
                                let ghost crv = crec.name@;
                                mi.add_constant(crec);
                                proof {
                                    lemma_push_const_view(cs, mi.constants@.last());
                                    assert(mi.constants@.map_values(|x: ConstantInfo| x.name@)
                                        == cs.map_values(|x: ConstantInfo| x.name@).push(crv));
                                }
                            },
                            JsInit::Absent => {},
                        }
                    },
                    None => {},
                }
                proof {
                    assert(shape_of_module(*mi) == step_var(sj, decls@[j as int], is_export));
                }
                j += 1;
            }
            proof {
                assert(decls@.subrange(0, n as int) =~= decls@);
            }
        },
        JsDecl::Interface { name } => {
            if is_export {
                let nm2 = name.clone();
                let ghost prev = mi.exports@;
                mi.exports.push(nm2);
                proof {
                    lemma_push_string_view(prev, mi.exports@.last());
                    assert(mi.exports@.map_values(|s: String| s@) == prev.map_values(
                        |s: String| s@,
                    ).push(name@));
                }
            }
            let mut def: Vec<char> = Vec::new();
            def.push('i');
            def.push('n');
            def.push('t');
            def.push('e');
            def.push('r');
            def.push('f');
            def.push('a');
            def.push('c');
            def.push('e');
            def.push(' ');
            let nv = chars_of(name.as_str());
            crate::strutil::push_all(&mut def, &nv);
            proof {
                assert(def@ =~= interface_str() + name@);
            }
            let ghost ts = mi.types@;
            mi.add_type(
                TypeInfo {
                    name: name.clone(),
                    kind: TypeKind::Interface,
                    definition: to_string_of(&def),
                    doc_comment: None,
                },
            );
            proof {
                lemma_push_type_view(ts, mi.types@.last());
                assert(mi.types@.map_values(|x: TypeInfo| view_of_type(x)) == ts.map_values(
                    |x: TypeInfo| view_of_type(x),
                ).push(view_of_type(mi.types@.last())));
                assert(shape_of_module(*mi) == step_decl(s0, *d, is_export));
            }
        },
        JsDecl::TypeAlias { name } => {
            if is_export {
                let nm2 = name.clone();
                let ghost prev = mi.exports@;
                mi.exports.push(nm2);
                proof {
                    lemma_push_string_view(prev, mi.exports@.last());
                    assert(mi.exports@.map_values(|s: String| s@) == prev.map_values(
                        |s: String| s@,
                    ).push(name@));
                }
            }
            let mut def: Vec<char> = Vec::new();
            def.push('t');
            def.push('y');
            def.push('p');
            def.push('e');
            def.push(' ');
            let nv = chars_of(name.as_str());
            crate::strutil::push_all(&mut def, &nv);
            proof {
                assert(def@ =~= type_str() + name@);
            }
            let ghost ts = mi.types@;
            mi.add_type(
                TypeInfo {
                    name: name.clone(),
                    kind: TypeKind::Type,
                    definition: to_string_of(&def),
                    doc_comment: None,
                },
            );
            proof {
                lemma_push_type_view(ts, mi.types@.last());
                assert(mi.types@.map_values(|x: TypeInfo| view_of_type(x)) == ts.map_values(
                    |x: TypeInfo| view_of_type(x),
                ).push(view_of_type(mi.types@.last())));
                assert(shape_of_module(*mi) == step_decl(s0, *d, is_export));
            }
        },
        JsDecl::EnumDecl { name } => {
            if is_export {
                let nm2 = name.clone();
                let ghost prev = mi.exports@;
                mi.exports.push(nm2);
                proof {
                    lemma_push_string_view(prev, mi.exports@.last());
                    assert(mi.exports@.map_values(|s: String| s@) == prev.map_values(
                        |s: String| s@,
                    ).push(name@));
                }
            }
            let mut def: Vec<char> = Vec::new();
            def.push('e');
            def.push('n');
            def.push('u');
            def.push('m');
            def.push(' ');
            let nv = chars_of(name.as_str());
            crate::strutil::push_all(&mut def, &nv);
            proof {
                assert(def@ =~= enum_str() + name@);
            }
            let ghost ts = mi.types@;
            mi.add_type(
                TypeInfo {
                    name: name.clone(),
                    kind: TypeKind::Enum,
                    definition: to_string_of(&def),
                    doc_comment: None,
                },
            );
            proof {
                lemma_push_type_view(ts, mi.types@.last());
                assert(mi.types@.map_values(|x: TypeInfo| view_of_type(x)) == ts.map_values(
                    |x: TypeInfo| view_of_type(x),
                ).push(view_of_type(mi.types@.last())));
                assert(shape_of_module(*mi) == step_decl(s0, *d, is_export));
            }
        },
        JsDecl::Other => {},
    }
}

/// Applies one top-level item to the module record.
pub fn process_module_item(mi: &mut NodeModuleInfo, item: &JsItem)
    ensures
        shape_of_module(*final(mi)) == step_item(shape_of_module(*old(mi)), *item),
        final(mi).version == old(mi).version,
        final(mi).main == old(mi).main,
        final(mi).submodules == old(mi).submodules,
{
    let ghost s0 = shape_of_module(*old(mi));
    match item {
        JsItem::ExportDecl(d) => {
            process_decl(mi, d, true);
        },
        JsItem::ExportNamed { names } => {
            let n = names.len();
            let mut j: usize = 0;
            proof {
                assert(names@.subrange(0, 0).map_values(|s: String| s@)
                    =~= Seq::<Seq<char>>::empty());
                assert(s0.exports + names@.subrange(0, 0).map_values(|s: String| s@)
                    =~= s0.exports);
            }
            while j < n
                invariant
                    j <= n == names@.len(),
                    shape_of_module(*mi) == (ModuleShape {
                        exports: s0.exports + names@.subrange(0, j as int).map_values(
                            |s: String| s@,
                        ),
                        ..s0
                    }),
                    mi.version == old(mi).version,
                    mi.main == old(mi).main,
                    mi.submodules == old(mi).submodules,
                decreases n - j,
            {
                let nm2 = names[j].clone();
                let ghost prev = mi.exports@;
                mi.exports.push(nm2);
                proof {
                    lemma_push_string_view(prev, mi.exports@.last());
                    assert(mi.exports@.map_values(|s: String| s@) == prev.map_values(
                        |s: String| s@,
                    ).push(names@[j as int]@));
                    assert(names@.subrange(0, j + 1 as int).map_values(|s: String| s@)
                        =~= names@.subrange(0, j as int).map_values(|s: String| s@).push(
                        names@[j as int]@,
                    ));
                    assert(s0.exports + names@.subrange(0, j + 1 as int).map_values(
                        |s: String| s@,
                    ) =~= (s0.exports + names@.subrange(0, j as int).map_values(|s: String| s@))
                        .push(names@[j as int]@));
                }
                j += 1;
            }
            proof {
                assert(names@.subrange(0, n as int) =~= names@);
                assert(push_names(s0.exports, names@) == s0.exports + names@.map_values(
                    |s: String| s@,
                ));
            }
        },
        JsItem::ExportDefaultFn { name, func } => {
            match name {
                Some(n) => {
                    let f = extract_function_info(func, n.as_str());
                    let ghost fv = view_of_fn(f);
                    let ghost fs = mi.functions@;
                    mi.add_function(f);
                    proof {
                        lemma_push_fn_view(fs, mi.functions@.last());
                        assert(mi.functions@.map_values(|x: FunctionInfo| view_of_fn(x))
                            == fs.map_values(|x: FunctionInfo| view_of_fn(x)).push(fv));
                    }
                },
                None => {},
            }
            let ds = default_string();
            let ghost prev = mi.exports@;
            mi.exports.push(ds);
            proof {
                lemma_push_string_view(prev, mi.exports@.last());
                assert(mi.exports@ == prev.push(mi.exports@.last()));
                assert(mi.exports@.map_values(|s: String| s@) == prev.map_values(
                    |s: String| s@,
                ).push(default_str()));
            }
        },
        JsItem::ExportDefaultClass { name, class } => {
            match name {
                Some(n) => {
                    let c = extract_class_info(class, n.as_str());
                    let ghost cv = view_of_class(c);
                    let ghost cs = mi.classes@;
                    mi.add_class(c);
                    proof {
                        lemma_push_class_view(cs, mi.classes@.last());
                        assert(mi.classes@.map_values(|x: ClassInfo| view_of_class(x))
                            == cs.map_values(|x: ClassInfo| view_of_class(x)).push(cv));
                    }
                },
                None => {},
            }
            let ds = default_string();
            let ghost prev = mi.exports@;
            mi.exports.push(ds);
            proof {
                lemma_push_string_view(prev, mi.exports@.last());
                assert(mi.exports@ == prev.push(mi.exports@.last()));
                assert(mi.exports@.map_values(|s: String| s@) == prev.map_values(
                    |s: String| s@,
                ).push(default_str()));
            }
        },
        JsItem::ExportDefaultOther => {
            let ds = default_string();
            let ghost prev = mi.exports@;
            mi.exports.push(ds);
            proof {
                lemma_push_string_view(prev, mi.exports@.last());
                assert(mi.exports@ == prev.push(mi.exports@.last()));
                assert(mi.exports@.map_values(|s: String| s@) == prev.map_values(
                    |s: String| s@,
                ).push(default_str()));
            }
        },
        JsItem::Import { text } => {
            let t2 = text.clone();
            let ghost prev = mi.imports@;
            mi.imports.push(t2);
            proof {
                lemma_push_string_view(prev, mi.imports@.last());
                assert(mi.imports@.map_values(|s: String| s@) == prev.map_values(
                    |s: String| s@,
                ).push(text@));
            }
        },
        JsItem::StmtDecl(d) => {
            process_decl(mi, d, false);
        },
        JsItem::Other => {},
    }
}

/// Walks all top-level items of a parsed module into a fresh module
/// record named `module_name`.
pub fn extract_module_info(items: &Vec<JsItem>, module_name: &str) -> (r: NodeModuleInfo)
    ensures
        shape_of_module(r) == fold_items(items@, module_name@),
        r.version is None,
        r.main is None,
        r.submodules@.len() == 0,
{
    let nv = chars_of(module_name);
    let mut mi = NodeModuleInfo::new(to_string_of(&nv));
    proof {
        assert(items@.subrange(0, 0) =~= Seq::<JsItem>::empty());
        assert(mi.exports@.map_values(|s: String| s@) =~= Seq::<Seq<char>>::empty());
        assert(mi.imports@.map_values(|s: String| s@) =~= Seq::<Seq<char>>::empty());
        assert(mi.functions@.map_values(|f: FunctionInfo| view_of_fn(f)) =~= Seq::<
            FnView,
        >::empty());
        assert(mi.classes@.map_values(|c: ClassInfo| view_of_class(c)) =~= Seq::<
            ClassView,
        >::empty());
        assert(mi.types@.map_values(|t: TypeInfo| view_of_type(t)) =~= Seq::<TyView>::empty());
        assert(mi.constants@.map_values(|c: ConstantInfo| c.name@) =~= Seq::<Seq<char>>::empty());
        assert(shape_of_module(mi) == fold_items(items@.subrange(0, 0), module_name@));
    }
    let n = items.len();
    let mut i: usize = 0;
    while i < n
        invariant
            i <= n == items@.len(),
            shape_of_module(mi) == fold_items(items@.subrange(0, i as int), module_name@),
            mi.version is None,
            mi.main is None,
            mi.submodules@.len() == 0,
        decreases n - i,
    {
        proof {
            assert(items@.subrange(0, i + 1 as int).drop_last() =~= items@.subrange(0, i as int));
            assert(items@.subrange(0, i + 1 as int).last() == items@[i as int]);
        }
        process_module_item(&mut mi, &items[i]);
        i += 1;
    }
    proof {
        assert(items@.subrange(0, n as int) =~= items@);
    }
    mi
}

} // verus!
