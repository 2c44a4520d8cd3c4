//! The shared, serializable record describing one module or package: its
//! exported names, raw import statements, functions, classes, types,
//! constants and owned submodules, together with the append-only builder
//! operations used by the parsers.

use vstd::prelude::*;
use vstd::pervasive::VecAdditionalExecFns;

verus! {

/// One callable parameter: name, optional type text, optional default text,
/// and the rest/optional markers.
///
/// By construction, a rest parameter never carries a default value, and a
/// parameter with a default value is always optional.
#[derive(Debug)]
pub struct Parameter {
    pub name: String,
    pub param_type: Option<String>,
    pub is_optional: bool,
    pub is_rest: bool,
    pub default_value: Option<String>,
}

/// A function or method: name, ordered parameters, optional return-type
/// text and the async/generator markers.
#[derive(Debug)]
pub struct FunctionInfo {
    pub name: String,
    pub parameters: Vec<Parameter>,
    pub return_type: Option<String>,
    pub is_async: bool,
    pub is_generator: bool,
    pub doc_comment: Option<String>,
}

/// A class: optional constructor, ordered methods and properties, optional
/// parent class and implemented interfaces.
#[derive(Debug)]
pub struct ClassInfo {
    pub name: String,
    pub constructor: Option<FunctionInfo>,
    pub methods: Vec<FunctionInfo>,
    pub properties: Vec<PropertyInfo>,
    pub extends: Option<String>,
    pub implements: Vec<String>,
    pub doc_comment: Option<String>,
}

#[derive(Debug, Clone, Copy, PartialEq, Eq, Structural)]
pub enum TypeKind {
    Interface,
    Type,
    Enum,
}

/// A named type: interface, type alias or enum, with its raw definition text.
#[derive(Debug)]
pub struct TypeInfo {
    pub name: String,
    pub kind: TypeKind,
    pub definition: String,
    pub doc_comment: Option<String>,
}

/// A top-level constant binding with an optionally inferred value type.
#[derive(Debug)]
pub struct ConstantInfo {
    pub name: String,
    pub value_type: Option<String>,
    pub doc_comment: Option<String>,
}

/// A class property with its readonly/static markers.
#[derive(Debug)]
pub struct PropertyInfo {
    pub name: String,
    pub property_type: Option<String>,
    pub is_readonly: bool,
    pub is_static: bool,
    pub doc_comment: Option<String>,
}

#[derive(Debug, Clone, Copy, PartialEq, Eq, Structural)]
pub enum SignatureKind {
    Function,
    Method,
    Constructor,
    ArrowFunction,
}

/// The resolver's output unit: the callable shape of one named symbol.
#[derive(Debug)]
pub struct SignatureInfo {
    pub name: String,
    pub kind: SignatureKind,
    pub parameters: Vec<Parameter>,
    pub return_type: Option<String>,
    pub doc_comment: Option<String>,
}

/// One named submodule owned by its parent module record.
#[derive(Debug)]
pub struct Submodule {
    pub name: String,
    pub info: NodeModuleInfo,
}

/// The unit of knowledge about one file or package.
///
/// `submodules` is a mapping from submodule name to the submodule's own
/// record, kept as a vector of pairs in insertion order; `add_submodule`
/// keeps the names unique, so the vector is a map.
#[derive(Debug)]
pub struct NodeModuleInfo {
    pub name: String,
    pub version: Option<String>,
    pub main: Option<String>,
    pub exports: Vec<String>,
    pub imports: Vec<String>,
    pub functions: Vec<FunctionInfo>,
    pub classes: Vec<ClassInfo>,
    pub types: Vec<TypeInfo>,
    pub constants: Vec<ConstantInfo>,
    pub submodules: Vec<Submodule>,
}

/// Clones an optional string, preserving its value exactly.
pub fn clone_opt_string(o: &Option<String>) -> (r: Option<String>)
    ensures
        r == *o,
{
    match o {
        Some(s) => Some(s.clone()),
        None => None,
    }
}

/// Copies a parameter vector, preserving its value exactly.
pub fn clone_params(v: &Vec<Parameter>) -> (r: Vec<Parameter>)
    ensures
        r@ == v@,
{
    let n = v.len();
    let mut r: Vec<Parameter> = Vec::new();
    let mut i: usize = 0;
    while i < n
        invariant
            i <= n == v@.len(),
            r@.len() == i,
            forall|k: int| 0 <= k < i ==> r@[k] == v@[k],
        decreases n - i,
    {
        r.push(v[i].clone());
        i += 1;
    }
    proof {
        assert(r@ =~= v@);
    }
    r
}

impl Clone for Parameter {
    fn clone(&self) -> (r: Self)
        ensures
            r == *self,
    {
        Parameter {
            name: self.name.clone(),
            param_type: clone_opt_string(&self.param_type),
            is_optional: self.is_optional,
            is_rest: self.is_rest,
            default_value: clone_opt_string(&self.default_value),
        }
    }
}

/// Equivalence of function records: equal in every field, with the
/// parameter vectors compared by contents.
pub open spec fn fn_eqv(a: FunctionInfo, b: FunctionInfo) -> bool {
    &&& a.name == b.name
    &&& a.parameters@ == b.parameters@
    &&& a.return_type == b.return_type
    &&& a.is_async == b.is_async
    &&& a.is_generator == b.is_generator
    &&& a.doc_comment == b.doc_comment
}

/// Equivalence of class records: equal in every field, with the contained
/// vectors compared by contents.
pub open spec fn class_eqv(a: ClassInfo, b: ClassInfo) -> bool {
    &&& a.name == b.name
    &&& match (a.constructor, b.constructor) {
        (Some(x), Some(y)) => fn_eqv(x, y),
        (None, None) => true,
        _ => false,
    }
    &&& a.methods@.len() == b.methods@.len()
    &&& forall|i: int| 0 <= i < a.methods@.len() ==> fn_eqv(a.methods@[i], b.methods@[i])
    &&& a.properties@ == b.properties@
    &&& a.extends == b.extends
    &&& a.implements@ == b.implements@
    &&& a.doc_comment == b.doc_comment
}

/// Equivalence of signatures: equal in every field, with the parameter
/// vectors compared by contents.
pub open spec fn sig_eqv(a: SignatureInfo, b: SignatureInfo) -> bool {
    &&& a.name == b.name
    &&& a.kind == b.kind
    &&& a.parameters@ == b.parameters@
    &&& a.return_type == b.return_type
    &&& a.doc_comment == b.doc_comment
}

impl Clone for FunctionInfo {
    fn clone(&self) -> (r: Self)
        ensures
            fn_eqv(r, *self),
    {
        FunctionInfo {
            name: self.name.clone(),
            parameters: clone_params(&self.parameters),
            return_type: clone_opt_string(&self.return_type),
            is_async: self.is_async,
            is_generator: self.is_generator,
            doc_comment: clone_opt_string(&self.doc_comment),
        }
    }
}

/// Copies a string vector, preserving its value exactly.
pub fn clone_strings(v: &Vec<String>) -> (r: Vec<String>)
    ensures
        r@ == v@,
{
    let n = v.len();
    let mut r: Vec<String> = Vec::new();
    let mut i: usize = 0;
    while i < n
        invariant
            i <= n == v@.len(),
            r@.len() == i,
            forall|k: int| 0 <= k < i ==> r@[k] == v@[k],
        decreases n - i,
    {
        r.push(v[i].clone());
        i += 1;
    }
    proof {
        assert(r@ =~= v@);
    }
    r
}

fn clone_functions(v: &Vec<FunctionInfo>) -> (r: Vec<FunctionInfo>)
    ensures
        r@.len() == v@.len(),
        forall|k: int| 0 <= k < v@.len() ==> fn_eqv(r@[k], v@[k]),
{
    let n = v.len();
    let mut r: Vec<FunctionInfo> = Vec::new();
    let mut i: usize = 0;
    while i < n
        invariant
            i <= n == v@.len(),
            r@.len() == i,
            forall|k: int| 0 <= k < i ==> fn_eqv(r@[k], v@[k]),
        decreases n - i,
    {
        r.push(v[i].clone());
        i += 1;
    }
    r
}

fn clone_properties(v: &Vec<PropertyInfo>) -> (r: Vec<PropertyInfo>)
    ensures
        r@ == v@,
{
    let n = v.len();
    let mut r: Vec<PropertyInfo> = Vec::new();
    let mut i: usize = 0;
    while i < n
        invariant
            i <= n == v@.len(),
            r@.len() == i,
            forall|k: int| 0 <= k < i ==> r@[k] == v@[k],
        decreases n - i,
    {
        r.push(v[i].clone());
        i += 1;
    }
    proof {
        assert(r@ =~= v@);
    }
    r
}

impl Clone for PropertyInfo {
    fn clone(&self) -> (r: Self)
        ensures
            r == *self,
    {
        PropertyInfo {
            name: self.name.clone(),
            property_type: clone_opt_string(&self.property_type),
            is_readonly: self.is_readonly,
            is_static: self.is_static,
            doc_comment: clone_opt_string(&self.doc_comment),
        }
    }
}

impl Clone for ClassInfo {
    fn clone(&self) -> (r: Self)
        ensures
            class_eqv(r, *self),
    {
        ClassInfo {
            name: self.name.clone(),
            constructor: match &self.constructor {
                Some(c) => Some(c.clone()),
                None => None,
            },
            methods: clone_functions(&self.methods),
            properties: clone_properties(&self.properties),
            extends: clone_opt_string(&self.extends),
            implements: clone_strings(&self.implements),
            doc_comment: clone_opt_string(&self.doc_comment),
        }
    }
}

impl Clone for TypeInfo {
    fn clone(&self) -> (r: Self)
        ensures
            r == *self,
    {
        TypeInfo {
            name: self.name.clone(),
            kind: self.kind,
            definition: self.definition.clone(),
            doc_comment: clone_opt_string(&self.doc_comment),
        }
    }
}

impl Clone for ConstantInfo {
    fn clone(&self) -> (r: Self)
        ensures
            r == *self,
    {
        ConstantInfo {
            name: self.name.clone(),
            value_type: clone_opt_string(&self.value_type),
            doc_comment: clone_opt_string(&self.doc_comment),
        }
    }
}

impl Clone for SignatureInfo {
    fn clone(&self) -> (r: Self)
        ensures
            sig_eqv(r, *self),
    {
        SignatureInfo {
            name: self.name.clone(),
            kind: self.kind,
            parameters: clone_params(&self.parameters),
            return_type: clone_opt_string(&self.return_type),
            doc_comment: clone_opt_string(&self.doc_comment),
        }
    }
}

/// First index in `subs` whose name reads `name`, searching from `i`.
pub open spec fn find_submodule_idx(subs: Seq<Submodule>, name: Seq<char>, i: int) -> Option<int>
    recommends
        0 <= i,
    decreases subs.len() - i + 1,
{
    if i < 0 || i >= subs.len() {
        None
    } else if subs[i].name@ == name {
        Some(i)
    } else {
        find_submodule_idx(subs, name, i + 1)
    }
}

impl NodeModuleInfo {
    /// The submodule names are pairwise distinct, so the vector denotes a map.
    pub open spec fn submodules_wf(&self) -> bool {
        forall|i: int, j: int|
            0 <= i < j < self.submodules@.len() ==> self.submodules@[i].name@
                != self.submodules@[j].name@
    }

    /// A fresh record with the given name and every collection empty.
    pub fn new(name: String) -> (r: Self)
        ensures
            r.name == name,
            r.version is None,
            r.main is None,
            r.exports@ == Seq::<String>::empty(),
            r.imports@ == Seq::<String>::empty(),
            r.functions@ == Seq::<FunctionInfo>::empty(),
            r.classes@ == Seq::<ClassInfo>::empty(),
            r.types@ == Seq::<TypeInfo>::empty(),
            r.constants@ == Seq::<ConstantInfo>::empty(),
            r.submodules@ == Seq::<Submodule>::empty(),
            r.submodules_wf(),
    {
        let r = NodeModuleInfo {
            name,
            version: None,
            main: None,
            exports: Vec::new(),
            imports: Vec::new(),
            functions: Vec::new(),
            classes: Vec::new(),
            types: Vec::new(),
            constants: Vec::new(),
            submodules: Vec::new(),
        };
        proof {
            assert(r.exports@ =~= Seq::<String>::empty());
            assert(r.imports@ =~= Seq::<String>::empty());
            assert(r.functions@ =~= Seq::<FunctionInfo>::empty());
            assert(r.classes@ =~= Seq::<ClassInfo>::empty());
            assert(r.types@ =~= Seq::<TypeInfo>::empty());
            assert(r.constants@ =~= Seq::<ConstantInfo>::empty());
            assert(r.submodules@ =~= Seq::<Submodule>::empty());
        }
        r
    }

    /// Inserts `module` under `name`: replaces the entry with that name if
    /// one exists, appends a new entry otherwise.  All other fields are
    /// unchanged, and distinctness of submodule names is preserved.
    pub fn add_submodule(&mut self, name: String, module: NodeModuleInfo)
        ensures
            match find_submodule_idx(old(self).submodules@, name@, 0) {
                Some(i) => final(self).submodules@ == old(self).submodules@.update(
                    i,
                    (Submodule { name, info: module }),
                ),
                None => final(self).submodules@ == old(self).submodules@.push(
                    (Submodule { name, info: module }),
                ),
            },
            old(self).submodules_wf() ==> final(self).submodules_wf(),
            final(self).name == old(self).name,
            final(self).version == old(self).version,
            final(self).main == old(self).main,
            final(self).exports == old(self).exports,
            final(self).imports == old(self).imports,
            final(self).functions == old(self).functions,
            final(self).classes == old(self).classes,
            final(self).types == old(self).types,
            final(self).constants == old(self).constants,
    {
        let n = self.submodules.len();
        let mut i: usize = 0;
        while i < n
            invariant
                i <= n == self.submodules@.len(),
                *self == *old(self),
                forall|k: int| 0 <= k < i ==> self.submodules@[k].name@ != name@,
            decreases n - i,
        {
            if eq_string(&self.submodules[i].name, &name) {
                proof {
                    lemma_find_submodule_idx(old(self).submodules@, name@, 0);
                    match find_submodule_idx(old(self).submodules@, name@, 0) {
                        Some(j) => {
                            if j < i as int {
                                assert(false);
                            }
                            if j > i as int {
                                assert(old(self).submodules@[i as int].name@ != name@);
                                assert(false);
                            }
                        },
                        None => {
                            assert(old(self).submodules@[i as int].name@ != name@);
                            assert(false);
                        },
                    }
                }
                self.submodules.set(i, Submodule { name, info: module });
                return ;
            }
            i += 1;
        }
        proof {
            lemma_find_submodule_idx(old(self).submodules@, name@, 0);
            match find_submodule_idx(old(self).submodules@, name@, 0) {
                Some(j) => {
                    assert(old(self).submodules@[j].name@ == name@);
                    assert(false);
                },
                None => {},
            }
        }
        self.submodules.push(Submodule { name, info: module });
    }

    /// Appends a function record; nothing else changes.
    pub fn add_function(&mut self, function: FunctionInfo)
        ensures
            final(self).functions@ == old(self).functions@.push(function),
            final(self).name == old(self).name,
            final(self).version == old(self).version,
            final(self).main == old(self).main,
            final(self).exports == old(self).exports,
            final(self).imports == old(self).imports,
            final(self).classes == old(self).classes,
            final(self).types == old(self).types,
            final(self).constants == old(self).constants,
            final(self).submodules == old(self).submodules,
    {
        self.functions.push(function);
    }

    /// Appends a class record; nothing else changes.
    pub fn add_class(&mut self, class: ClassInfo)
        ensures
            final(self).classes@ == old(self).classes@.push(class),
            final(self).name == old(self).name,
            final(self).version == old(self).version,
            final(self).main == old(self).main,
            final(self).exports == old(self).exports,
            final(self).imports == old(self).imports,
            final(self).functions == old(self).functions,
            final(self).types == old(self).types,
            final(self).constants == old(self).constants,
            final(self).submodules == old(self).submodules,
    {
        self.classes.push(class);
    }

    /// Appends a type record; nothing else changes.
    pub fn add_type(&mut self, type_info: TypeInfo)
        ensures
            final(self).types@ == old(self).types@.push(type_info),
            final(self).name == old(self).name,
            final(self).version == old(self).version,
            final(self).main == old(self).main,
            final(self).exports == old(self).exports,
            final(self).imports == old(self).imports,
            final(self).functions == old(self).functions,
            final(self).classes == old(self).classes,
            final(self).constants == old(self).constants,
            final(self).submodules == old(self).submodules,
    {
        self.types.push(type_info);
    }

    /// Appends a constant record; nothing else changes.
    pub fn add_constant(&mut self, constant: ConstantInfo)
        ensures
            final(self).constants@ == old(self).constants@.push(constant),
            final(self).name == old(self).name,
            final(self).version == old(self).version,
            final(self).main == old(self).main,
            final(self).exports == old(self).exports,
            final(self).imports == old(self).imports,
            final(self).functions == old(self).functions,
            final(self).classes == old(self).classes,
            final(self).types == old(self).types,
            final(self).submodules == old(self).submodules,
    {
        self.constants.push(constant);
    }
}

pub proof fn lemma_find_submodule_idx(subs: Seq<Submodule>, name: Seq<char>, i: int)
    requires
        0 <= i,
    ensures
        match find_submodule_idx(subs, name, i) {
            Some(j) => i <= j < subs.len() && subs[j].name@ == name && forall|k: int|
                i <= k < j ==> subs[k].name@ != name,
            None => forall|k: int| i <= k < subs.len() ==> subs[k].name@ != name,
        },
    decreases subs.len() - i + 1,
{
    if 0 <= i < subs.len() && subs[i].name@ != name {
        lemma_find_submodule_idx(subs, name, i + 1);
    }
}

/// String equality through the standard `==`, stated over the views.
pub fn eq_string(a: &String, b: &String) -> (r: bool)
    ensures
        r == (a@ == b@),
{
    a.eq(b)
}

} // verus!
