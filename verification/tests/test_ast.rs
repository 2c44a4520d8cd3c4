use pretty_node::parser::ast_parser::{
    extract_module_info, JsClass, JsDecl, JsFunction, JsInit, JsItem, JsMember, JsPat, JsVarDecl,
};
use pretty_node::module_info::TypeKind;

fn fn_with_params(params: Vec<JsPat>) -> JsFunction {
    JsFunction { params, has_return_type: false, is_async: false, is_generator: false }
}

#[test]
fn test_extract_exported_function() {
    let items = vec![
        JsItem::ExportDecl(JsDecl::Fn {
            name: "isArray".to_string(),
            func: fn_with_params(vec![JsPat::Ident {
                name: "value".to_string(),
                has_type: false,
                optional: false,
            }]),
        }),
    ];
    let m = extract_module_info(&items, "index");
    assert_eq!(m.name, "index");
    assert_eq!(m.exports, vec!["isArray"]);
    assert_eq!(m.functions.len(), 1);
    assert_eq!(m.functions[0].name, "isArray");
    assert_eq!(m.functions[0].parameters.len(), 1);
    assert_eq!(m.functions[0].parameters[0].name, "value");
    assert_eq!(m.functions[0].parameters[0].param_type, None);
}

#[test]
fn test_extract_var_declarations() {
    let items = vec![
        JsItem::ExportDecl(JsDecl::Var {
            decls: vec![
                JsVarDecl { name: Some("helper".to_string()), init: JsInit::FnLike },
                JsVarDecl { name: Some("VERSION".to_string()), init: JsInit::OtherExpr },
                JsVarDecl { name: Some("declared".to_string()), init: JsInit::Absent },
                JsVarDecl { name: None, init: JsInit::OtherExpr },
            ],
        }),
    ];
    let m = extract_module_info(&items, "mod");
    assert_eq!(m.exports, vec!["helper", "VERSION", "declared"]);
    assert_eq!(m.functions.len(), 1);
    assert_eq!(m.functions[0].name, "helper");
    assert!(m.functions[0].parameters.is_empty());
    assert_eq!(m.constants.len(), 1);
    assert_eq!(m.constants[0].name, "VERSION");
}

#[test]
fn test_extract_class_with_members() {
    let class = JsClass {
        members: vec![
            JsMember::Ctor {
                params: vec![
                    pretty_node::parser::ast_parser::JsCtorParam::Plain(JsPat::Ident {
                        name: "options".to_string(),
                        has_type: true,
                        optional: false,
                    }),
                    pretty_node::parser::ast_parser::JsCtorParam::TsProp,
                ],
            },
            JsMember::Method {
                name: Some("get".to_string()),
                func: fn_with_params(vec![JsPat::Ident {
                    name: "key".to_string(),
                    has_type: false,
                    optional: true,
                }]),
            },
            JsMember::Prop {
                name: Some("size".to_string()),
                has_type: true,
                readonly: true,
                is_static: false,
            },
            JsMember::Method { name: None, func: fn_with_params(vec![]) },
        ],
        has_super: true,
    };
    let items = vec![
        JsItem::StmtDecl(JsDecl::ClassDecl { name: "Store".to_string(), class }),
    ];
    let m = extract_module_info(&items, "mod");
    assert!(m.exports.is_empty());
    assert_eq!(m.classes.len(), 1);
    let c = &m.classes[0];
    assert_eq!(c.name, "Store");
    let ctor = c.constructor.as_ref().unwrap();
    assert_eq!(ctor.name, "constructor");
    assert_eq!(ctor.parameters.len(), 1);
    assert_eq!(ctor.parameters[0].name, "options");
    assert_eq!(ctor.parameters[0].param_type, Some("unknown".to_string()));
    assert_eq!(c.methods.len(), 1);
    assert_eq!(c.methods[0].name, "get");
    assert!(c.methods[0].parameters[0].is_optional);
    assert_eq!(c.properties.len(), 1);
    assert_eq!(c.properties[0].name, "size");
    assert!(c.properties[0].is_readonly);
    assert_eq!(c.extends, Some("unknown".to_string()));
}

#[test]
fn test_extract_default_export_and_named() {
    let items = vec![
        JsItem::ExportDefaultFn {
            name: Some("main".to_string()),
            func: fn_with_params(vec![]),
        },
        JsItem::ExportNamed { names: vec!["a".to_string(), "b".to_string()] },
        JsItem::ExportDefaultOther,
    ];
    let m = extract_module_info(&items, "mod");
    assert_eq!(m.exports, vec!["default", "a", "b", "default"]);
    assert_eq!(m.functions.len(), 1);
    assert_eq!(m.functions[0].name, "main");
}

#[test]
fn test_extract_types_and_imports() {
    let items = vec![
        JsItem::ExportDecl(JsDecl::Interface { name: "Shape".to_string() }),
        JsItem::StmtDecl(JsDecl::TypeAlias { name: "Alias".to_string() }),
        JsItem::ExportDecl(JsDecl::EnumDecl { name: "Color".to_string() }),
        JsItem::Import { text: "import { X } from './b'".to_string() },
    ];
    let m = extract_module_info(&items, "mod");
    assert_eq!(m.types.len(), 3);
    assert_eq!(m.types[0].name, "Shape");
    assert_eq!(m.types[0].kind, TypeKind::Interface);
    assert_eq!(m.types[0].definition, "interface Shape");
    assert_eq!(m.types[1].kind, TypeKind::Type);
    assert_eq!(m.types[1].definition, "type Alias");
    assert_eq!(m.types[2].kind, TypeKind::Enum);
    assert_eq!(m.types[2].definition, "enum Color");
    assert_eq!(m.exports, vec!["Shape", "Color"]);
    assert_eq!(m.imports, vec!["import { X } from './b'"]);
}

#[test]
fn test_extract_rest_and_default_patterns() {
    let items = vec![
        JsItem::StmtDecl(JsDecl::Fn {
            name: "f".to_string(),
            func: fn_with_params(vec![
                JsPat::RestIdent { name: "rest".to_string(), has_type: false },
                JsPat::AssignIdent { name: "opt".to_string(), has_type: false },
                JsPat::Other,
            ]),
        }),
    ];
    let m = extract_module_info(&items, "mod");
    let ps = &m.functions[0].parameters;
    assert!(ps[0].is_rest);
    assert_eq!(ps[0].name, "rest");
    assert!(ps[1].is_optional);
    assert_eq!(ps[1].default_value, Some("default".to_string()));
    assert_eq!(ps[2].name, "unknown");
}
