use pretty_node::module_info::{
    FunctionInfo, NodeModuleInfo, Parameter, SignatureInfo, SignatureKind,
};
use pretty_node::module_info::{ClassInfo, ConstantInfo};
use pretty_node::parser::signature::{find_symbol_in_module, parse_import_path};

fn plain_param(name: &str) -> Parameter {
    Parameter {
        name: name.to_string(),
        param_type: None,
        is_optional: false,
        is_rest: false,
        default_value: None,
    }
}

fn plain_function(name: &str, params: Vec<Parameter>) -> FunctionInfo {
    FunctionInfo {
        name: name.to_string(),
        parameters: params,
        return_type: None,
        is_async: false,
        is_generator: false,
        doc_comment: None,
    }
}

#[test]
fn test_module_info_creation() {
    let module = NodeModuleInfo::new("test-module".to_string());
    assert_eq!(module.name, "test-module");
    assert!(module.functions.is_empty());
    assert!(module.classes.is_empty());
    assert!(module.exports.is_empty());
}

#[test]
fn test_parse_import_path() {
    let cases = vec![
        ("lodash:isArray", ("lodash", "isArray")),
        ("@types/node:Buffer", ("@types/node", "Buffer")),
        ("express:Router", ("express", "Router")),
    ];

    for (input, expected) in cases {
        if let Some(colon_pos) = input.find(':') {
            let package = &input[..colon_pos];
            let symbol = &input[colon_pos + 1..];
            assert_eq!((package, symbol), expected);
        }
    }
}

#[test]
fn test_signature_info_creation() {
    let sig = SignatureInfo {
        name: "testFunction".to_string(),
        kind: SignatureKind::Function,
        parameters: vec![],
        return_type: Some("boolean".to_string()),
        doc_comment: None,
    };

    assert_eq!(sig.name, "testFunction");
    assert!(sig.parameters.is_empty());
    assert_eq!(sig.return_type.as_ref().unwrap(), "boolean");
}

#[test]
fn test_package_name_extraction() {
    let test_cases = vec![
        ("express", "express"),
        ("express/lib/router", "express"),
        ("@types/node", "@types/node"),
        ("@types/node/fs", "@types/node"),
    ];

    for (input, expected) in test_cases {
        let parts: Vec<&str> = input.split('/').collect();
        let base_package = if parts[0].starts_with('@') && parts.len() > 1 {
            format!("{}/{}", parts[0], parts[1])
        } else {
            parts[0].to_string()
        };
        assert_eq!(base_package, expected);
    }
}

#[test]
fn test_parse_import_path_library() {
    let ok = parse_import_path("lodash:isArray").unwrap();
    assert_eq!(ok.0, "lodash");
    assert_eq!(ok.1, "isArray");
    let scoped = parse_import_path("@types/node:Buffer").unwrap();
    assert_eq!(scoped.0, "@types/node");
    assert_eq!(scoped.1, "Buffer");
    assert!(parse_import_path("invalid-format-no-colon").is_err());
}

#[test]
fn test_find_symbol_function_match() {
    let mut m = NodeModuleInfo::new("mod".to_string());
    m.add_function(plain_function("isArray", vec![plain_param("value")]));
    let sig = find_symbol_in_module(&m, "isArray").unwrap();
    assert_eq!(sig.name, "isArray");
    assert_eq!(sig.kind, SignatureKind::Function);
    assert_eq!(sig.parameters.len(), 1);
    assert_eq!(sig.parameters[0].name, "value");
    assert!(find_symbol_in_module(&m, "isarray").is_none());
}

#[test]
fn test_find_symbol_class_and_method() {
    let mut m = NodeModuleInfo::new("mod".to_string());
    m.add_class(ClassInfo {
        name: "Router".to_string(),
        constructor: None,
        methods: vec![plain_function("route", vec![plain_param("path")])],
        properties: vec![],
        extends: None,
        implements: vec![],
        doc_comment: None,
    });
    let class_sig = find_symbol_in_module(&m, "Router").unwrap();
    assert_eq!(class_sig.kind, SignatureKind::Constructor);
    assert!(class_sig.parameters.is_empty());
    assert_eq!(class_sig.return_type, Some("Router".to_string()));

    let method_sig = find_symbol_in_module(&m, "route").unwrap();
    assert_eq!(method_sig.kind, SignatureKind::Method);
    assert_eq!(method_sig.name, "Router.route");
    assert_eq!(method_sig.parameters.len(), 1);
}

#[test]
fn test_find_symbol_constant_is_function_kind() {
    let mut m = NodeModuleInfo::new("mod".to_string());
    m.add_constant(ConstantInfo {
        name: "VERSION".to_string(),
        value_type: Some("string".to_string()),
        doc_comment: None,
    });
    let sig = find_symbol_in_module(&m, "VERSION").unwrap();
    assert_eq!(sig.kind, SignatureKind::Function);
    assert!(sig.parameters.is_empty());
    assert_eq!(sig.return_type, Some("string".to_string()));
}

#[test]
fn test_add_submodule_replaces_by_name() {
    let mut root = NodeModuleInfo::new("root".to_string());
    let mut a = NodeModuleInfo::new("first".to_string());
    a.add_function(plain_function("f", vec![]));
    root.add_submodule("sub".to_string(), a);
    assert_eq!(root.submodules.len(), 1);
    let b = NodeModuleInfo::new("second".to_string());
    root.add_submodule("sub".to_string(), b);
    assert_eq!(root.submodules.len(), 1);
    assert_eq!(root.submodules[0].info.name, "second");
    root.add_submodule("other".to_string(), NodeModuleInfo::new("third".to_string()));
    assert_eq!(root.submodules.len(), 2);
}

#[test]
fn test_config_defaults() {
    let c = pretty_node::config::Config::new();
    assert!(!c.no_color);
    assert_eq!(c.module_icon, "\u{1F4E6}");
    assert_eq!(c.function_icon, "\u{26A1}");
}
