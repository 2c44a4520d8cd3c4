use pretty_node::module_info::{FunctionInfo, NodeModuleInfo, SignatureKind};
use pretty_node::parser::import_resolver::{
    lib_module_of, module_file_candidates, parse_import_statement, probe_patterns,
    resolve_import_path, try_smart_signatures, ImportChainResolver, Request,
};

fn function_named(name: &str, params: Vec<&str>) -> FunctionInfo {
    FunctionInfo {
        name: name.to_string(),
        parameters: params
            .iter()
            .map(|p| pretty_node::module_info::Parameter {
                name: p.to_string(),
                param_type: None,
                is_optional: false,
                is_rest: false,
                default_value: None,
            })
            .collect(),
        return_type: None,
        is_async: false,
        is_generator: false,
        doc_comment: None,
    }
}

#[test]
fn test_resolver_direct_hit() {
    let mut m = NodeModuleInfo::new("lodash".to_string());
    m.add_function(function_named("isArray", vec!["value"]));
    m.exports.push("isArray".to_string());

    let resolver = ImportChainResolver::new();
    let (session, req) = resolver.start_resolve("lodash", "isArray");
    match req {
        Request::ParseModule(p) => assert_eq!(p, "lodash"),
        _ => panic!("expected a parse request"),
    }
    let (_, req2) = session.on_parse(Some(m));
    match req2 {
        Request::Done(Some(sig)) => {
            assert_eq!(sig.name, "isArray");
            assert_eq!(sig.kind, SignatureKind::Function);
            assert_eq!(sig.parameters.len(), 1);
            assert_eq!(sig.parameters[0].name, "value");
        }
        _ => panic!("expected a direct hit"),
    }
}

#[test]
fn test_resolver_fallback_express_router() {
    // regardless of file-system contents: the starting module does not parse
    let resolver = ImportChainResolver::new();
    let (session, _) = resolver.start_resolve("express", "Router");
    let (_, req) = session.on_parse(None);
    match req {
        Request::Done(Some(sig)) => {
            assert_eq!(sig.name, "Router");
            assert_eq!(sig.kind, SignatureKind::Constructor);
            assert!(sig.parameters.is_empty());
            assert_eq!(sig.return_type, Some("Router".to_string()));
        }
        _ => panic!("expected the fallback table to answer"),
    }
}

#[test]
fn test_resolver_fallback_lodash_any_symbol() {
    let resolver = ImportChainResolver::new();
    let (session, _) = resolver.start_resolve("lodash", "whatever");
    let (_, req) = session.on_parse(None);
    match req {
        Request::Done(Some(sig)) => {
            assert_eq!(sig.name, "whatever");
            assert_eq!(sig.kind, SignatureKind::Function);
            assert_eq!(sig.parameters.len(), 1);
            assert!(sig.parameters[0].is_rest);
            assert_eq!(sig.doc_comment, Some("Lodash whatever function".to_string()));
        }
        _ => panic!("expected the fallback table to answer"),
    }
}

#[test]
fn test_resolver_unknown_symbol_is_none_not_a_panic() {
    let resolver = ImportChainResolver::new();
    let (session, _) = resolver.start_resolve("nonexistent", "function0");
    let (_, req) = session.on_parse(None);
    match req {
        Request::Done(r) => assert!(r.is_none()),
        _ => panic!("expected completion"),
    }
}

/// Drives a session to completion against a fixed table of modules.
fn run_resolution(
    modules: &[(&str, fn() -> NodeModuleInfo)],
    start_path: &str,
    symbol: &str,
    lib_entries: Option<Vec<String>>,
) -> Option<pretty_node::module_info::SignatureInfo> {
    let resolver = ImportChainResolver::new();
    let (mut session, mut req) = resolver.start_resolve(start_path, symbol);
    let mut steps = 0;
    loop {
        steps += 1;
        assert!(steps < 1000, "resolution must terminate quickly");
        match req {
            Request::Done(r) => return r,
            Request::ParseModule(p) => {
                let found = modules.iter().find(|(path, _)| *path == p).map(|(_, mk)| mk());
                let (s2, r2) = session.on_parse(found);
                session = s2;
                req = r2;
            }
            Request::ListLibDir => {
                let (s2, r2) = session.on_dir(lib_entries.clone());
                session = s2;
                req = r2;
            }
        }
    }
}

fn module_a() -> NodeModuleInfo {
    let mut a = NodeModuleInfo::new("a".to_string());
    a.imports.push("import { X } from './b'".to_string());
    a
}

fn module_b() -> NodeModuleInfo {
    let mut b = NodeModuleInfo::new("b".to_string());
    b.add_function(function_named("X", vec!["arg"]));
    b.exports.push("X".to_string());
    b
}

#[test]
fn test_resolver_follows_relative_reexport() {
    let modules: &[(&str, fn() -> NodeModuleInfo)] = &[("a", module_a), ("b", module_b)];
    let via_a = run_resolution(modules, "a", "X", None).expect("resolved through the re-export");
    let direct = run_resolution(modules, "b", "X", None).expect("resolved directly");
    assert_eq!(via_a.name, direct.name);
    assert_eq!(via_a.kind, direct.kind);
    assert_eq!(via_a.parameters.len(), direct.parameters.len());
    assert_eq!(via_a.parameters[0].name, direct.parameters[0].name);
}

#[test]
fn test_resolver_circular_reexport_fails_closed() {
    fn cyclic_a() -> NodeModuleInfo {
        let mut a = NodeModuleInfo::new("a".to_string());
        a.imports.push("import { X } from './b'".to_string());
        a
    }
    fn cyclic_b() -> NodeModuleInfo {
        let mut b = NodeModuleInfo::new("b".to_string());
        b.imports.push("import { X } from './a'".to_string());
        b
    }
    let modules: &[(&str, fn() -> NodeModuleInfo)] = &[("a", cyclic_a), ("b", cyclic_b)];
    let r = run_resolution(modules, "a", "X", None);
    assert!(r.is_none());
}

#[test]
fn test_resolver_probes_lib_location() {
    fn entry() -> NodeModuleInfo {
        NodeModuleInfo::new("express".to_string())
    }
    fn lib_router() -> NodeModuleInfo {
        let mut m = NodeModuleInfo::new("router".to_string());
        m.add_function(function_named("router", vec![]));
        m
    }
    let modules: &[(&str, fn() -> NodeModuleInfo)] =
        &[("express", entry), ("lib/router", lib_router)];
    let sig = run_resolution(modules, "express", "router", None).expect("found in lib/router");
    assert_eq!(sig.name, "router");
}

#[test]
fn test_resolver_fallback_after_structural_miss() {
    // the module parses but defines nothing; every structural avenue
    // fails, and the fixed table answers
    fn empty_express() -> NodeModuleInfo {
        NodeModuleInfo::new("express".to_string())
    }
    let modules: &[(&str, fn() -> NodeModuleInfo)] = &[("express", empty_express)];
    let sig = run_resolution(modules, "express", "Router", None).expect("fallback answer");
    assert_eq!(sig.name, "Router");
    assert_eq!(sig.kind, SignatureKind::Constructor);
    assert_eq!(sig.return_type, Some("Router".to_string()));
}

#[test]
fn test_parse_import_statement_forms() {
    let es = parse_import_statement("import { Router } from 'express'", "Router").unwrap();
    assert_eq!(es.from_module, Some("express".to_string()));
    assert_eq!(es.import_name, "Router");
    assert!(!es.is_relative);

    let rel = parse_import_statement("import { X } from './b'", "X").unwrap();
    assert_eq!(rel.from_module, Some("./b".to_string()));
    assert!(rel.is_relative);

    let cjs = parse_import_statement("const { Router } = require('express')", "Router").unwrap();
    assert_eq!(cjs.from_module, Some("express".to_string()));
    assert!(!cjs.is_relative);

    assert!(parse_import_statement("import { Other } from 'x'", "Router").is_none());
}

#[test]
fn test_resolve_import_path_forms() {
    let rel = parse_import_statement("import { X } from './b'", "X").unwrap();
    assert_eq!(resolve_import_path("", &rel), Some("b".to_string()));
    assert_eq!(resolve_import_path("lib.router", &rel), Some("lib.b".to_string()));

    let bare = parse_import_statement("import { X } from 'helpers'", "X").unwrap();
    assert_eq!(resolve_import_path("lib.router", &bare), Some("helpers".to_string()));
}

#[test]
fn test_module_file_candidates_order() {
    assert_eq!(
        module_file_candidates(""),
        vec!["index.js", "index.ts", "index.d.ts"]
    );
    assert_eq!(
        module_file_candidates("lib.router"),
        vec![
            "lib/router.js",
            "lib/router.ts",
            "lib/router.d.ts",
            "lib/router/index.js",
            "lib/router/index.ts",
            "lib/router/index.d.ts",
        ]
    );
}

#[test]
fn test_probe_patterns_order() {
    assert_eq!(
        probe_patterns("Router"),
        vec!["lib/router", "src/router", "router", "lib/router", "lib/express", "router"]
    );
}

#[test]
fn test_lib_module_of_strips_extensions() {
    assert_eq!(lib_module_of("router.js"), "lib/router");
    assert_eq!(lib_module_of("router.ts"), "lib/router");
    assert_eq!(lib_module_of("router"), "lib/router");
}

#[test]
fn test_smart_signatures_table() {
    let hook = try_smart_signatures("react", "useState").unwrap();
    assert_eq!(hook.kind, SignatureKind::Function);
    assert_eq!(hook.parameters.len(), 1);
    assert_eq!(hook.parameters[0].name, "initialState");
    assert_eq!(
        hook.return_type,
        Some("[T, Dispatch<SetStateAction<T>>]".to_string())
    );
    assert!(try_smart_signatures("express", "NoSuchThing").is_none());
    assert!(try_smart_signatures("unknownpkg", "Router").is_none());
}
