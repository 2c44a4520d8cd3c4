use pretty_node::utils::{extract_base_package, is_dts_file, is_js_file, parse_package_spec};

#[test]
fn test_parse_package_spec() {
    assert_eq!(parse_package_spec("express"), ("express".to_string(), None));
    assert_eq!(
        parse_package_spec("express@4.18.0"),
        ("express".to_string(), Some("4.18.0".to_string()))
    );
    assert_eq!(
        parse_package_spec("@types/node"),
        ("@types/node".to_string(), None)
    );
    assert_eq!(
        parse_package_spec("@types/node@18.0.0"),
        ("@types/node".to_string(), Some("18.0.0".to_string()))
    );
}

#[test]
fn test_extract_base_package() {
    assert_eq!(extract_base_package("express"), "express");
    assert_eq!(extract_base_package("express/lib/router"), "express");
    assert_eq!(extract_base_package("@types/node"), "@types/node");
    assert_eq!(extract_base_package("@types/node/fs"), "@types/node");
}

#[test]
fn test_parse_package_spec_version_at_last_at() {
    assert_eq!(
        parse_package_spec("a@b@c"),
        ("a@b".to_string(), Some("c".to_string()))
    );
    assert_eq!(parse_package_spec(""), ("".to_string(), None));
    assert_eq!(parse_package_spec("@"), ("@".to_string(), None));
}

#[test]
fn test_is_js_file_extensions() {
    assert!(is_js_file("index.js"));
    assert!(is_js_file("lib/utils.mjs"));
    assert!(is_js_file("a/b/c.ts"));
    assert!(is_js_file("comp.tsx"));
    assert!(is_js_file("comp.jsx"));
    assert!(!is_js_file("style.css"));
    assert!(!is_js_file("Makefile"));
    assert!(!is_js_file(".gitignore"));
    assert!(is_js_file("archive.tar.js"));
}

#[test]
fn test_is_dts_file() {
    assert!(is_dts_file("index.d.ts"));
    assert!(is_dts_file("types/lib.d.ts"));
    assert!(!is_dts_file("index.ts"));
    assert!(!is_dts_file("index.d.tsx"));
    assert!(!is_dts_file("d.ts.js"));
}
