use pretty_node::module_info::TypeKind;
use pretty_node::parser::typescript::TypeScriptParser;

#[test]
fn test_parse_declaration_content_records() {
    let content = "export interface Options {\n  retries: number;\n}\nexport type Callback = () => void;\nexport declare function greet(name: string, times?: number): void;\nexport class Client {\n}\nexport { extra, helper }\n";
    let parser = TypeScriptParser::new();
    let m = parser.parse_declaration_content(content, "lib").unwrap();

    assert_eq!(m.name, "lib");
    assert_eq!(m.types.len(), 2);
    assert_eq!(m.types[0].name, "Options");
    assert_eq!(m.types[0].kind, TypeKind::Interface);
    assert_eq!(m.types[0].definition, "interface Options");
    assert_eq!(m.types[1].name, "Callback");
    assert_eq!(m.types[1].kind, TypeKind::Type);
    assert_eq!(m.types[1].definition, "type Callback");

    assert_eq!(m.functions.len(), 1);
    assert_eq!(m.functions[0].name, "greet");
    assert_eq!(m.functions[0].parameters.len(), 2);
    assert_eq!(m.functions[0].parameters[0].name, "name");
    assert_eq!(
        m.functions[0].parameters[0].param_type,
        Some("string".to_string())
    );
    assert_eq!(m.functions[0].parameters[1].name, "times");
    assert!(m.functions[0].parameters[1].is_optional);

    assert_eq!(m.classes.len(), 1);
    assert_eq!(m.classes[0].name, "Client");
    assert!(m.classes[0].constructor.is_none());

    assert_eq!(
        m.exports,
        vec!["Options", "Callback", "greet", "Client", "extra", "helper"]
    );
}

#[test]
fn test_parse_declaration_export_block_dedup() {
    let content = "export interface A { }\nexport { A, b }\nexport { b, c }\n";
    let parser = TypeScriptParser::new();
    let m = parser.parse_declaration_content(content, "x").unwrap();
    assert_eq!(m.exports, vec!["A", "b", "c"]);
}

#[test]
fn test_parse_declaration_requires_line_start() {
    let content = "// export interface NotThis\nexport interface Yes { }\n";
    let parser = TypeScriptParser::new();
    let m = parser.parse_declaration_content(content, "x").unwrap();
    assert_eq!(m.types.len(), 1);
    assert_eq!(m.types[0].name, "Yes");
}

#[test]
fn test_ts_parse_parameter_rules() {
    let parser = TypeScriptParser::new();

    let p = parser.parse_parameter("name?: string");
    assert_eq!(p.name, "name");
    assert_eq!(p.param_type, Some("string".to_string()));
    assert!(p.is_optional);

    let rest = parser.parse_parameter("...args: any[]");
    assert_eq!(rest.name, "args");
    assert!(rest.is_rest);

    let with_default = parser.parse_parameter("timeout = 5000");
    assert_eq!(with_default.name, "timeout");
    assert!(with_default.is_optional);
    assert_eq!(with_default.default_value, Some("5000".to_string()));
}

#[test]
fn test_ts_parameter_list_split() {
    let parser = TypeScriptParser::new();
    let params = parser.parse_parameter_list("a: string, b: { x: number, y: number }");
    assert_eq!(params.len(), 2);
    assert_eq!(params[0].name, "a");
    assert_eq!(params[1].name, "b");
    let empty = parser.parse_parameter_list("   ");
    assert!(empty.is_empty());
}

#[test]
fn test_ts_parameter_list_keeps_generic_commas() {
    // the declaration path hands parameter lists to the lexical parameter
    // parser, so a comma inside a generic argument does not split
    let parser = TypeScriptParser::new();
    let params = parser.parse_parameter_list("a: Map<K, V>");
    assert_eq!(params.len(), 1);
    assert_eq!(params[0].name, "a");
    assert_eq!(params[0].param_type, Some("Map<K, V>".to_string()));
}

#[test]
fn test_declaration_function_params_use_lexical_rules() {
    let content = "export declare function lookup(table: Map<K, V>, key: K): V;\n";
    let parser = TypeScriptParser::new();
    let m = parser.parse_declaration_content(content, "x").unwrap();
    assert_eq!(m.functions.len(), 1);
    let ps = &m.functions[0].parameters;
    assert_eq!(ps.len(), 2);
    assert_eq!(ps[0].name, "table");
    assert_eq!(ps[0].param_type, Some("Map<K, V>".to_string()));
    assert_eq!(ps[1].name, "key");
    assert_eq!(ps[1].param_type, Some("K".to_string()));
}
