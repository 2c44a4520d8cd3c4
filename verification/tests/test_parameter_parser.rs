use pretty_node::parser::parameter_parser::ParameterParser;

#[test]
fn test_split_simple_parameters() {
    let parser = ParameterParser::new();
    let result = parser.split_parameters("a, b, c");
    assert_eq!(result, vec!["a", "b", "c"]);
}

#[test]
fn test_split_parameters_with_types() {
    let parser = ParameterParser::new();
    let result = parser.split_parameters("name: string, age: number, isActive: boolean");
    assert_eq!(result, vec!["name: string", "age: number", "isActive: boolean"]);
}

#[test]
fn test_split_parameters_with_generics() {
    let parser = ParameterParser::new();
    let result = parser.split_parameters("items: Array<T>, callback: (item: T) => boolean");
    assert_eq!(result, vec!["items: Array<T>", "callback: (item: T) => boolean"]);
}

#[test]
fn test_split_parameters_with_nested_brackets() {
    let parser = ParameterParser::new();
    let result =
        parser.split_parameters("config: { host: string, port: number }, options: [string, number]");
    assert_eq!(
        result,
        vec!["config: { host: string, port: number }", "options: [string, number]"]
    );
}

#[test]
fn test_parse_optional_parameter() {
    let parser = ParameterParser::new();
    let result = parser.parse_parameter("name?: string");
    assert_eq!(result.name, "name");
    assert_eq!(result.param_type, Some("string".to_string()));
    assert!(result.is_optional);
}

#[test]
fn test_parse_rest_parameter() {
    let parser = ParameterParser::new();
    let result = parser.parse_parameter("...args: any[]");
    assert_eq!(result.name, "args");
    assert_eq!(result.param_type, Some("any[]".to_string()));
    assert!(result.is_rest);
}

#[test]
fn test_parse_parameter_with_default() {
    let parser = ParameterParser::new();
    let result = parser.parse_parameter("timeout: number = 5000");
    assert_eq!(result.name, "timeout");
    assert_eq!(result.param_type, Some("number".to_string()));
    assert!(result.is_optional);
    assert_eq!(result.default_value, Some("5000".to_string()));
}

#[test]
fn test_split_rejoin_is_idempotent() {
    let parser = ParameterParser::new();
    let inputs = vec![
        "a, b, c",
        "items: Array<T>, callback: (item: T) => boolean",
        "config: { host: string, port: number }, options: [string, number]",
        "x: 'a, b', y: \"c, d\"",
        "  spaced  ,   out  ",
        "",
        " , , ",
    ];
    for input in inputs {
        let first = parser.split_parameters(input);
        let rejoined = first.join(", ");
        let second = parser.split_parameters(&rejoined);
        assert_eq!(first, second);
    }
}

#[test]
fn test_split_keeps_quoted_commas() {
    let parser = ParameterParser::new();
    let result = parser.split_parameters("sep = ',', label = \"a, b\"");
    assert_eq!(result, vec!["sep = ','", "label = \"a, b\""]);
}

#[test]
fn test_split_drops_empty_segments() {
    let parser = ParameterParser::new();
    let result = parser.split_parameters("a,,b, ,c");
    assert_eq!(result, vec!["a", "b", "c"]);
}

#[test]
fn test_parse_parameter_plain() {
    let parser = ParameterParser::new();
    let result = parser.parse_parameter("value");
    assert_eq!(result.name, "value");
    assert_eq!(result.param_type, None);
    assert!(!result.is_optional);
    assert!(!result.is_rest);
    assert_eq!(result.default_value, None);
}

#[test]
fn test_parse_parameter_destructuring_degrades_to_unknown() {
    let parser = ParameterParser::new();
    let braces = parser.parse_parameter("{a, b}");
    assert_eq!(braces.name, "unknown");
    assert_eq!(braces.param_type, None);
    assert!(!braces.is_rest);
    assert!(!braces.is_optional);
    assert_eq!(braces.default_value, None);

    let brackets = parser.parse_parameter("[x, y]: Pair");
    assert_eq!(brackets.name, "unknown");
    assert_eq!(brackets.param_type, None);
}

#[test]
fn test_parse_parameter_skips_double_equals() {
    let parser = ParameterParser::new();
    let result = parser.parse_parameter("flag: boolean = x == y");
    assert_eq!(result.name, "flag");
    assert_eq!(result.param_type, Some("boolean".to_string()));
    assert!(result.is_optional);
    assert_eq!(result.default_value, Some("x == y".to_string()));
}

#[test]
fn test_find_type_separator_respects_generics() {
    let parser = ParameterParser::new();
    assert_eq!(parser.find_type_separator("cb: (x: T) => U"), Some(2));
    assert_eq!(parser.find_type_separator("Array<K: V>"), None);
    assert_eq!(parser.find_assignment_operator("a == b"), Some(3));
    assert_eq!(parser.find_assignment_operator("a = b"), Some(2));
    assert_eq!(parser.find_assignment_operator("'=' , x"), None);
}

#[test]
fn test_extract_name_and_type() {
    let parser = ParameterParser::new();
    assert_eq!(
        parser.extract_name_and_type(" count : number "),
        ("count".to_string(), Some("number".to_string()))
    );
    assert_eq!(parser.extract_name_and_type("plain"), ("plain".to_string(), None));
    assert_eq!(parser.extract_name_and_type("empty: "), ("empty".to_string(), None));
}

#[test]
fn test_parse_parameters_from_signature() {
    let parser = ParameterParser::new();
    let params = parser.parse_parameters_from_signature("function add(a: number, b: number): number");
    assert_eq!(params.len(), 2);
    assert_eq!(params[0].name, "a");
    assert_eq!(params[0].param_type, Some("number".to_string()));
    assert_eq!(params[1].name, "b");
    // without parentheses the bounds fall back to the string's ends, and
    // the segment is no identifier, so it degrades to the placeholder
    let fallback = parser.parse_parameters_from_signature("no parens here");
    assert_eq!(fallback.len(), 1);
    assert_eq!(fallback[0].name, "unknown");
    let inverted = parser.parse_parameters_from_signature(") inverted (");
    assert!(inverted.is_empty());
}
