use indexmap::IndexSet;
use rome_config::analyzer::{
    to_analyzer_configuration, JsLanguageSettings, LanguagesSettings, LinterSettings,
};
use rome_config::cli::{apply_files_settings_from_cli, apply_format_settings_from_cli, CliArgs};
use rome_config::codec::{cfg_from_json, cfg_to_json, deserialize_set_of_strings,
    serialize_set_of_strings};
use rome_config::configuration::{
    Configuration, FilesConfiguration, JavascriptConfiguration, JavascriptFormatter,
    PlainIndentStyle, QuoteStyle, Rules, Semicolons, TrailingComma,
};
use rome_config::diagnostics::ConfigurationDiagnostic;
use rome_config::json::{parse_document, render_document, JsonValue};
use rome_config::text::{chars_to_string, string_to_chars};

fn args(pairs: &[(&str, &str)]) -> CliArgs {
    CliArgs { pairs: pairs.iter().map(|(a, b)| (a.to_string(), b.to_string())).collect() }
}

fn parse_text(text: &str) -> Result<Configuration, ConfigurationDiagnostic> {
    let chars = string_to_chars(text);
    let v = parse_document(&chars).map_err(|_| ConfigurationDiagnostic::Malformed)?;
    cfg_from_json(&v)
}

fn parse_text_err(text: &str) -> ConfigurationDiagnostic {
    match parse_text(text) {
        Err(e) => e,
        Ok(_) => panic!("the text must be rejected"),
    }
}

#[test]
fn default_configuration_renders_canonically() {
    let configuration = Configuration::default();
    let json = cfg_to_json(&configuration);
    let text = chars_to_string(&render_document(&json));
    assert_eq!(
        text,
        "{\n  \"organizeImports\": {\n    \"enabled\": false\n  },\n  \"linter\": {\n    \"enabled\": true,\n    \"rules\": {\n      \"recommended\": true\n    }\n  }\n}"
    );
}

#[test]
fn rendered_configuration_parses_back() {
    let mut ignore: IndexSet<String> = IndexSet::new();
    ignore.insert("dist/**".to_string());
    ignore.insert("node_modules/**".to_string());
    let mut globals: IndexSet<String> = IndexSet::new();
    globals.insert("jQuery".to_string());
    let configuration = Configuration {
        schema: Some("./schema.json".to_string()),
        files: Some(FilesConfiguration { max_size: Some(2048), ignore: Some(ignore) }),
        formatter: None,
        organize_imports: None,
        linter: None,
        javascript: Some(JavascriptConfiguration {
            formatter: Some(JavascriptFormatter {
                quote_style: QuoteStyle::Single,
                quote_properties: rome_config::configuration::QuoteProperties::Preserve,
                trailing_comma: TrailingComma::Es5,
                semicolons: Semicolons::AsNeeded,
            }),
            globals: Some(globals),
        }),
    };
    let json = cfg_to_json(&configuration);
    let text = chars_to_string(&render_document(&json));
    let back = parse_text(&text).expect("the canonical text must parse back");
    assert_eq!(back.schema.as_deref(), Some("./schema.json"));
    let files = back.files.expect("files block survives");
    assert_eq!(files.max_size, Some(2048));
    let ignore = files.ignore.expect("ignore survives");
    let elems: Vec<&String> = ignore.iter().collect();
    assert_eq!(elems, ["dist/**", "node_modules/**"]);
    let js = back.javascript.expect("javascript block survives");
    let jf = js.formatter.expect("javascript formatter survives");
    assert!(jf.quote_style == QuoteStyle::Single);
    assert!(jf.trailing_comma == TrailingComma::Es5);
    assert!(jf.semicolons == Semicolons::AsNeeded);
    let globals = js.globals.expect("globals survive");
    assert!(globals.contains("jQuery"));
    assert!(back.formatter.is_none());
    assert!(back.linter.is_none());
}

#[test]
fn set_codec_preserves_membership_and_order() {
    let mut set: IndexSet<String> = IndexSet::new();
    set.insert("b".to_string());
    set.insert("a".to_string());
    set.insert("b".to_string());
    set.insert("c".to_string());
    let serialized = serialize_set_of_strings(&Some(set)).expect("a present set serializes");
    let back = deserialize_set_of_strings(&serialized).expect("its elements read back");
    let elems: Vec<&String> = back.iter().collect();
    assert_eq!(elems, ["b", "a", "c"]);
}

#[test]
fn absent_set_serializes_to_absent_not_empty() {
    assert!(serialize_set_of_strings(&None).is_none());
}

#[test]
fn duplicate_elements_collapse_to_first_occurrence() {
    let v = JsonValue::Array(vec![
        JsonValue::Str("x".to_string()),
        JsonValue::Str("y".to_string()),
        JsonValue::Str("x".to_string()),
    ]);
    let set = deserialize_set_of_strings(&v).expect("strings read into a set");
    let elems: Vec<&String> = set.iter().collect();
    assert_eq!(elems, ["x", "y"]);
}

#[test]
fn non_string_element_fails_the_set_codec() {
    let v = JsonValue::Array(vec![JsonValue::Str("x".to_string()), JsonValue::Number(3)]);
    assert!(deserialize_set_of_strings(&v).is_err());
}

#[test]
fn zero_max_size_is_a_type_mismatch() {
    let err = parse_text_err("{\n  \"files\": {\n    \"maxSize\": 0\n  }\n}");
    match err {
        ConfigurationDiagnostic::TypeMismatch(k) => assert_eq!(k, "maxSize"),
        _ => panic!("a zero size must be rejected as a type mismatch"),
    }
}

#[test]
fn out_of_range_line_width_is_a_type_mismatch() {
    let err = parse_text_err("{\n  \"formatter\": {\n    \"lineWidth\": 500\n  }\n}");
    match err {
        ConfigurationDiagnostic::TypeMismatch(k) => assert_eq!(k, "lineWidth"),
        _ => panic!("an out-of-range width must be rejected as a type mismatch"),
    }
}

#[test]
fn negative_max_size_is_a_type_mismatch() {
    let err = parse_text_err("{\n  \"files\": {\n    \"maxSize\": -1\n  }\n}");
    match err {
        ConfigurationDiagnostic::TypeMismatch(k) => assert_eq!(k, "maxSize"),
        _ => panic!("a negative size must be rejected naming the key"),
    }
}

#[test]
fn fractional_max_size_is_a_type_mismatch() {
    let err = parse_text_err("{\n  \"files\": {\n    \"maxSize\": 1.5\n  }\n}");
    match err {
        ConfigurationDiagnostic::TypeMismatch(k) => assert_eq!(k, "maxSize"),
        _ => panic!("a fractional size must be rejected naming the key"),
    }
}

#[test]
fn oversized_max_size_is_a_type_mismatch() {
    let err = parse_text_err(
        "{\n  \"files\": {\n    \"maxSize\": 99999999999999999999999999\n  }\n}",
    );
    match err {
        ConfigurationDiagnostic::TypeMismatch(k) => assert_eq!(k, "maxSize"),
        _ => panic!("a number beyond the 64-bit range must be rejected naming the key"),
    }
}

#[test]
fn nested_unknown_key_is_named() {
    let err = parse_text_err("{\n  \"files\": {\n    \"maxxSize\": 3\n  }\n}");
    match err {
        ConfigurationDiagnostic::UnknownKey(k) => assert_eq!(k, "maxxSize"),
        _ => panic!("an unknown nested key must be named"),
    }
}

#[test]
fn formatter_fields_parse_with_defaults() {
    let c = parse_text("{\n  \"formatter\": {\n    \"indentStyle\": \"space\"\n  }\n}").unwrap();
    let f = c.formatter.unwrap();
    assert!(f.enabled);
    assert!(f.indent_style == PlainIndentStyle::Space);
    assert_eq!(f.indent_size, 2);
    assert_eq!(f.line_width, 80);
}

#[test]
fn indent_size_flag_overrides_embedded_default() {
    let mut c = Configuration::default();
    let a = args(&[("--indent-style", "space"), ("--indent-size", "4")]);
    apply_format_settings_from_cli(&a, &mut c).expect("both flags parse");
    let f = c.formatter.expect("formatter created on demand");
    assert!(f.indent_style == PlainIndentStyle::Space);
    assert_eq!(f.indent_size, 4);
}

#[test]
fn style_flag_alone_uses_embedded_default_width() {
    let mut c = Configuration::default();
    let a = args(&[("--indent-style", "space")]);
    apply_format_settings_from_cli(&a, &mut c).expect("the flag parses");
    let f = c.formatter.expect("formatter created on demand");
    assert!(f.indent_style == PlainIndentStyle::Space);
    assert_eq!(f.indent_size, 2);
}

#[test]
fn size_flag_alone_changes_nothing_about_indentation() {
    let mut c = Configuration::default();
    let a = args(&[("--indent-size", "4")]);
    apply_format_settings_from_cli(&a, &mut c).expect("the flag parses");
    // Without a style flag the size flag writes nothing, so no formatter
    // block is created and nothing is recorded against a space style.
    assert!(c.formatter.is_none());
    assert!(c.javascript.is_none());
}

#[test]
fn no_flags_leave_the_configuration_unchanged() {
    let mut c = Configuration::default();
    let a = args(&[]);
    apply_format_settings_from_cli(&a, &mut c).expect("nothing to parse");
    apply_files_settings_from_cli(&a, &mut c).expect("nothing to parse");
    assert!(c.formatter.is_none());
    assert!(c.javascript.is_none());
    assert!(c.files.is_none());
    assert!(c.schema.is_none());
    let linter = c.linter.expect("the default linter block stays");
    assert!(linter.enabled);
}

#[test]
fn malformed_flag_value_names_the_flag() {
    let mut c = Configuration::default();
    let a = args(&[("--indent-style", "sideways")]);
    let err = apply_format_settings_from_cli(&a, &mut c).unwrap_err();
    let rome_config::cli::CliDiagnostic::ParseError(flag) = err;
    assert_eq!(flag, "--indent-style");
    // A failed flag means nothing was written.
    assert!(c.formatter.is_none());
    assert!(c.javascript.is_none());
}

#[test]
fn stylistic_flags_reach_the_language_block() {
    let mut c = Configuration::default();
    let a = args(&[("--quote-style", "single"), ("--semicolons", "as-needed")]);
    apply_format_settings_from_cli(&a, &mut c).expect("flags parse");
    let jf = c.javascript.unwrap().formatter.unwrap();
    assert!(jf.quote_style == QuoteStyle::Single);
    assert!(jf.semicolons == Semicolons::AsNeeded);
    assert!(jf.trailing_comma == TrailingComma::All);
}

#[test]
fn files_max_size_flag_creates_the_block() {
    let mut c = Configuration::default();
    assert!(c.files.is_none());
    let a = args(&[("--files-max-size", "1024")]);
    apply_files_settings_from_cli(&a, &mut c).expect("the flag parses");
    assert_eq!(c.files.unwrap().max_size, Some(1024));
}

#[test]
fn zero_files_max_size_fails() {
    let mut c = Configuration::default();
    let a = args(&[("--files-max-size", "0")]);
    let err = apply_files_settings_from_cli(&a, &mut c).unwrap_err();
    let rome_config::cli::CliDiagnostic::ParseError(flag) = err;
    assert_eq!(flag, "--files-max-size");
    assert!(c.files.is_none());
}

#[test]
fn analyzer_projection_carries_globals_and_rules() {
    let mut globals: IndexSet<String> = IndexSet::new();
    globals.insert("jQuery".to_string());
    globals.insert("React".to_string());
    let linter = LinterSettings { enabled: true, rules: Some(Rules { recommended: Some(true) }) };
    let languages = LanguagesSettings {
        javascript: JsLanguageSettings { globals: Some(globals) },
    };
    let metadata = vec!["noDebugger".to_string(), "noConsoleLog".to_string()];
    let r = to_analyzer_configuration(&linter, &languages, &metadata, |settings| {
        match settings.javascript.globals.as_ref() {
            Some(globals) => globals.iter().map(|g| g.to_string()).collect(),
            None => Vec::new(),
        }
    });
    assert_eq!(r.globals, ["jQuery", "React"]);
    assert_eq!(r.rules.enabled_rules, ["noDebugger", "noConsoleLog"]);
}

#[test]
fn analyzer_projection_without_rules_is_empty() {
    let linter = LinterSettings { enabled: true, rules: None };
    let languages = LanguagesSettings { javascript: JsLanguageSettings { globals: None } };
    let metadata = vec!["noDebugger".to_string()];
    let r = to_analyzer_configuration(&linter, &languages, &metadata, |_| Vec::new());
    assert!(r.globals.is_empty());
    assert!(r.rules.enabled_rules.is_empty());
}

#[test]
fn number_round_trips_through_text() {
    let c = parse_text("{\n  \"files\": {\n    \"maxSize\": 1048576\n  }\n}").unwrap();
    assert_eq!(c.files.unwrap().max_size, Some(1048576));
}

#[test]
fn escaped_characters_round_trip() {
    let mut ignore: IndexSet<String> = IndexSet::new();
    ignore.insert("weird\"name\\path".to_string());
    let configuration = Configuration {
        schema: None,
        files: Some(FilesConfiguration { max_size: None, ignore: Some(ignore) }),
        formatter: None,
        organize_imports: None,
        linter: None,
        javascript: None,
    };
    let text = chars_to_string(&render_document(&cfg_to_json(&configuration)));
    let back = parse_text(&text).expect("escapes must parse back");
    let ignore = back.files.unwrap().ignore.unwrap();
    assert!(ignore.contains("weird\"name\\path"));
}
