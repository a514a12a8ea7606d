use indexmap::IndexSet;
use rome_config::configuration::{
    Configuration, FilesConfiguration, FormatterConfiguration, JavascriptConfiguration,
    JavascriptFormatter, PlainIndentStyle, QuoteProperties, QuoteStyle, Semicolons, TrailingComma,
};
use rome_config::diagnostics::{ConfigurationDiagnostic, WorkspaceError};
use rome_config::discovery::{load_config, ConfigurationBasePath};
use rome_config::fs::{FileEntry, MemoryFileSystem};
use rome_config::paths::SysPath;
use rome_config::writer::create_config;

fn path(components: &[&str]) -> SysPath {
    SysPath { components: components.iter().map(|c| c.to_string()).collect() }
}

fn empty_fs() -> MemoryFileSystem {
    MemoryFileSystem {
        config_name: "rome.json".to_string(),
        working_directory: None,
        files: Vec::new(),
        directories: Vec::new(),
    }
}

#[test]
fn no_config_anywhere_is_not_an_error() {
    let mut fs = empty_fs();
    fs.working_directory = Some(path(&["home", "project"]));
    fs.directories = vec![path(&[]), path(&["home"])];
    let r = load_config(&fs, ConfigurationBasePath::Auto);
    match r {
        Ok(found) => assert!(found.is_none()),
        Err(_) => panic!("a missing file must not be an error for a default search"),
    }
}

#[test]
fn user_base_path_missing_file_is_an_error() {
    let mut fs = empty_fs();
    // A perfectly good configuration sits one directory up.
    fs.files = vec![FileEntry {
        path: path(&["missing", "rome.json"]),
        readable: true,
        content: "{}".to_string(),
    }];
    fs.directories = vec![path(&[]), path(&["missing"])];
    let r = load_config(&fs, ConfigurationBasePath::FromUser(path(&["missing", "dir"])));
    match r {
        Err(WorkspaceError::CantReadFile(p)) => assert_eq!(p, "missing/dir/rome.json"),
        _ => panic!("a user-supplied path with no file there must fail, without ascending"),
    }
}

#[test]
fn discovery_ascends_to_an_ancestor() {
    let mut fs = empty_fs();
    fs.working_directory = Some(path(&["repo", "packages", "app"]));
    fs.directories = vec![path(&[]), path(&["repo"]), path(&["repo", "packages"])];
    fs.files = vec![FileEntry {
        path: path(&["repo", "rome.json"]),
        readable: true,
        content: "{\n  \"linter\": {\n    \"enabled\": false\n  }\n}".to_string(),
    }];
    let r = load_config(&fs, ConfigurationBasePath::Auto);
    let found = r.expect("discovery must succeed").expect("the ancestor file must be found");
    assert_eq!(found.file_path, "repo/rome.json");
    let value = found.value.expect("the file must deserialize");
    assert!(value.is_linter_disabled());
}

#[test]
fn user_base_path_with_file_loads_it() {
    let mut fs = empty_fs();
    fs.files = vec![FileEntry {
        path: path(&["proj", "rome.json"]),
        readable: true,
        content: "{\n  \"formatter\": {\n    \"enabled\": false\n  }\n}".to_string(),
    }];
    let r = load_config(&fs, ConfigurationBasePath::FromUser(path(&["proj"])));
    let found = r.expect("load must succeed").expect("file present");
    let value = found.value.expect("must deserialize");
    assert!(value.is_formatter_disabled());
    assert!(!value.is_organize_imports_disabled());
}

#[test]
fn unreadable_file_is_fatal_even_for_default_search() {
    let mut fs = empty_fs();
    fs.working_directory = Some(path(&["proj"]));
    fs.directories = vec![path(&[])];
    fs.files = vec![FileEntry {
        path: path(&["proj", "rome.json"]),
        readable: false,
        content: String::new(),
    }];
    let r = load_config(&fs, ConfigurationBasePath::Auto);
    match r {
        Err(WorkspaceError::CantReadFile(p)) => assert_eq!(p, "proj/rome.json"),
        _ => panic!("an open failure other than not-found must be fatal"),
    }
}

#[test]
fn malformed_text_yields_a_diagnostic() {
    let mut fs = empty_fs();
    fs.files = vec![FileEntry {
        path: path(&["p", "rome.json"]),
        readable: true,
        content: "{ not json".to_string(),
    }];
    let r = load_config(&fs, ConfigurationBasePath::FromUser(path(&["p"])));
    let found = r.expect("open succeeds").expect("file present");
    assert!(found.value.is_none());
    assert_eq!(found.diagnostics.len(), 1);
    assert!(matches!(found.diagnostics[0], ConfigurationDiagnostic::Malformed));
}

#[test]
fn unknown_key_names_the_key() {
    let mut fs = empty_fs();
    fs.files = vec![FileEntry {
        path: path(&["p", "rome.json"]),
        readable: true,
        content: "{\n  \"linter\": {\n    \"enabled\": true\n  },\n  \"unknownKey\": true\n}"
            .to_string(),
    }];
    let r = load_config(&fs, ConfigurationBasePath::FromUser(path(&["p"])));
    let found = r.expect("open succeeds").expect("file present");
    assert!(found.value.is_none());
    assert_eq!(found.diagnostics.len(), 1);
    match &found.diagnostics[0] {
        ConfigurationDiagnostic::UnknownKey(k) => assert_eq!(k, "unknownKey"),
        other => panic!("expected an unknown-key diagnostic, got {:?}", std::mem::discriminant(other)),
    }
}

#[test]
fn create_config_then_load_round_trips() {
    let mut fs = empty_fs();
    let mut configuration = Configuration::default();
    if let Some(linter) = configuration.linter.as_mut() {
        linter.enabled = false;
    }
    create_config(&mut fs, configuration).expect("writing must succeed");
    assert_eq!(fs.files.len(), 1);
    let r = load_config(&fs, ConfigurationBasePath::FromUser(path(&[])));
    let found = r.expect("load must succeed").expect("the written file must be found");
    let value = found.value.expect("the written file must deserialize");
    assert!(value.is_linter_disabled());
    assert!(value.is_organize_imports_disabled() == true);
    assert!(value.files.is_none());
    assert!(value.formatter.is_none());
    assert!(value.javascript.is_none());
    assert!(value.schema.is_none());
}

#[test]
fn create_config_then_load_round_trips_every_block() {
    let mut fs = empty_fs();
    let mut ignore: IndexSet<String> = IndexSet::new();
    ignore.insert("dist/**".to_string());
    ignore.insert("vendor/**".to_string());
    let mut globals: IndexSet<String> = IndexSet::new();
    globals.insert("jQuery".to_string());
    let mut configuration = Configuration::default();
    configuration.files = Some(FilesConfiguration { max_size: Some(4096), ignore: Some(ignore) });
    configuration.formatter = Some(FormatterConfiguration {
        enabled: true,
        indent_style: PlainIndentStyle::Space,
        indent_size: 4,
        line_width: 100,
    });
    configuration.javascript = Some(JavascriptConfiguration {
        formatter: Some(JavascriptFormatter {
            quote_style: QuoteStyle::Single,
            quote_properties: QuoteProperties::Preserve,
            trailing_comma: TrailingComma::Omit,
            semicolons: Semicolons::AsNeeded,
        }),
        globals: Some(globals),
    });
    create_config(&mut fs, configuration).expect("writing must succeed");
    let r = load_config(&fs, ConfigurationBasePath::FromUser(path(&[])));
    let value = r.expect("load succeeds").expect("file found").value.expect("deserializes");
    let files = value.files.expect("files block survives");
    assert_eq!(files.max_size, Some(4096));
    let elems: Vec<&String> = files.ignore.as_ref().unwrap().iter().collect();
    assert_eq!(elems, ["dist/**", "vendor/**"]);
    let f = value.formatter.expect("formatter block survives");
    assert!(f.indent_style == PlainIndentStyle::Space);
    assert_eq!(f.indent_size, 4);
    assert_eq!(f.line_width, 100);
    let jf = value.javascript.as_ref().unwrap().formatter.as_ref().unwrap();
    assert!(jf.quote_style == QuoteStyle::Single);
    assert!(jf.trailing_comma == TrailingComma::Omit);
    assert!(value.javascript.as_ref().unwrap().globals.as_ref().unwrap().contains("jQuery"));
}

#[test]
fn create_config_injects_installed_schema() {
    let mut fs = empty_fs();
    fs.files = vec![FileEntry {
        path: path(&["node_modules", "rome", "configuration_schema.json"]),
        readable: true,
        content: "{}".to_string(),
    }];
    create_config(&mut fs, Configuration::default()).expect("writing must succeed");
    let r = load_config(&fs, ConfigurationBasePath::FromUser(path(&[])));
    let value = r.unwrap().unwrap().value.unwrap();
    assert_eq!(value.schema.as_deref(), Some("./node_modules/rome/configuration_schema.json"));
}

#[test]
fn create_config_on_existing_file_fails_and_changes_nothing() {
    let mut fs = empty_fs();
    fs.files = vec![FileEntry {
        path: path(&["rome.json"]),
        readable: true,
        content: "original contents".to_string(),
    }];
    let r = create_config(&mut fs, Configuration::default());
    match r {
        Err(WorkspaceError::Configuration(ConfigurationDiagnostic::AlreadyExists)) => {},
        _ => panic!("an existing file must be a distinct already-exists error"),
    }
    assert_eq!(fs.files.len(), 1);
    assert_eq!(fs.files[0].content, "original contents");
}
