//! Creating a fresh configuration file for initial project setup.
//!
//! The write is append-only: a file already at the conventional path is an
//! error and nothing changes. Before writing, a conventionally-placed
//! schema file is probed for; if it is present the written configuration
//! carries a reference to it.

use crate::codec::{
    cfg_json_fields, cfg_to_json, cfg_to_json_spec, files_json_fields, files_to_json_spec,
    formatter_json_fields, indent_style_str, javascript_json_fields, javascript_to_json_spec,
    js_formatter_json_fields, js_formatter_to_json_spec, linter_json_fields, linter_to_json_spec,
    organize_imports_json_fields, organize_imports_to_json_spec, quote_properties_str,
    quote_style_str, rules_json_fields, rules_to_json_spec, semicolons_str, strs_to_json,
    trailing_comma_str,
};
use crate::configuration::{configuration_wf, ConfigView, Configuration, FilesView,
    FormatterConfiguration,
    JavascriptFormatter,
    JavascriptView, LinterConfiguration, OrganizeImports};
use crate::diagnostics::{
    ConfigurationDiagnostic, DiagnosticSpec, WorkspaceError, WorkspaceErrorSpec,
};
use crate::fs::{has_file, open_result, MemoryFileSystem};
use crate::json::{
    json_size, json_size_fields, json_size_items, render_document, render_document_spec,
    JsonSpecValue,
};
use crate::paths::SysPath;
use crate::string_set::iset_len;
use crate::text::chars_to_string;
use vstd::prelude::*;

verus! {

/// The largest pattern or globals list the writer serializes; a longer one
/// is reported as a serialization failure.
pub const MAX_SET_LEN: usize = 0x1000_0000;

/// The conventional location of an installed schema file.
pub open spec fn schema_path_spec() -> Seq<Seq<char>> {
    seq!["node_modules"@, "rome"@, "configuration_schema.json"@]
}

/// The textual form of the schema reference, relative to the root.
pub open spec fn schema_reference_spec() -> Seq<char> {
    "./node_modules/rome/configuration_schema.json"@
}

/// The configuration as written: the schema reference is filled in when the
/// schema file is present on the file system; when the probe fails, the
/// schema field is written exactly as it was passed in.
pub open spec fn written_config_spec(fs: MemoryFileSystem, c: ConfigView) -> ConfigView {
    if open_result(fs, schema_path_spec()) is Ok {
        ConfigView { schema: Some(schema_reference_spec()), ..c }
    } else {
        c
    }
}

/// Whether the writer can serialize the configuration: its pattern lists
/// are of sane size.
pub open spec fn serializable_spec(c: ConfigView) -> bool {
    &&& match c.files {
        Some(f) => match f.ignore {
            Some(elems) => elems.len() <= MAX_SET_LEN,
            None => true,
        },
        None => true,
    }
    &&& match c.javascript {
        Some(j) => match j.globals {
            Some(elems) => elems.len() <= MAX_SET_LEN,
            None => true,
        },
        None => true,
    }
}

proof fn lemma_json_size_fields_concat(a: Seq<(Seq<char>, JsonSpecValue)>, b: Seq<
    (Seq<char>, JsonSpecValue),
>)
    ensures
        json_size_fields(a + b) == json_size_fields(a) + json_size_fields(b),
    decreases a,
{
    if a.len() == 0 {
        assert(a + b =~= b);
    } else {
        assert((a + b).drop_first() =~= a.drop_first() + b);
        lemma_json_size_fields_concat(a.drop_first(), b);
    }
}

proof fn lemma_json_size_strs(ss: Seq<Seq<char>>)
    ensures
        json_size_items(strs_to_json(ss)) == ss.len(),
    decreases ss,
{
    assert(strs_to_json(ss).len() == ss.len());
    if ss.len() > 0 {
        assert(strs_to_json(ss)[0] == JsonSpecValue::Str(ss[0]));
        assert(json_size(strs_to_json(ss)[0]) == 1);
        assert(strs_to_json(ss).drop_first() =~= strs_to_json(ss.drop_first()));
        lemma_json_size_strs(ss.drop_first());
        assert(json_size_items(strs_to_json(ss)) == json_size(strs_to_json(ss)[0])
            + json_size_items(strs_to_json(ss).drop_first()));
    }
}

proof fn lemma_json_size_fields_single(k: Seq<char>, v: JsonSpecValue)
    ensures
        json_size_fields(seq![(k, v)]) == json_size(v),
{
    reveal_with_fuel(json_size_fields, 2);
    assert(seq![(k, v)].drop_first() =~= Seq::<(Seq<char>, JsonSpecValue)>::empty());
}

proof fn lemma_files_size(f: FilesView)
    requires
        match f.ignore {
            Some(elems) => elems.len() <= MAX_SET_LEN,
            None => true,
        },
    ensures
        json_size(files_to_json_spec(f)) <= 3 + MAX_SET_LEN,
{
    let e = Seq::<(Seq<char>, JsonSpecValue)>::empty();
    let fa = match f.max_size {
        Some(n) => seq![("maxSize"@, JsonSpecValue::Number(n))],
        None => e,
    };
    let fb = match f.ignore {
        Some(elems) => seq![("ignore"@, JsonSpecValue::Array(strs_to_json(elems)))],
        None => e,
    };
    lemma_json_size_fields_concat(fa, fb);
    assert(files_json_fields(f) == fa + fb);
    match f.max_size {
        Some(n) => {
            lemma_json_size_fields_single("maxSize"@, JsonSpecValue::Number(n));
        },
        None => {},
    }
    match f.ignore {
        Some(elems) => {
            lemma_json_size_strs(elems);
            lemma_json_size_fields_single("ignore"@, JsonSpecValue::Array(strs_to_json(elems)));
        },
        None => {},
    }
}

proof fn lemma_js_formatter_size(f: JavascriptFormatter)
    ensures
        json_size(js_formatter_to_json_spec(f)) <= 5,
{
    let a = ("quoteStyle"@, JsonSpecValue::Str(quote_style_str(f.quote_style)));
    let b = ("quoteProperties"@, JsonSpecValue::Str(quote_properties_str(f.quote_properties)));
    let c = ("trailingComma"@, JsonSpecValue::Str(trailing_comma_str(f.trailing_comma)));
    let d = ("semicolons"@, JsonSpecValue::Str(semicolons_str(f.semicolons)));
    assert(js_formatter_json_fields(f) =~= seq![a] + seq![b] + seq![c] + seq![d]);
    lemma_json_size_fields_concat(seq![a], seq![b]);
    lemma_json_size_fields_concat(seq![a] + seq![b], seq![c]);
    lemma_json_size_fields_concat(seq![a] + seq![b] + seq![c], seq![d]);
    lemma_json_size_fields_single(a.0, a.1);
    lemma_json_size_fields_single(b.0, b.1);
    lemma_json_size_fields_single(c.0, c.1);
    lemma_json_size_fields_single(d.0, d.1);
}

proof fn lemma_formatter_size(f: FormatterConfiguration)
    ensures
        json_size(crate::codec::formatter_to_json_spec(f)) <= 5,
{
    let a = ("enabled"@, JsonSpecValue::Bool(f.enabled));
    let b = ("indentStyle"@, JsonSpecValue::Str(indent_style_str(f.indent_style)));
    let c = ("indentSize"@, JsonSpecValue::Number(f.indent_size as u64));
    let d = ("lineWidth"@, JsonSpecValue::Number(f.line_width as u64));
    assert(formatter_json_fields(f) =~= seq![a] + seq![b] + seq![c] + seq![d]);
    lemma_json_size_fields_concat(seq![a], seq![b]);
    lemma_json_size_fields_concat(seq![a] + seq![b], seq![c]);
    lemma_json_size_fields_concat(seq![a] + seq![b] + seq![c], seq![d]);
    lemma_json_size_fields_single(a.0, a.1);
    lemma_json_size_fields_single(b.0, b.1);
    lemma_json_size_fields_single(c.0, c.1);
    lemma_json_size_fields_single(d.0, d.1);
}

proof fn lemma_organize_size(o: OrganizeImports)
    ensures
        json_size(organize_imports_to_json_spec(o)) <= 2,
{
    lemma_json_size_fields_single("enabled"@, JsonSpecValue::Bool(o.enabled));
}

proof fn lemma_linter_size(l: LinterConfiguration)
    ensures
        json_size(linter_to_json_spec(l)) <= 4,
{
    let e = Seq::<(Seq<char>, JsonSpecValue)>::empty();
    let la = seq![("enabled"@, JsonSpecValue::Bool(l.enabled))];
    let lb = match l.rules {
        Some(r) => seq![("rules"@, rules_to_json_spec(r))],
        None => e,
    };
    lemma_json_size_fields_concat(la, lb);
    assert(linter_json_fields(l) == la + lb);
    lemma_json_size_fields_single("enabled"@, JsonSpecValue::Bool(l.enabled));
    match l.rules {
        Some(r) => {
            lemma_json_size_fields_single("rules"@, rules_to_json_spec(r));
            match r.recommended {
                Some(b) => {
                    lemma_json_size_fields_single("recommended"@, JsonSpecValue::Bool(b));
                    assert(json_size(rules_to_json_spec(r)) <= 2);
                },
                None => {
                    assert(json_size(rules_to_json_spec(r)) <= 2);
                },
            }
        },
        None => {},
    }
}

proof fn lemma_javascript_size(j: JavascriptView)
    requires
        match j.globals {
            Some(elems) => elems.len() <= MAX_SET_LEN,
            None => true,
        },
    ensures
        json_size(javascript_to_json_spec(j)) <= 8 + MAX_SET_LEN,
{
    let e = Seq::<(Seq<char>, JsonSpecValue)>::empty();
    let ja = match j.formatter {
        Some(f) => seq![("formatter"@, js_formatter_to_json_spec(f))],
        None => e,
    };
    let jb = match j.globals {
        Some(elems) => seq![("globals"@, JsonSpecValue::Array(strs_to_json(elems)))],
        None => e,
    };
    lemma_json_size_fields_concat(ja, jb);
    assert(javascript_json_fields(j) == ja + jb);
    match j.formatter {
        Some(f) => {
            lemma_json_size_fields_single("formatter"@, js_formatter_to_json_spec(f));
            lemma_js_formatter_size(f);
        },
        None => {},
    }
    match j.globals {
        Some(elems) => {
            lemma_json_size_strs(elems);
            lemma_json_size_fields_single("globals"@, JsonSpecValue::Array(strs_to_json(elems)));
        },
        None => {},
    }
}

/// The document of a serializable configuration is comfortably small.
proof fn lemma_cfg_json_size(c: ConfigView)
    requires
        serializable_spec(c),
    ensures
        json_size(cfg_to_json_spec(c)) <= 30 + 2 * MAX_SET_LEN,
{
    let e = Seq::<(Seq<char>, JsonSpecValue)>::empty();
    let s1 = match c.schema {
        Some(s) => seq![("$schema"@, JsonSpecValue::Str(s))],
        None => e,
    };
    let s2 = match c.files {
        Some(f) => seq![("files"@, files_to_json_spec(f))],
        None => e,
    };
    let s3 = match c.formatter {
        Some(f) => seq![("formatter"@, crate::codec::formatter_to_json_spec(f))],
        None => e,
    };
    let s4 = match c.organize_imports {
        Some(o) => seq![("organizeImports"@, organize_imports_to_json_spec(o))],
        None => e,
    };
    let s5 = match c.linter {
        Some(l) => seq![("linter"@, linter_to_json_spec(l))],
        None => e,
    };
    let s6 = match c.javascript {
        Some(j) => seq![("javascript"@, javascript_to_json_spec(j))],
        None => e,
    };
    lemma_json_size_fields_concat(s1, s2);
    lemma_json_size_fields_concat(s1 + s2, s3);
    lemma_json_size_fields_concat(s1 + s2 + s3, s4);
    lemma_json_size_fields_concat(s1 + s2 + s3 + s4, s5);
    lemma_json_size_fields_concat(s1 + s2 + s3 + s4 + s5, s6);
    assert(cfg_json_fields(c) == s1 + s2 + s3 + s4 + s5 + s6);
    match c.schema {
        Some(s) => {
            lemma_json_size_fields_single("$schema"@, JsonSpecValue::Str(s));
        },
        None => {},
    }
    match c.files {
        Some(f) => {
            lemma_files_size(f);
            lemma_json_size_fields_single("files"@, files_to_json_spec(f));
        },
        None => {},
    }
    match c.formatter {
        Some(f) => {
            lemma_formatter_size(f);
            lemma_json_size_fields_single("formatter"@, crate::codec::formatter_to_json_spec(f));
        },
        None => {},
    }
    match c.organize_imports {
        Some(o) => {
            lemma_organize_size(o);
            lemma_json_size_fields_single("organizeImports"@, organize_imports_to_json_spec(o));
        },
        None => {},
    }
    match c.linter {
        Some(l) => {
            lemma_linter_size(l);
            lemma_json_size_fields_single("linter"@, linter_to_json_spec(l));
        },
        None => {},
    }
    match c.javascript {
        Some(j) => {
            lemma_javascript_size(j);
            lemma_json_size_fields_single("javascript"@, javascript_to_json_spec(j));
        },
        None => {},
    }
}

fn schema_path() -> (r: SysPath)
    ensures
        r@ == schema_path_spec(),
{
    let mut components: Vec<String> = Vec::new();
    components.push("node_modules".to_owned());
    components.push("rome".to_owned());
    components.push("configuration_schema.json".to_owned());
    let r = SysPath::from_components(components);
    proof {
        assert(r@ =~~= schema_path_spec());
    }
    r
}

/// Create a new configuration file on the file system, at the
/// conventional name under the root. The configuration must be internally
/// consistent (numeric fields in range, pattern lists duplicate-free), so
/// that the written file passes its own strict re-load. It fails with a
/// distinct error when a file already sits there, and with a serialization
/// error when the configuration cannot be turned into text; either way the
/// file system is left as it was. On success the written text is the
/// canonical rendering of the configuration, with the schema reference
/// filled in when an installed schema file was found.
pub fn create_config(fs: &mut MemoryFileSystem, configuration: Configuration) -> (r: Result<
    (),
    WorkspaceError,
>)
    requires
        configuration_wf(configuration@),
    ensures
        ({
            let path = Seq::<Seq<char>>::empty().push(old(fs).config_name@);
            let written = written_config_spec(*old(fs), configuration@);
            if has_file(old(fs).files@, path) {
                r is Err && r->Err_0@ == WorkspaceErrorSpec::Configuration(
                    DiagnosticSpec::AlreadyExists,
                ) && *final(fs) == *old(fs)
            } else if !serializable_spec(configuration@) {
                r is Err && r->Err_0@ == WorkspaceErrorSpec::Configuration(
                    DiagnosticSpec::SerializationError,
                ) && *final(fs) == *old(fs)
            } else {
                &&& r is Ok
                &&& final(fs).files@.len() == old(fs).files@.len() + 1
                &&& final(fs).files@.take(old(fs).files@.len() as int) == old(fs).files@
                &&& final(fs).files@.last().path@ == path
                &&& final(fs).files@.last().readable
                &&& final(fs).files@.last().content@ == render_document_spec(
                    cfg_to_json_spec(written),
                )
                &&& final(fs).config_name == old(fs).config_name
                &&& final(fs).working_directory == old(fs).working_directory
                &&& final(fs).directories == old(fs).directories
            }
        }),
{
    let mut configuration = configuration;
    let path = SysPath::empty().join(&fs.config_name);
    if fs.file_exists(&path) {
        return Err(
            WorkspaceError::Configuration(ConfigurationDiagnostic::new_already_exists()),
        );
    }
    // The configuration self-documents its schema when one is installed.
    let schema = schema_path();
    if fs.open(&schema).is_ok() {
        let reference: String = "./node_modules/rome/configuration_schema.json".to_owned();
        proof {
            assert(reference@ == schema_reference_spec());
        }
        configuration.schema = Some(reference);
    }
    let serializable = (match &configuration.files {
        Some(f) => match &f.ignore {
            Some(set) => iset_len(set) <= MAX_SET_LEN,
            None => true,
        },
        None => true,
    }) && (match &configuration.javascript {
        Some(j) => match &j.globals {
            Some(set) => iset_len(set) <= MAX_SET_LEN,
            None => true,
        },
        None => true,
    });
    if !serializable {
        return Err(
            WorkspaceError::Configuration(ConfigurationDiagnostic::new_serialization_error()),
        );
    }
    let json = cfg_to_json(&configuration);
    proof {
        lemma_cfg_json_size(configuration@);
    }
    let rendered = render_document(&json);
    let contents = chars_to_string(&rendered);
    match fs.create_new(path, contents) {
        Ok(_) => Ok(()),
        Err(_) => {
            // The candidate path was probed free above and nothing has
            // touched the file system since, so this arm cannot be reached.
            proof {
                assert(false);
            }
            Err(WorkspaceError::Configuration(ConfigurationDiagnostic::new_already_exists()))
        },
    }
}

} // verus!
