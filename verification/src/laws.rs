//! The crate's cross-cutting guarantees, stated and proved once.

use crate::cli::{
    apply_files_spec, apply_format_spec, indent_style_cli_spec, js_flags_spec, opt_value_spec,
    parse_u8_cli_spec, IndentStyle,
};
use crate::codec::{
    cfg_from_json_spec, cfg_json_fields, cfg_to_json_spec, files_from_json_spec,
    files_json_fields, files_to_json_spec, find_field_spec, first_unknown_key,
    formatter_from_json_spec, formatter_json_fields, formatter_to_json_spec, indent_style_of_str,
    indent_style_str, javascript_from_json_spec, javascript_json_fields, javascript_to_json_spec,
    js_formatter_from_json_spec, js_formatter_json_fields, js_formatter_to_json_spec, known_key,
    lemma_dedup_props, linter_from_json_spec, linter_json_fields, linter_to_json_spec,
    organize_imports_from_json_spec, organize_imports_to_json_spec, quote_properties_str,
    quote_style_str, rules_from_json_spec, rules_to_json_spec, semicolons_str,
    set_of_strings_from_json_spec, strs_of_json, strs_to_json, trailing_comma_str, RecordKind,
};
use crate::configuration::{
    configuration_wf, files_wf, formatter_wf, javascript_wf, ConfigView, FilesView,
    FormatterConfiguration, JavascriptFormatter, JavascriptView, LinterConfiguration,
    OrganizeImports, PlainIndentStyle, QuoteProperties, QuoteStyle, Rules, Semicolons,
    TrailingComma,
};
use crate::diagnostics::DiagnosticSpec;
use crate::discovery::{discover_spec, DiscoverOutcome};
use crate::fs::{is_dir_spec, open_result, IoErrorKind, MemoryFileSystem};
use crate::codec::deserialize_spec;
use crate::json::{json_wf, json_wf_items, lemma_json_wf_fields_concat,
    lemma_json_wf_fields_single, lemma_parse_document_render, render_document_spec,
    JsonSpecValue};
use vstd::prelude::*;

verus! {

/// When the configuration file exists only at an ancestor of the starting
/// directory, a default search finds it there: every directory from the
/// start down to (but excluding) the ancestor lacks the file, every
/// directory on the way is a directory, and the ancestor's file opens.
pub proof fn lemma_discovery_finds_ancestor(fs: MemoryFileSystem, dir: Seq<Seq<char>>, k: int)
    requires
        0 <= k <= dir.len(),
        open_result(fs, dir.take(k).push(fs.config_name@)) is Ok,
        forall|j: int|
            k < j <= dir.len() ==> open_result(fs, #[trigger] dir.take(j).push(fs.config_name@))
                == Err::<Seq<char>, IoErrorKind>(IoErrorKind::NotFound),
        forall|j: int| k <= j < dir.len() ==> is_dir_spec(fs, #[trigger] dir.take(j)),
    ensures
        discover_spec(fs, dir, false) == DiscoverOutcome::Found(
            dir.take(k).push(fs.config_name@),
            open_result(fs, dir.take(k).push(fs.config_name@))->Ok_0,
        ),
    decreases dir.len() - k,
{
    assert(dir.take(dir.len() as int) =~= dir);
    if dir.len() == k {
    } else {
        let parent = dir.drop_last();
        assert(parent =~= dir.take(dir.len() - 1));
        assert(open_result(fs, dir.push(fs.config_name@)) == Err::<Seq<char>, IoErrorKind>(
            IoErrorKind::NotFound,
        ));
        assert forall|j: int| k < j <= parent.len() implies open_result(
            fs,
            #[trigger] parent.take(j).push(fs.config_name@),
        ) == Err::<Seq<char>, IoErrorKind>(IoErrorKind::NotFound) by {
            assert(parent.take(j) =~= dir.take(j));
        }
        assert forall|j: int| k <= j < parent.len() implies is_dir_spec(
            fs,
            #[trigger] parent.take(j),
        ) by {
            assert(parent.take(j) =~= dir.take(j));
        }
        assert(parent.take(k) =~= dir.take(k));
        lemma_discovery_finds_ancestor(fs, parent, k);
    }
}

/// On a file system with no files at all, a default search ends in "no
/// configuration", never in an error, from any starting directory.
pub proof fn lemma_empty_tree_finds_nothing(fs: MemoryFileSystem, dir: Seq<Seq<char>>)
    requires
        fs.files@.len() == 0,
    ensures
        discover_spec(fs, dir, false) == DiscoverOutcome::Absent,
    decreases dir.len(),
{
    if dir.len() > 0 && is_dir_spec(fs, dir.drop_last()) {
        lemma_empty_tree_finds_nothing(fs, dir.drop_last());
    }
}

/// A user-supplied base path never ascends: when its own directory lacks
/// the file, the search reports the failure there, whatever exists above.
pub proof fn lemma_user_base_path_never_ascends(fs: MemoryFileSystem, dir: Seq<Seq<char>>)
    requires
        open_result(fs, dir.push(fs.config_name@)) is Err,
    ensures
        discover_spec(fs, dir, true) == DiscoverOutcome::Unreadable(dir.push(fs.config_name@)),
{
}

/// A top-level key outside the recognized set fails deserialization with
/// `UnknownKey` naming the first such key, whatever its sibling fields
/// hold.
pub proof fn lemma_unknown_key_rejected(fields: Seq<(Seq<char>, JsonSpecValue)>, k: Seq<char>)
    requires
        first_unknown_key(fields, RecordKind::Root) == Some(k),
    ensures
        cfg_from_json_spec(JsonSpecValue::Object(fields)) == Err::<ConfigView, DiagnosticSpec>(
            DiagnosticSpec::UnknownKey(k),
        ),
{
}

/// The pattern-set codec is idempotent: serializing a duplicate-free set's
/// elements and reading them back yields the same elements, membership and
/// order both.
pub proof fn lemma_set_codec_round_trip(ss: Seq<Seq<char>>)
    requires
        ss.no_duplicates(),
    ensures
        set_of_strings_from_json_spec(JsonSpecValue::Array(strs_to_json(ss))) == Ok::<
            Seq<Seq<char>>,
            (),
        >(ss),
{
    lemma_strs_round_trip(ss);
    lemma_dedup_props(ss);
}

proof fn lemma_strs_round_trip(ss: Seq<Seq<char>>)
    ensures
        strs_of_json(strs_to_json(ss)) == Ok::<Seq<Seq<char>>, ()>(ss),
    decreases ss,
{
    assert(strs_to_json(ss).len() == ss.len());
    if ss.len() > 0 {
        assert(strs_to_json(ss).drop_last() =~= strs_to_json(ss.drop_last()));
        lemma_strs_round_trip(ss.drop_last());
        assert(strs_to_json(ss).last() == JsonSpecValue::Str(ss.last()));
        assert(strs_of_json(strs_to_json(ss))->Ok_0 =~= ss);
    } else {
        assert(strs_of_json(strs_to_json(ss))->Ok_0 =~= ss);
    }
}

proof fn lemma_find_concat(
    a: Seq<(Seq<char>, JsonSpecValue)>,
    b: Seq<(Seq<char>, JsonSpecValue)>,
    key: Seq<char>,
)
    ensures
        find_field_spec(a + b, key) == (if find_field_spec(a, key) is Some {
            find_field_spec(a, key)
        } else {
            find_field_spec(b, key)
        }),
    decreases a,
{
    if a.len() == 0 {
        assert(a + b =~= b);
    } else {
        assert((a + b).drop_first() =~= a.drop_first() + b);
        lemma_find_concat(a.drop_first(), b, key);
    }
}

proof fn lemma_unknown_concat(
    a: Seq<(Seq<char>, JsonSpecValue)>,
    b: Seq<(Seq<char>, JsonSpecValue)>,
    kind: RecordKind,
)
    ensures
        first_unknown_key(a + b, kind) == (if first_unknown_key(a, kind) is Some {
            first_unknown_key(a, kind)
        } else {
            first_unknown_key(b, kind)
        }),
    decreases a,
{
    if a.len() == 0 {
        assert(a + b =~= b);
    } else {
        assert((a + b).drop_first() =~= a.drop_first() + b);
        lemma_unknown_concat(a.drop_first(), b, kind);
    }
}

proof fn lemma_find_single(k: Seq<char>, v: JsonSpecValue, key: Seq<char>)
    ensures
        find_field_spec(seq![(k, v)], key) == (if k == key {
            Some(v)
        } else {
            None::<JsonSpecValue>
        }),
{
    reveal_with_fuel(find_field_spec, 3);
    assert(seq![(k, v)].drop_first() =~= Seq::<(Seq<char>, JsonSpecValue)>::empty());
}

proof fn lemma_unknown_single(k: Seq<char>, v: JsonSpecValue, kind: RecordKind)
    ensures
        first_unknown_key(seq![(k, v)], kind) == (if known_key(kind, k) {
            None::<Seq<char>>
        } else {
            Some(k)
        }),
{
    reveal_with_fuel(first_unknown_key, 3);
    assert(seq![(k, v)].drop_first() =~= Seq::<(Seq<char>, JsonSpecValue)>::empty());
}

proof fn lemma_files_round_trip(f: FilesView)
    requires
        files_wf(f),
    ensures
        files_from_json_spec(files_to_json_spec(f)) == Ok::<FilesView, DiagnosticSpec>(f),
{
    reveal_strlit("maxSize");
    reveal_strlit("ignore");
    assert("maxSize"@.len() == 7);
    assert("ignore"@.len() == 6);
    let e = Seq::<(Seq<char>, JsonSpecValue)>::empty();
    let fa = match f.max_size {
        Some(n) => seq![("maxSize"@, JsonSpecValue::Number(n))],
        None => e,
    };
    let fb = match f.ignore {
        Some(elems) => seq![("ignore"@, JsonSpecValue::Array(strs_to_json(elems)))],
        None => e,
    };
    assert(files_json_fields(f) == fa + fb);
    lemma_unknown_concat(fa, fb, RecordKind::Files);
    lemma_find_concat(fa, fb, "maxSize"@);
    lemma_find_concat(fa, fb, "ignore"@);
    match f.max_size {
        Some(n) => {
            lemma_unknown_single("maxSize"@, JsonSpecValue::Number(n), RecordKind::Files);
            lemma_find_single("maxSize"@, JsonSpecValue::Number(n), "maxSize"@);
            lemma_find_single("maxSize"@, JsonSpecValue::Number(n), "ignore"@);
        },
        None => {},
    }
    match f.ignore {
        Some(elems) => {
            let av = JsonSpecValue::Array(strs_to_json(elems));
            lemma_unknown_single("ignore"@, av, RecordKind::Files);
            lemma_find_single("ignore"@, av, "maxSize"@);
            lemma_find_single("ignore"@, av, "ignore"@);
            lemma_strs_round_trip(elems);
            lemma_dedup_props(elems);
        },
        None => {},
    }
    assert(files_from_json_spec(files_to_json_spec(f))->Ok_0 =~~= f);
}

proof fn lemma_formatter_round_trip(f: FormatterConfiguration)
    requires
        formatter_wf(f),
    ensures
        formatter_from_json_spec(formatter_to_json_spec(f)) == Ok::<
            FormatterConfiguration,
            DiagnosticSpec,
        >(f),
{
    reveal_strlit("enabled");
    reveal_strlit("indentStyle");
    reveal_strlit("indentSize");
    reveal_strlit("lineWidth");
    reveal_strlit("tab");
    reveal_strlit("space");
    assert("enabled"@.len() == 7);
    assert("indentStyle"@.len() == 11);
    assert("indentSize"@.len() == 10);
    assert("lineWidth"@.len() == 9);
    assert("tab"@.len() == 3);
    assert("space"@.len() == 5);
    let a = ("enabled"@, JsonSpecValue::Bool(f.enabled));
    let b = ("indentStyle"@, JsonSpecValue::Str(indent_style_str(f.indent_style)));
    let c = ("indentSize"@, JsonSpecValue::Number(f.indent_size as u64));
    let d = ("lineWidth"@, JsonSpecValue::Number(f.line_width as u64));
    assert(formatter_json_fields(f) =~= seq![a] + seq![b] + seq![c] + seq![d]);
    let keys = seq!["enabled"@, "indentStyle"@, "indentSize"@, "lineWidth"@];
    assert forall|t: int| 0 <= t < 4 implies ({
        &&& find_field_spec(formatter_json_fields(f), keys[t]) == Some(
            formatter_json_fields(f)[t].1,
        )
    }) by {
        lemma_find_concat(seq![a], seq![b] + seq![c] + seq![d], keys[t]);
        lemma_find_concat(seq![b], seq![c] + seq![d], keys[t]);
        lemma_find_concat(seq![c], seq![d], keys[t]);
        lemma_find_single(a.0, a.1, keys[t]);
        lemma_find_single(b.0, b.1, keys[t]);
        lemma_find_single(c.0, c.1, keys[t]);
        lemma_find_single(d.0, d.1, keys[t]);
        assert(seq![a] + (seq![b] + seq![c] + seq![d]) =~= formatter_json_fields(f));
        assert(seq![b] + (seq![c] + seq![d]) =~= seq![b] + seq![c] + seq![d]);
    }
    lemma_unknown_concat(seq![a], seq![b] + seq![c] + seq![d], RecordKind::Formatter);
    lemma_unknown_concat(seq![b], seq![c] + seq![d], RecordKind::Formatter);
    lemma_unknown_concat(seq![c], seq![d], RecordKind::Formatter);
    lemma_unknown_single(a.0, a.1, RecordKind::Formatter);
    lemma_unknown_single(b.0, b.1, RecordKind::Formatter);
    lemma_unknown_single(c.0, c.1, RecordKind::Formatter);
    lemma_unknown_single(d.0, d.1, RecordKind::Formatter);
    assert(seq![a] + (seq![b] + seq![c] + seq![d]) =~= formatter_json_fields(f));
    assert(seq![b] + (seq![c] + seq![d]) =~= seq![b] + seq![c] + seq![d]);
    assert(find_field_spec(formatter_json_fields(f), "enabled"@) == Some(
        JsonSpecValue::Bool(f.enabled),
    ));
    match f.indent_style {
        PlainIndentStyle::Tab => {
            assert(indent_style_of_str(indent_style_str(f.indent_style)) == Some(
                PlainIndentStyle::Tab,
            ));
        },
        PlainIndentStyle::Space => {
            assert(indent_style_of_str(indent_style_str(f.indent_style)) == Some(
                PlainIndentStyle::Space,
            ));
        },
    }
}

proof fn lemma_organize_round_trip(o: OrganizeImports)
    ensures
        organize_imports_from_json_spec(organize_imports_to_json_spec(o)) == Ok::<
            OrganizeImports,
            DiagnosticSpec,
        >(o),
{
    reveal_strlit("enabled");
    let a = ("enabled"@, JsonSpecValue::Bool(o.enabled));
    lemma_unknown_single(a.0, a.1, RecordKind::Organize);
    lemma_find_single(a.0, a.1, "enabled"@);
}

proof fn lemma_rules_round_trip(r: Rules)
    ensures
        rules_from_json_spec(rules_to_json_spec(r)) == Ok::<Rules, DiagnosticSpec>(r),
{
    reveal_strlit("recommended");
    match r.recommended {
        Some(b) => {
            let a = ("recommended"@, JsonSpecValue::Bool(b));
            lemma_unknown_single(a.0, a.1, RecordKind::RulesRecord);
            lemma_find_single(a.0, a.1, "recommended"@);
        },
        None => {},
    }
}

proof fn lemma_linter_round_trip(l: LinterConfiguration)
    ensures
        linter_from_json_spec(linter_to_json_spec(l)) == Ok::<
            LinterConfiguration,
            DiagnosticSpec,
        >(l),
{
    reveal_strlit("enabled");
    reveal_strlit("rules");
    assert("enabled"@.len() == 7);
    assert("rules"@.len() == 5);
    let e = Seq::<(Seq<char>, JsonSpecValue)>::empty();
    let la = seq![("enabled"@, JsonSpecValue::Bool(l.enabled))];
    let lb = match l.rules {
        Some(r) => seq![("rules"@, rules_to_json_spec(r))],
        None => e,
    };
    assert(linter_json_fields(l) == la + lb);
    lemma_unknown_concat(la, lb, RecordKind::Linter);
    lemma_find_concat(la, lb, "enabled"@);
    lemma_find_concat(la, lb, "rules"@);
    lemma_unknown_single("enabled"@, JsonSpecValue::Bool(l.enabled), RecordKind::Linter);
    lemma_find_single("enabled"@, JsonSpecValue::Bool(l.enabled), "enabled"@);
    lemma_find_single("enabled"@, JsonSpecValue::Bool(l.enabled), "rules"@);
    match l.rules {
        Some(r) => {
            lemma_unknown_single("rules"@, rules_to_json_spec(r), RecordKind::Linter);
            lemma_find_single("rules"@, rules_to_json_spec(r), "enabled"@);
            lemma_find_single("rules"@, rules_to_json_spec(r), "rules"@);
            lemma_rules_round_trip(r);
        },
        None => {},
    }
}

#[verifier::rlimit(100)]
proof fn lemma_js_formatter_round_trip(f: JavascriptFormatter)
    ensures
        js_formatter_from_json_spec(js_formatter_to_json_spec(f)) == Ok::<
            JavascriptFormatter,
            DiagnosticSpec,
        >(f),
{
    reveal_strlit("quoteStyle");
    reveal_strlit("quoteProperties");
    reveal_strlit("trailingComma");
    reveal_strlit("semicolons");
    reveal_strlit("double");
    reveal_strlit("single");
    reveal_strlit("asNeeded");
    reveal_strlit("preserve");
    reveal_strlit("all");
    reveal_strlit("es5");
    reveal_strlit("none");
    reveal_strlit("always");
    assert("quoteStyle"@.len() == 10);
    assert("quoteProperties"@.len() == 15);
    assert("trailingComma"@.len() == 13);
    assert("semicolons"@.len() == 10);
    assert("quoteStyle"@[0] == 'q' && "semicolons"@[0] == 's');
    assert("double"@.len() == 6);
    assert("single"@.len() == 6);
    assert("double"@[0] == 'd' && "single"@[0] == 's');
    assert("asNeeded"@.len() == 8);
    assert("preserve"@.len() == 8);
    assert("asNeeded"@[0] == 'a' && "preserve"@[0] == 'p');
    assert("all"@.len() == 3);
    assert("es5"@.len() == 3);
    assert("all"@[0] == 'a' && "es5"@[0] == 'e');
    assert("none"@.len() == 4);
    assert("always"@.len() == 6);
    let a = ("quoteStyle"@, JsonSpecValue::Str(quote_style_str(f.quote_style)));
    let b = ("quoteProperties"@, JsonSpecValue::Str(quote_properties_str(f.quote_properties)));
    let c = ("trailingComma"@, JsonSpecValue::Str(trailing_comma_str(f.trailing_comma)));
    let d = ("semicolons"@, JsonSpecValue::Str(semicolons_str(f.semicolons)));
    assert(js_formatter_json_fields(f) =~= seq![a] + seq![b] + seq![c] + seq![d]);
    let keys = seq!["quoteStyle"@, "quoteProperties"@, "trailingComma"@, "semicolons"@];
    assert forall|t: int| 0 <= t < 4 implies ({
        &&& find_field_spec(js_formatter_json_fields(f), keys[t]) == Some(
            js_formatter_json_fields(f)[t].1,
        )
    }) by {
        lemma_find_concat(seq![a], seq![b] + seq![c] + seq![d], keys[t]);
        lemma_find_concat(seq![b], seq![c] + seq![d], keys[t]);
        lemma_find_concat(seq![c], seq![d], keys[t]);
        lemma_find_single(a.0, a.1, keys[t]);
        lemma_find_single(b.0, b.1, keys[t]);
        lemma_find_single(c.0, c.1, keys[t]);
        lemma_find_single(d.0, d.1, keys[t]);
        assert(seq![a] + (seq![b] + seq![c] + seq![d]) =~= js_formatter_json_fields(f));
        assert(seq![b] + (seq![c] + seq![d]) =~= seq![b] + seq![c] + seq![d]);
    }
    lemma_unknown_concat(seq![a], seq![b] + seq![c] + seq![d], RecordKind::JsFormatter);
    lemma_unknown_concat(seq![b], seq![c] + seq![d], RecordKind::JsFormatter);
    lemma_unknown_concat(seq![c], seq![d], RecordKind::JsFormatter);
    lemma_unknown_single(a.0, a.1, RecordKind::JsFormatter);
    lemma_unknown_single(b.0, b.1, RecordKind::JsFormatter);
    lemma_unknown_single(c.0, c.1, RecordKind::JsFormatter);
    lemma_unknown_single(d.0, d.1, RecordKind::JsFormatter);
    assert(seq![a] + (seq![b] + seq![c] + seq![d]) =~= js_formatter_json_fields(f));
    assert(seq![b] + (seq![c] + seq![d]) =~= seq![b] + seq![c] + seq![d]);
}

proof fn lemma_javascript_round_trip(j: JavascriptView)
    requires
        javascript_wf(j),
    ensures
        javascript_from_json_spec(javascript_to_json_spec(j)) == Ok::<
            JavascriptView,
            DiagnosticSpec,
        >(j),
{
    reveal_strlit("formatter");
    reveal_strlit("globals");
    assert("formatter"@.len() == 9);
    assert("globals"@.len() == 7);
    let e = Seq::<(Seq<char>, JsonSpecValue)>::empty();
    let ja = match j.formatter {
        Some(f) => seq![("formatter"@, js_formatter_to_json_spec(f))],
        None => e,
    };
    let jb = match j.globals {
        Some(elems) => seq![("globals"@, JsonSpecValue::Array(strs_to_json(elems)))],
        None => e,
    };
    assert(javascript_json_fields(j) == ja + jb);
    lemma_unknown_concat(ja, jb, RecordKind::Javascript);
    lemma_find_concat(ja, jb, "formatter"@);
    lemma_find_concat(ja, jb, "globals"@);
    match j.formatter {
        Some(f) => {
            lemma_unknown_single("formatter"@, js_formatter_to_json_spec(f), RecordKind::Javascript);
            lemma_find_single("formatter"@, js_formatter_to_json_spec(f), "formatter"@);
            lemma_find_single("formatter"@, js_formatter_to_json_spec(f), "globals"@);
            lemma_js_formatter_round_trip(f);
        },
        None => {},
    }
    match j.globals {
        Some(elems) => {
            let av = JsonSpecValue::Array(strs_to_json(elems));
            lemma_unknown_single("globals"@, av, RecordKind::Javascript);
            lemma_find_single("globals"@, av, "formatter"@);
            lemma_find_single("globals"@, av, "globals"@);
            lemma_strs_round_trip(elems);
            lemma_dedup_props(elems);
        },
        None => {},
    }
    assert(javascript_from_json_spec(javascript_to_json_spec(j))->Ok_0 =~~= j);
}

/// Writing a well-formed configuration as a document and reading it back
/// strictly yields the configuration itself: every present field survives,
/// every absent one stays absent.
#[verifier::rlimit(100)]
#[verifier::spinoff_prover]
pub proof fn lemma_cfg_codec_round_trip(c: ConfigView)
    requires
        configuration_wf(c),
    ensures
        cfg_from_json_spec(cfg_to_json_spec(c)) == Ok::<ConfigView, DiagnosticSpec>(c),
{
    reveal_strlit("$schema");
    reveal_strlit("files");
    reveal_strlit("formatter");
    reveal_strlit("organizeImports");
    reveal_strlit("linter");
    reveal_strlit("javascript");
    assert("$schema"@.len() == 7);
    assert("files"@.len() == 5);
    assert("formatter"@.len() == 9);
    assert("organizeImports"@.len() == 15);
    assert("linter"@.len() == 6);
    assert("javascript"@.len() == 10);
    let e = Seq::<(Seq<char>, JsonSpecValue)>::empty();
    let s1 = match c.schema {
        Some(s) => seq![("$schema"@, JsonSpecValue::Str(s))],
        None => e,
    };
    let s2 = match c.files {
        Some(f) => seq![("files"@, files_to_json_spec(f))],
        None => e,
    };
    let s3 = match c.formatter {
        Some(f) => seq![("formatter"@, formatter_to_json_spec(f))],
        None => e,
    };
    let s4 = match c.organize_imports {
        Some(o) => seq![("organizeImports"@, organize_imports_to_json_spec(o))],
        None => e,
    };
    let s5 = match c.linter {
        Some(l) => seq![("linter"@, linter_to_json_spec(l))],
        None => e,
    };
    let s6 = match c.javascript {
        Some(j) => seq![("javascript"@, javascript_to_json_spec(j))],
        None => e,
    };
    let fields = cfg_json_fields(c);
    assert(fields == s1 + s2 + s3 + s4 + s5 + s6);
    assert(s1 + s2 + s3 + s4 + s5 + s6 =~= s1 + (s2 + (s3 + (s4 + (s5 + s6)))));
    // Evaluate the lookups segment by segment.
    lemma_seg_lookups(c, s1, s2, s3, s4, s5, s6);
    match c.files {
        Some(f) => {
            lemma_files_round_trip(f);
        },
        None => {},
    }
    match c.formatter {
        Some(f) => {
            lemma_formatter_round_trip(f);
        },
        None => {},
    }
    match c.organize_imports {
        Some(o) => {
            lemma_organize_round_trip(o);
        },
        None => {},
    }
    match c.linter {
        Some(l) => {
            lemma_linter_round_trip(l);
        },
        None => {},
    }
    match c.javascript {
        Some(j) => {
            lemma_javascript_round_trip(j);
        },
        None => {},
    }
    assert(cfg_from_json_spec(cfg_to_json_spec(c))->Ok_0 =~~= c);
}

#[verifier::rlimit(100)]
#[verifier::spinoff_prover]
proof fn lemma_seg_lookups(
    c: ConfigView,
    s1: Seq<(Seq<char>, JsonSpecValue)>,
    s2: Seq<(Seq<char>, JsonSpecValue)>,
    s3: Seq<(Seq<char>, JsonSpecValue)>,
    s4: Seq<(Seq<char>, JsonSpecValue)>,
    s5: Seq<(Seq<char>, JsonSpecValue)>,
    s6: Seq<(Seq<char>, JsonSpecValue)>,
)
    requires
        s1 == (match c.schema {
            Some(s) => seq![("$schema"@, JsonSpecValue::Str(s))],
            None => Seq::<(Seq<char>, JsonSpecValue)>::empty(),
        }),
        s2 == (match c.files {
            Some(f) => seq![("files"@, files_to_json_spec(f))],
            None => Seq::<(Seq<char>, JsonSpecValue)>::empty(),
        }),
        s3 == (match c.formatter {
            Some(f) => seq![("formatter"@, formatter_to_json_spec(f))],
            None => Seq::<(Seq<char>, JsonSpecValue)>::empty(),
        }),
        s4 == (match c.organize_imports {
            Some(o) => seq![("organizeImports"@, organize_imports_to_json_spec(o))],
            None => Seq::<(Seq<char>, JsonSpecValue)>::empty(),
        }),
        s5 == (match c.linter {
            Some(l) => seq![("linter"@, linter_to_json_spec(l))],
            None => Seq::<(Seq<char>, JsonSpecValue)>::empty(),
        }),
        s6 == (match c.javascript {
            Some(j) => seq![("javascript"@, javascript_to_json_spec(j))],
            None => Seq::<(Seq<char>, JsonSpecValue)>::empty(),
        }),
    ensures
        first_unknown_key(cfg_json_fields(c), RecordKind::Root) is None,
        find_field_spec(cfg_json_fields(c), "$schema"@) == (match c.schema {
            Some(s) => Some(JsonSpecValue::Str(s)),
            None => None,
        }),
        find_field_spec(cfg_json_fields(c), "files"@) == (match c.files {
            Some(f) => Some(files_to_json_spec(f)),
            None => None,
        }),
        find_field_spec(cfg_json_fields(c), "formatter"@) == (match c.formatter {
            Some(f) => Some(formatter_to_json_spec(f)),
            None => None,
        }),
        find_field_spec(cfg_json_fields(c), "organizeImports"@) == (match c.organize_imports {
            Some(o) => Some(organize_imports_to_json_spec(o)),
            None => None,
        }),
        find_field_spec(cfg_json_fields(c), "linter"@) == (match c.linter {
            Some(l) => Some(linter_to_json_spec(l)),
            None => None,
        }),
        find_field_spec(cfg_json_fields(c), "javascript"@) == (match c.javascript {
            Some(j) => Some(javascript_to_json_spec(j)),
            None => None,
        }),
{
    reveal_strlit("$schema");
    reveal_strlit("files");
    reveal_strlit("formatter");
    reveal_strlit("organizeImports");
    reveal_strlit("linter");
    reveal_strlit("javascript");
    assert("$schema"@.len() == 7);
    assert("files"@.len() == 5);
    assert("formatter"@.len() == 9);
    assert("organizeImports"@.len() == 15);
    assert("linter"@.len() == 6);
    assert("javascript"@.len() == 10);
    let fields = cfg_json_fields(c);
    assert(fields == s1 + s2 + s3 + s4 + s5 + s6);
    let keys = seq!["$schema"@, "files"@, "formatter"@, "organizeImports"@, "linter"@,
        "javascript"@];
    assert forall|t: int| 0 <= t < 6 implies find_field_spec(fields, #[trigger] keys[t]) == (
    if find_field_spec(s1, keys[t]) is Some {
        find_field_spec(s1, keys[t])
    } else if find_field_spec(s2, keys[t]) is Some {
        find_field_spec(s2, keys[t])
    } else if find_field_spec(s3, keys[t]) is Some {
        find_field_spec(s3, keys[t])
    } else if find_field_spec(s4, keys[t]) is Some {
        find_field_spec(s4, keys[t])
    } else if find_field_spec(s5, keys[t]) is Some {
        find_field_spec(s5, keys[t])
    } else {
        find_field_spec(s6, keys[t])
    }) by {
        lemma_find_concat(s1, s2 + s3 + s4 + s5 + s6, keys[t]);
        lemma_find_concat(s2, s3 + s4 + s5 + s6, keys[t]);
        lemma_find_concat(s3, s4 + s5 + s6, keys[t]);
        lemma_find_concat(s4, s5 + s6, keys[t]);
        lemma_find_concat(s5, s6, keys[t]);
        assert(s1 + (s2 + s3 + s4 + s5 + s6) =~= fields);
        assert(s2 + (s3 + s4 + s5 + s6) =~= s2 + s3 + s4 + s5 + s6);
        assert(s3 + (s4 + s5 + s6) =~= s3 + s4 + s5 + s6);
        assert(s4 + (s5 + s6) =~= s4 + s5 + s6);
    }
    lemma_unknown_concat(s1, s2 + s3 + s4 + s5 + s6, RecordKind::Root);
    lemma_unknown_concat(s2, s3 + s4 + s5 + s6, RecordKind::Root);
    lemma_unknown_concat(s3, s4 + s5 + s6, RecordKind::Root);
    lemma_unknown_concat(s4, s5 + s6, RecordKind::Root);
    lemma_unknown_concat(s5, s6, RecordKind::Root);
    assert(s1 + (s2 + s3 + s4 + s5 + s6) =~= fields);
    assert(s2 + (s3 + s4 + s5 + s6) =~= s2 + s3 + s4 + s5 + s6);
    assert(s3 + (s4 + s5 + s6) =~= s3 + s4 + s5 + s6);
    assert(s4 + (s5 + s6) =~= s4 + s5 + s6);
    match c.schema {
        Some(s) => {
            let v = JsonSpecValue::Str(s);
            lemma_unknown_single("$schema"@, v, RecordKind::Root);
            assert forall|t: int| 0 <= t < 6 implies find_field_spec(s1, #[trigger] keys[t]) == (
            if t == 0 {
                Some(v)
            } else {
                None::<JsonSpecValue>
            }) by {
                lemma_find_single("$schema"@, v, keys[t]);
            }
        },
        None => {},
    }
    match c.files {
        Some(f) => {
            let v = files_to_json_spec(f);
            lemma_unknown_single("files"@, v, RecordKind::Root);
            assert forall|t: int| 0 <= t < 6 implies find_field_spec(s2, #[trigger] keys[t]) == (
            if t == 1 {
                Some(v)
            } else {
                None::<JsonSpecValue>
            }) by {
                lemma_find_single("files"@, v, keys[t]);
            }
        },
        None => {},
    }
    match c.formatter {
        Some(f) => {
            let v = formatter_to_json_spec(f);
            lemma_unknown_single("formatter"@, v, RecordKind::Root);
            assert forall|t: int| 0 <= t < 6 implies find_field_spec(s3, #[trigger] keys[t]) == (
            if t == 2 {
                Some(v)
            } else {
                None::<JsonSpecValue>
            }) by {
                lemma_find_single("formatter"@, v, keys[t]);
            }
        },
        None => {},
    }
    match c.organize_imports {
        Some(o) => {
            let v = organize_imports_to_json_spec(o);
            lemma_unknown_single("organizeImports"@, v, RecordKind::Root);
            assert forall|t: int| 0 <= t < 6 implies find_field_spec(s4, #[trigger] keys[t]) == (
            if t == 3 {
                Some(v)
            } else {
                None::<JsonSpecValue>
            }) by {
                lemma_find_single("organizeImports"@, v, keys[t]);
            }
        },
        None => {},
    }
    match c.linter {
        Some(l) => {
            let v = linter_to_json_spec(l);
            lemma_unknown_single("linter"@, v, RecordKind::Root);
            assert forall|t: int| 0 <= t < 6 implies find_field_spec(s5, #[trigger] keys[t]) == (
            if t == 4 {
                Some(v)
            } else {
                None::<JsonSpecValue>
            }) by {
                lemma_find_single("linter"@, v, keys[t]);
            }
        },
        None => {},
    }
    match c.javascript {
        Some(j) => {
            let v = javascript_to_json_spec(j);
            lemma_unknown_single("javascript"@, v, RecordKind::Root);
            assert forall|t: int| 0 <= t < 6 implies find_field_spec(s6, #[trigger] keys[t]) == (
            if t == 5 {
                Some(v)
            } else {
                None::<JsonSpecValue>
            }) by {
                lemma_find_single("javascript"@, v, keys[t]);
            }
        },
        None => {},
    }
}

/// The indentation tie-break. With `--indent-style space` and an explicit
/// `--indent-size`, the explicit size wins; with the style flag alone, the
/// embedded default width of two applies; with a size flag but no style
/// flag, indentation is left exactly as it was.
pub proof fn lemma_cli_indent_precedence(
    pairs: Seq<(String, String)>,
    c: ConfigView,
    size_text: Seq<char>,
    size_value: u8,
)
    requires
        opt_value_spec(pairs, "--indent-style"@) == Some("space"@),
        opt_value_spec(pairs, "--indent-size"@) == Some(size_text),
        parse_u8_cli_spec(size_text) == Some(size_value),
        opt_value_spec(pairs, "--line-width"@) is None,
        js_flags_spec(pairs) is Ok,
    ensures
        apply_format_spec(pairs, c).1 is None,
        apply_format_spec(pairs, c).0.formatter is Some,
        apply_format_spec(pairs, c).0.formatter->Some_0.indent_style == PlainIndentStyle::Space,
        apply_format_spec(pairs, c).0.formatter->Some_0.indent_size == size_value,
{
    reveal_strlit("space");
    reveal_strlit("tab");
    assert("space"@.len() == 5);
    assert("tab"@.len() == 3);
    assert(indent_style_cli_spec("space"@) == Some(IndentStyle::Space(2)));
}

/// The style flag alone: the embedded default width of two applies.
pub proof fn lemma_cli_style_alone_defaults_width(pairs: Seq<(String, String)>, c: ConfigView)
    requires
        opt_value_spec(pairs, "--indent-style"@) == Some("space"@),
        opt_value_spec(pairs, "--indent-size"@) is None,
        opt_value_spec(pairs, "--line-width"@) is None,
        js_flags_spec(pairs) is Ok,
    ensures
        apply_format_spec(pairs, c).1 is None,
        apply_format_spec(pairs, c).0.formatter->Some_0.indent_style == PlainIndentStyle::Space,
        apply_format_spec(pairs, c).0.formatter->Some_0.indent_size == 2,
{
    reveal_strlit("space");
    reveal_strlit("tab");
    assert("space"@.len() == 5);
    assert("tab"@.len() == 3);
    assert(indent_style_cli_spec("space"@) == Some(IndentStyle::Space(2)));
}

/// A size flag without a style flag writes nothing at all: indentation is
/// left exactly as it was, and no sub-record is created for it.
pub proof fn lemma_cli_size_alone_is_inert(
    pairs: Seq<(String, String)>,
    c: ConfigView,
    size_text: Seq<char>,
    size_value: u8,
)
    requires
        opt_value_spec(pairs, "--indent-style"@) is None,
        opt_value_spec(pairs, "--indent-size"@) == Some(size_text),
        parse_u8_cli_spec(size_text) == Some(size_value),
        opt_value_spec(pairs, "--line-width"@) is None,
        js_flags_spec(pairs) == Ok::<
            (Option<QuoteProperties>, Option<QuoteStyle>, Option<TrailingComma>, Option<
                Semicolons,
            >),
            Seq<char>,
        >((None, None, None, None)),
    ensures
        apply_format_spec(pairs, c) == (c, None::<Seq<char>>),
{
}

/// With no recognized flag present at all, both mergers leave the
/// configuration fully unchanged: no sub-record is created.
pub proof fn lemma_cli_no_flags_changes_nothing(pairs: Seq<(String, String)>, c: ConfigView)
    requires
        opt_value_spec(pairs, "--indent-size"@) is None,
        opt_value_spec(pairs, "--indent-style"@) is None,
        opt_value_spec(pairs, "--line-width"@) is None,
        opt_value_spec(pairs, "--quote-properties"@) is None,
        opt_value_spec(pairs, "--quote-style"@) is None,
        opt_value_spec(pairs, "--trailing-comma"@) is None,
        opt_value_spec(pairs, "--semicolons"@) is None,
        opt_value_spec(pairs, "--files-max-size"@) is None,
    ensures
        apply_format_spec(pairs, c) == (c, None::<Seq<char>>),
        apply_files_spec(pairs, c) == (c, None::<Seq<char>>),
{
}


proof fn lemma_strs_json_wf(ss: Seq<Seq<char>>)
    ensures
        json_wf_items(strs_to_json(ss)),
    decreases ss,
{
    reveal_with_fuel(json_wf_items, 2);
    assert(strs_to_json(ss).len() == ss.len());
    if ss.len() > 0 {
        assert(strs_to_json(ss)[0] == JsonSpecValue::Str(ss[0]));
        assert(json_wf(strs_to_json(ss)[0]));
        assert(strs_to_json(ss).drop_first() =~= strs_to_json(ss.drop_first()));
        lemma_strs_json_wf(ss.drop_first());
    } else {
        assert(strs_to_json(ss) =~= Seq::<JsonSpecValue>::empty());
    }
}

/// The document a configuration serializes to holds no opaque numeric
/// lexeme, so the parser can give it back whole.
proof fn lemma_cfg_json_wf(c: ConfigView)
    ensures
        json_wf(cfg_to_json_spec(c)),
{
    let e = Seq::<(Seq<char>, JsonSpecValue)>::empty();
    let s1 = match c.schema {
        Some(s) => seq![("$schema"@, JsonSpecValue::Str(s))],
        None => e,
    };
    let s2 = match c.files {
        Some(f) => seq![("files"@, files_to_json_spec(f))],
        None => e,
    };
    let s3 = match c.formatter {
        Some(f) => seq![("formatter"@, formatter_to_json_spec(f))],
        None => e,
    };
    let s4 = match c.organize_imports {
        Some(o) => seq![("organizeImports"@, organize_imports_to_json_spec(o))],
        None => e,
    };
    let s5 = match c.linter {
        Some(l) => seq![("linter"@, linter_to_json_spec(l))],
        None => e,
    };
    let s6 = match c.javascript {
        Some(j) => seq![("javascript"@, javascript_to_json_spec(j))],
        None => e,
    };
    assert(cfg_json_fields(c) == s1 + s2 + s3 + s4 + s5 + s6);
    lemma_json_wf_fields_concat(s1, s2);
    lemma_json_wf_fields_concat(s1 + s2, s3);
    lemma_json_wf_fields_concat(s1 + s2 + s3, s4);
    lemma_json_wf_fields_concat(s1 + s2 + s3 + s4, s5);
    lemma_json_wf_fields_concat(s1 + s2 + s3 + s4 + s5, s6);
    match c.schema {
        Some(s) => {
            lemma_json_wf_fields_single("$schema"@, JsonSpecValue::Str(s));
        },
        None => {},
    }
    match c.files {
        Some(f) => {
            let fa = match f.max_size {
                Some(n) => seq![("maxSize"@, JsonSpecValue::Number(n))],
                None => e,
            };
            let fb = match f.ignore {
                Some(elems) => seq![("ignore"@, JsonSpecValue::Array(strs_to_json(elems)))],
                None => e,
            };
            assert(files_json_fields(f) == fa + fb);
            lemma_json_wf_fields_concat(fa, fb);
            match f.max_size {
                Some(n) => {
                    lemma_json_wf_fields_single("maxSize"@, JsonSpecValue::Number(n));
                },
                None => {},
            }
            match f.ignore {
                Some(elems) => {
                    lemma_strs_json_wf(elems);
                    lemma_json_wf_fields_single(
                        "ignore"@,
                        JsonSpecValue::Array(strs_to_json(elems)),
                    );
                },
                None => {},
            }
            lemma_json_wf_fields_single("files"@, files_to_json_spec(f));
        },
        None => {},
    }
    match c.formatter {
        Some(f) => {
            let a = ("enabled"@, JsonSpecValue::Bool(f.enabled));
            let b = ("indentStyle"@, JsonSpecValue::Str(indent_style_str(f.indent_style)));
            let d1 = ("indentSize"@, JsonSpecValue::Number(f.indent_size as u64));
            let d2 = ("lineWidth"@, JsonSpecValue::Number(f.line_width as u64));
            assert(formatter_json_fields(f) =~= seq![a] + seq![b] + seq![d1] + seq![d2]);
            lemma_json_wf_fields_concat(seq![a], seq![b]);
            lemma_json_wf_fields_concat(seq![a] + seq![b], seq![d1]);
            lemma_json_wf_fields_concat(seq![a] + seq![b] + seq![d1], seq![d2]);
            lemma_json_wf_fields_single(a.0, a.1);
            lemma_json_wf_fields_single(b.0, b.1);
            lemma_json_wf_fields_single(d1.0, d1.1);
            lemma_json_wf_fields_single(d2.0, d2.1);
            lemma_json_wf_fields_single("formatter"@, formatter_to_json_spec(f));
        },
        None => {},
    }
    match c.organize_imports {
        Some(o) => {
            lemma_json_wf_fields_single("enabled"@, JsonSpecValue::Bool(o.enabled));
            lemma_json_wf_fields_single("organizeImports"@, organize_imports_to_json_spec(o));
        },
        None => {},
    }
    match c.linter {
        Some(l) => {
            let la = seq![("enabled"@, JsonSpecValue::Bool(l.enabled))];
            let lb = match l.rules {
                Some(r) => seq![("rules"@, rules_to_json_spec(r))],
                None => e,
            };
            assert(linter_json_fields(l) == la + lb);
            lemma_json_wf_fields_concat(la, lb);
            lemma_json_wf_fields_single("enabled"@, JsonSpecValue::Bool(l.enabled));
            match l.rules {
                Some(r) => {
                    match r.recommended {
                        Some(b) => {
                            lemma_json_wf_fields_single("recommended"@, JsonSpecValue::Bool(b));
                        },
                        None => {},
                    }
                    lemma_json_wf_fields_single("rules"@, rules_to_json_spec(r));
                },
                None => {},
            }
            lemma_json_wf_fields_single("linter"@, linter_to_json_spec(l));
        },
        None => {},
    }
    match c.javascript {
        Some(j) => {
            let ja = match j.formatter {
                Some(f) => seq![("formatter"@, js_formatter_to_json_spec(f))],
                None => e,
            };
            let jb = match j.globals {
                Some(elems) => seq![("globals"@, JsonSpecValue::Array(strs_to_json(elems)))],
                None => e,
            };
            assert(javascript_json_fields(j) == ja + jb);
            lemma_json_wf_fields_concat(ja, jb);
            match j.formatter {
                Some(f) => {
                    let a = ("quoteStyle"@, JsonSpecValue::Str(quote_style_str(f.quote_style)));
                    let b = (
                        "quoteProperties"@,
                        JsonSpecValue::Str(quote_properties_str(f.quote_properties)),
                    );
                    let d1 = (
                        "trailingComma"@,
                        JsonSpecValue::Str(trailing_comma_str(f.trailing_comma)),
                    );
                    let d2 = ("semicolons"@, JsonSpecValue::Str(semicolons_str(f.semicolons)));
                    assert(js_formatter_json_fields(f) =~= seq![a] + seq![b] + seq![d1]
                        + seq![d2]);
                    lemma_json_wf_fields_concat(seq![a], seq![b]);
                    lemma_json_wf_fields_concat(seq![a] + seq![b], seq![d1]);
                    lemma_json_wf_fields_concat(seq![a] + seq![b] + seq![d1], seq![d2]);
                    lemma_json_wf_fields_single(a.0, a.1);
                    lemma_json_wf_fields_single(b.0, b.1);
                    lemma_json_wf_fields_single(d1.0, d1.1);
                    lemma_json_wf_fields_single(d2.0, d2.1);
                    lemma_json_wf_fields_single("formatter"@, js_formatter_to_json_spec(f));
                },
                None => {},
            }
            match j.globals {
                Some(elems) => {
                    lemma_strs_json_wf(elems);
                    lemma_json_wf_fields_single(
                        "globals"@,
                        JsonSpecValue::Array(strs_to_json(elems)),
                    );
                },
                None => {},
            }
            lemma_json_wf_fields_single("javascript"@, javascript_to_json_spec(j));
        },
        None => {},
    }
}

/// The full write-then-load round trip at the text level: rendering a
/// well-formed configuration to its canonical text and reading that text
/// back strictly yields the configuration itself.
pub proof fn lemma_write_load_round_trip(c: ConfigView)
    requires
        configuration_wf(c),
    ensures
        deserialize_spec(render_document_spec(cfg_to_json_spec(c))) == Ok::<
            ConfigView,
            DiagnosticSpec,
        >(c),
{
    lemma_cfg_json_wf(c);
    lemma_parse_document_render(cfg_to_json_spec(c));
    lemma_cfg_codec_round_trip(c);
}
} // verus!
