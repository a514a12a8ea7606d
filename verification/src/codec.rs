//! The strict codec between the settings value model and JSON documents.
//!
//! Every record enforces a closed key set: a key outside it is a hard
//! failure naming the key. Serialization emits present sub-records only, in
//! a fixed field order, so the written file is deterministic.

use crate::configuration::{
    ConfigView, Configuration, FilesConfiguration, FilesView, FormatterConfiguration,
    JavascriptConfiguration, JavascriptFormatter, JavascriptView, LinterConfiguration,
    OrganizeImports, PlainIndentStyle, QuoteProperties, QuoteStyle, Rules, Semicolons,
    TrailingComma,
};
use crate::diagnostics::{ConfigurationDiagnostic, DiagnosticSpec};
use crate::json::{
    json_view,
    json_view_fields, json_view_items, lemma_json_view_fields_len, lemma_json_view_items_len,
    parse_document_spec, JsonSpecValue, JsonValue,
};
use crate::string_set::{iset_elems, iset_insert, iset_new, iset_to_vec};
use crate::text::string_eq_str;
use indexmap::IndexSet;
use vstd::prelude::*;

verus! {

// ---------------------------------------------------------------------------
// Serialization specification
// ---------------------------------------------------------------------------

pub open spec fn indent_style_str(s: PlainIndentStyle) -> Seq<char> {
    match s {
        PlainIndentStyle::Tab => "tab"@,
        PlainIndentStyle::Space => "space"@,
    }
}

pub open spec fn quote_style_str(s: QuoteStyle) -> Seq<char> {
    match s {
        QuoteStyle::Double => "double"@,
        QuoteStyle::Single => "single"@,
    }
}

pub open spec fn quote_properties_str(s: QuoteProperties) -> Seq<char> {
    match s {
        QuoteProperties::AsNeeded => "asNeeded"@,
        QuoteProperties::Preserve => "preserve"@,
    }
}

pub open spec fn trailing_comma_str(s: TrailingComma) -> Seq<char> {
    match s {
        TrailingComma::All => "all"@,
        TrailingComma::Es5 => "es5"@,
        TrailingComma::Omit => "none"@,
    }
}

pub open spec fn semicolons_str(s: Semicolons) -> Seq<char> {
    match s {
        Semicolons::Always => "always"@,
        Semicolons::AsNeeded => "asNeeded"@,
    }
}

/// String elements as JSON strings, in order.
pub open spec fn strs_to_json(ss: Seq<Seq<char>>) -> Seq<JsonSpecValue> {
    ss.map_values(|e: Seq<char>| JsonSpecValue::Str(e))
}

pub open spec fn files_json_fields(f: FilesView) -> Seq<(Seq<char>, JsonSpecValue)> {
    (
        (match f.max_size {
            Some(n) => seq![("maxSize"@, JsonSpecValue::Number(n))],
            None => Seq::<(Seq<char>, JsonSpecValue)>::empty(),
        }) + (match f.ignore {
            Some(elems) => seq![("ignore"@, JsonSpecValue::Array(strs_to_json(elems)))],
            None => Seq::<(Seq<char>, JsonSpecValue)>::empty(),
        })
    )
}

pub open spec fn files_to_json_spec(f: FilesView) -> JsonSpecValue {
    JsonSpecValue::Object(files_json_fields(f))
}

pub open spec fn formatter_json_fields(f: FormatterConfiguration) -> Seq<
    (Seq<char>, JsonSpecValue),
> {
    seq![
        ("enabled"@, JsonSpecValue::Bool(f.enabled)),
        ("indentStyle"@, JsonSpecValue::Str(indent_style_str(f.indent_style))),
        ("indentSize"@, JsonSpecValue::Number(f.indent_size as u64)),
        ("lineWidth"@, JsonSpecValue::Number(f.line_width as u64)),
    ]
}

pub open spec fn formatter_to_json_spec(f: FormatterConfiguration) -> JsonSpecValue {
    JsonSpecValue::Object(formatter_json_fields(f))
}

pub open spec fn organize_imports_json_fields(o: OrganizeImports) -> Seq<
    (Seq<char>, JsonSpecValue),
> {
    seq![("enabled"@, JsonSpecValue::Bool(o.enabled))]
}

pub open spec fn organize_imports_to_json_spec(o: OrganizeImports) -> JsonSpecValue {
    JsonSpecValue::Object(organize_imports_json_fields(o))
}

pub open spec fn rules_json_fields(r: Rules) -> Seq<(Seq<char>, JsonSpecValue)> {
    match r.recommended {
        Some(b) => seq![("recommended"@, JsonSpecValue::Bool(b))],
        None => Seq::<(Seq<char>, JsonSpecValue)>::empty(),
    }
}

pub open spec fn rules_to_json_spec(r: Rules) -> JsonSpecValue {
    JsonSpecValue::Object(rules_json_fields(r))
}

pub open spec fn linter_json_fields(l: LinterConfiguration) -> Seq<(Seq<char>, JsonSpecValue)> {
    seq![("enabled"@, JsonSpecValue::Bool(l.enabled))] + (match l.rules {
        Some(r) => seq![("rules"@, rules_to_json_spec(r))],
        None => Seq::<(Seq<char>, JsonSpecValue)>::empty(),
    })
}

pub open spec fn linter_to_json_spec(l: LinterConfiguration) -> JsonSpecValue {
    JsonSpecValue::Object(linter_json_fields(l))
}

pub open spec fn js_formatter_json_fields(f: JavascriptFormatter) -> Seq<
    (Seq<char>, JsonSpecValue),
> {
    seq![
        ("quoteStyle"@, JsonSpecValue::Str(quote_style_str(f.quote_style))),
        ("quoteProperties"@, JsonSpecValue::Str(quote_properties_str(f.quote_properties))),
        ("trailingComma"@, JsonSpecValue::Str(trailing_comma_str(f.trailing_comma))),
        ("semicolons"@, JsonSpecValue::Str(semicolons_str(f.semicolons))),
    ]
}

pub open spec fn js_formatter_to_json_spec(f: JavascriptFormatter) -> JsonSpecValue {
    JsonSpecValue::Object(js_formatter_json_fields(f))
}

pub open spec fn javascript_json_fields(j: JavascriptView) -> Seq<(Seq<char>, JsonSpecValue)> {
    (
        (match j.formatter {
            Some(f) => seq![("formatter"@, js_formatter_to_json_spec(f))],
            None => Seq::<(Seq<char>, JsonSpecValue)>::empty(),
        }) + (match j.globals {
            Some(elems) => seq![("globals"@, JsonSpecValue::Array(strs_to_json(elems)))],
            None => Seq::<(Seq<char>, JsonSpecValue)>::empty(),
        })
    )
}

pub open spec fn javascript_to_json_spec(j: JavascriptView) -> JsonSpecValue {
    JsonSpecValue::Object(javascript_json_fields(j))
}

/// The fields a configuration serializes to: present sub-records only, in a
/// fixed order.
pub open spec fn cfg_json_fields(c: ConfigView) -> Seq<(Seq<char>, JsonSpecValue)> {
    (
        (match c.schema {
            Some(s) => seq![("$schema"@, JsonSpecValue::Str(s))],
            None => Seq::<(Seq<char>, JsonSpecValue)>::empty(),
        }) + (match c.files {
            Some(f) => seq![("files"@, files_to_json_spec(f))],
            None => Seq::<(Seq<char>, JsonSpecValue)>::empty(),
        }) + (match c.formatter {
            Some(f) => seq![("formatter"@, formatter_to_json_spec(f))],
            None => Seq::<(Seq<char>, JsonSpecValue)>::empty(),
        }) + (match c.organize_imports {
            Some(o) => seq![("organizeImports"@, organize_imports_to_json_spec(o))],
            None => Seq::<(Seq<char>, JsonSpecValue)>::empty(),
        }) + (match c.linter {
            Some(l) => seq![("linter"@, linter_to_json_spec(l))],
            None => Seq::<(Seq<char>, JsonSpecValue)>::empty(),
        }) + (match c.javascript {
            Some(j) => seq![("javascript"@, javascript_to_json_spec(j))],
            None => Seq::<(Seq<char>, JsonSpecValue)>::empty(),
        })
    )
}

/// The document a configuration serializes to.
pub open spec fn cfg_to_json_spec(c: ConfigView) -> JsonSpecValue {
    JsonSpecValue::Object(cfg_json_fields(c))
}

// ---------------------------------------------------------------------------
// Deserialization specification
// ---------------------------------------------------------------------------

/// Which record's key set a key is judged against.
#[derive(Clone, Copy, PartialEq, Eq, Structural)]
pub enum RecordKind {
    Root,
    Files,
    Formatter,
    Organize,
    Linter,
    RulesRecord,
    Javascript,
    JsFormatter,
}

pub open spec fn known_key(kind: RecordKind, k: Seq<char>) -> bool {
    match kind {
        RecordKind::Root => known_root_key(k),
        RecordKind::Files => known_files_key(k),
        RecordKind::Formatter => known_formatter_key(k),
        RecordKind::Organize => known_organize_key(k),
        RecordKind::Linter => known_linter_key(k),
        RecordKind::RulesRecord => known_rules_key(k),
        RecordKind::Javascript => known_javascript_key(k),
        RecordKind::JsFormatter => known_js_formatter_key(k),
    }
}

/// The first key of `fields` outside the record's recognized set, if any.
pub open spec fn first_unknown_key(
    fields: Seq<(Seq<char>, JsonSpecValue)>,
    kind: RecordKind,
) -> Option<Seq<char>>
    decreases fields,
{
    if fields.len() == 0 {
        None
    } else if !known_key(kind, fields[0].0) {
        Some(fields[0].0)
    } else {
        first_unknown_key(fields.drop_first(), kind)
    }
}

/// The value under `key`, at its first occurrence.
pub open spec fn find_field_spec(
    fields: Seq<(Seq<char>, JsonSpecValue)>,
    key: Seq<char>,
) -> Option<JsonSpecValue>
    decreases fields,
{
    if fields.len() == 0 {
        None
    } else if fields[0].0 == key {
        Some(fields[0].1)
    } else {
        find_field_spec(fields.drop_first(), key)
    }
}

pub open spec fn known_root_key(k: Seq<char>) -> bool {
    ||| k == "$schema"@
    ||| k == "files"@
    ||| k == "formatter"@
    ||| k == "organizeImports"@
    ||| k == "linter"@
    ||| k == "javascript"@
}

pub open spec fn known_files_key(k: Seq<char>) -> bool {
    k == "maxSize"@ || k == "ignore"@
}

pub open spec fn known_formatter_key(k: Seq<char>) -> bool {
    k == "enabled"@ || k == "indentStyle"@ || k == "indentSize"@ || k == "lineWidth"@
}

pub open spec fn known_organize_key(k: Seq<char>) -> bool {
    k == "enabled"@
}

pub open spec fn known_linter_key(k: Seq<char>) -> bool {
    k == "enabled"@ || k == "rules"@
}

pub open spec fn known_rules_key(k: Seq<char>) -> bool {
    k == "recommended"@
}

pub open spec fn known_javascript_key(k: Seq<char>) -> bool {
    k == "formatter"@ || k == "globals"@
}

pub open spec fn known_js_formatter_key(k: Seq<char>) -> bool {
    k == "quoteStyle"@ || k == "quoteProperties"@ || k == "trailingComma"@ || k == "semicolons"@
}

/// The strings of a JSON array's elements; an element of another shape
/// fails.
pub open spec fn strs_of_json(items: Seq<JsonSpecValue>) -> Result<Seq<Seq<char>>, ()>
    decreases items,
{
    if items.len() == 0 {
        Ok(Seq::<Seq<char>>::empty())
    } else {
        match strs_of_json(items.drop_last()) {
            Err(e) => Err(e),
            Ok(init) => match items.last() {
                JsonSpecValue::Str(s) => Ok(init.push(s)),
                _ => Err(()),
            },
        }
    }
}

/// Duplicates dropped, first occurrence and order kept.
pub open spec fn dedup_spec(ss: Seq<Seq<char>>) -> Seq<Seq<char>>
    decreases ss,
{
    if ss.len() == 0 {
        Seq::<Seq<char>>::empty()
    } else {
        let init = dedup_spec(ss.drop_last());
        if init.contains(ss.last()) {
            init
        } else {
            init.push(ss.last())
        }
    }
}

/// The pattern-set codec's reading half: a sequence of strings inserted
/// into an order-preserving set.
pub open spec fn set_of_strings_from_json_spec(v: JsonSpecValue) -> Result<Seq<Seq<char>>, ()> {
    match v {
        JsonSpecValue::Array(items) => match strs_of_json(items) {
            Ok(ss) => Ok(dedup_spec(ss)),
            Err(e) => Err(e),
        },
        _ => Err(()),
    }
}

pub open spec fn indent_style_of_str(s: Seq<char>) -> Option<PlainIndentStyle> {
    if s == "tab"@ {
        Some(PlainIndentStyle::Tab)
    } else if s == "space"@ {
        Some(PlainIndentStyle::Space)
    } else {
        None
    }
}

pub open spec fn quote_style_of_str(s: Seq<char>) -> Option<QuoteStyle> {
    if s == "double"@ {
        Some(QuoteStyle::Double)
    } else if s == "single"@ {
        Some(QuoteStyle::Single)
    } else {
        None
    }
}

pub open spec fn quote_properties_of_str(s: Seq<char>) -> Option<QuoteProperties> {
    if s == "asNeeded"@ {
        Some(QuoteProperties::AsNeeded)
    } else if s == "preserve"@ {
        Some(QuoteProperties::Preserve)
    } else {
        None
    }
}

pub open spec fn trailing_comma_of_str(s: Seq<char>) -> Option<TrailingComma> {
    if s == "all"@ {
        Some(TrailingComma::All)
    } else if s == "es5"@ {
        Some(TrailingComma::Es5)
    } else if s == "none"@ {
        Some(TrailingComma::Omit)
    } else {
        None
    }
}

pub open spec fn semicolons_of_str(s: Seq<char>) -> Option<Semicolons> {
    if s == "always"@ {
        Some(Semicolons::Always)
    } else if s == "asNeeded"@ {
        Some(Semicolons::AsNeeded)
    } else {
        None
    }
}

pub open spec fn files_from_json_spec(v: JsonSpecValue) -> Result<FilesView, DiagnosticSpec> {
    match v {
        JsonSpecValue::Object(fields) => match first_unknown_key(
            fields,
            RecordKind::Files,
        ) {
            Some(k) => Err(DiagnosticSpec::UnknownKey(k)),
            None => {
                let max_size = match find_field_spec(fields, "maxSize"@) {
                    None => Ok(None),
                    Some(JsonSpecValue::Number(n)) => if n > 0 {
                        Ok(Some(n))
                    } else {
                        Err(DiagnosticSpec::TypeMismatch("maxSize"@))
                    },
                    Some(_) => Err(DiagnosticSpec::TypeMismatch("maxSize"@)),
                };
                match max_size {
                    Err(d) => Err(d),
                    Ok(max_size) => match find_field_spec(fields, "ignore"@) {
                        None => Ok(FilesView { max_size, ignore: None }),
                        Some(iv) => match set_of_strings_from_json_spec(iv) {
                            Ok(elems) => Ok(FilesView { max_size, ignore: Some(elems) }),
                            Err(_) => Err(DiagnosticSpec::TypeMismatch("ignore"@)),
                        },
                    },
                }
            },
        },
        _ => Err(DiagnosticSpec::TypeMismatch("files"@)),
    }
}

pub open spec fn bool_field_spec(
    fields: Seq<(Seq<char>, JsonSpecValue)>,
    key: Seq<char>,
    default: bool,
) -> Result<bool, DiagnosticSpec> {
    match find_field_spec(fields, key) {
        None => Ok(default),
        Some(JsonSpecValue::Bool(b)) => Ok(b),
        Some(_) => Err(DiagnosticSpec::TypeMismatch(key)),
    }
}

pub open spec fn formatter_from_json_spec(v: JsonSpecValue) -> Result<
    FormatterConfiguration,
    DiagnosticSpec,
> {
    match v {
        JsonSpecValue::Object(fields) => match first_unknown_key(
            fields,
            RecordKind::Formatter,
        ) {
            Some(k) => Err(DiagnosticSpec::UnknownKey(k)),
            None => match bool_field_spec(fields, "enabled"@, true) {
                Err(d) => Err(d),
                Ok(enabled) => {
                    let style = match find_field_spec(fields, "indentStyle"@) {
                        None => Ok(PlainIndentStyle::Tab),
                        Some(JsonSpecValue::Str(s)) => match indent_style_of_str(s) {
                            Some(st) => Ok(st),
                            None => Err(DiagnosticSpec::TypeMismatch("indentStyle"@)),
                        },
                        Some(_) => Err(DiagnosticSpec::TypeMismatch("indentStyle"@)),
                    };
                    match style {
                        Err(d) => Err(d),
                        Ok(indent_style) => {
                            let size = match find_field_spec(fields, "indentSize"@) {
                                None => Ok(2u8),
                                Some(JsonSpecValue::Number(n)) => if n <= 255 {
                                    Ok(n as u8)
                                } else {
                                    Err(DiagnosticSpec::TypeMismatch("indentSize"@))
                                },
                                Some(_) => Err(DiagnosticSpec::TypeMismatch("indentSize"@)),
                            };
                            match size {
                                Err(d) => Err(d),
                                Ok(indent_size) => {
                                    let width = match find_field_spec(fields, "lineWidth"@) {
                                        None => Ok(80u16),
                                        Some(JsonSpecValue::Number(n)) => if 1 <= n <= 320 {
                                            Ok(n as u16)
                                        } else {
                                            Err(DiagnosticSpec::TypeMismatch("lineWidth"@))
                                        },
                                        Some(_) => Err(DiagnosticSpec::TypeMismatch("lineWidth"@)),
                                    };
                                    match width {
                                        Err(d) => Err(d),
                                        Ok(line_width) => Ok(
                                            FormatterConfiguration {
                                                enabled,
                                                indent_style,
                                                indent_size,
                                                line_width,
                                            },
                                        ),
                                    }
                                },
                            }
                        },
                    }
                },
            },
        },
        _ => Err(DiagnosticSpec::TypeMismatch("formatter"@)),
    }
}

pub open spec fn organize_imports_from_json_spec(v: JsonSpecValue) -> Result<
    OrganizeImports,
    DiagnosticSpec,
> {
    match v {
        JsonSpecValue::Object(fields) => match first_unknown_key(
            fields,
            RecordKind::Organize,
        ) {
            Some(k) => Err(DiagnosticSpec::UnknownKey(k)),
            None => match bool_field_spec(fields, "enabled"@, false) {
                Err(d) => Err(d),
                Ok(enabled) => Ok(OrganizeImports { enabled }),
            },
        },
        _ => Err(DiagnosticSpec::TypeMismatch("organizeImports"@)),
    }
}

pub open spec fn rules_from_json_spec(v: JsonSpecValue) -> Result<Rules, DiagnosticSpec> {
    match v {
        JsonSpecValue::Object(fields) => match first_unknown_key(
            fields,
            RecordKind::RulesRecord,
        ) {
            Some(k) => Err(DiagnosticSpec::UnknownKey(k)),
            None => match find_field_spec(fields, "recommended"@) {
                None => Ok(Rules { recommended: None }),
                Some(JsonSpecValue::Bool(b)) => Ok(Rules { recommended: Some(b) }),
                Some(_) => Err(DiagnosticSpec::TypeMismatch("recommended"@)),
            },
        },
        _ => Err(DiagnosticSpec::TypeMismatch("rules"@)),
    }
}

pub open spec fn linter_from_json_spec(v: JsonSpecValue) -> Result<
    LinterConfiguration,
    DiagnosticSpec,
> {
    match v {
        JsonSpecValue::Object(fields) => match first_unknown_key(
            fields,
            RecordKind::Linter,
        ) {
            Some(k) => Err(DiagnosticSpec::UnknownKey(k)),
            None => match bool_field_spec(fields, "enabled"@, true) {
                Err(d) => Err(d),
                Ok(enabled) => match find_field_spec(fields, "rules"@) {
                    None => Ok(LinterConfiguration { enabled, rules: None }),
                    Some(rv) => match rules_from_json_spec(rv) {
                        Err(d) => Err(d),
                        Ok(r) => Ok(LinterConfiguration { enabled, rules: Some(r) }),
                    },
                },
            },
        },
        _ => Err(DiagnosticSpec::TypeMismatch("linter"@)),
    }
}

pub open spec fn js_formatter_from_json_spec(v: JsonSpecValue) -> Result<
    JavascriptFormatter,
    DiagnosticSpec,
> {
    match v {
        JsonSpecValue::Object(fields) => match first_unknown_key(
            fields,
            RecordKind::JsFormatter,
        ) {
            Some(k) => Err(DiagnosticSpec::UnknownKey(k)),
            None => {
                let qs = match find_field_spec(fields, "quoteStyle"@) {
                    None => Ok(QuoteStyle::Double),
                    Some(JsonSpecValue::Str(s)) => match quote_style_of_str(s) {
                        Some(q) => Ok(q),
                        None => Err(DiagnosticSpec::TypeMismatch("quoteStyle"@)),
                    },
                    Some(_) => Err(DiagnosticSpec::TypeMismatch("quoteStyle"@)),
                };
                match qs {
                    Err(d) => Err(d),
                    Ok(quote_style) => {
                        let qp = match find_field_spec(fields, "quoteProperties"@) {
                            None => Ok(QuoteProperties::AsNeeded),
                            Some(JsonSpecValue::Str(s)) => match quote_properties_of_str(s) {
                                Some(q) => Ok(q),
                                None => Err(DiagnosticSpec::TypeMismatch("quoteProperties"@)),
                            },
                            Some(_) => Err(DiagnosticSpec::TypeMismatch("quoteProperties"@)),
                        };
                        match qp {
                            Err(d) => Err(d),
                            Ok(quote_properties) => {
                                let tc = match find_field_spec(fields, "trailingComma"@) {
                                    None => Ok(TrailingComma::All),
                                    Some(JsonSpecValue::Str(s)) => match trailing_comma_of_str(s) {
                                        Some(q) => Ok(q),
                                        None => Err(
                                            DiagnosticSpec::TypeMismatch("trailingComma"@),
                                        ),
                                    },
                                    Some(_) => Err(DiagnosticSpec::TypeMismatch("trailingComma"@)),
                                };
                                match tc {
                                    Err(d) => Err(d),
                                    Ok(trailing_comma) => {
                                        let sc = match find_field_spec(fields, "semicolons"@) {
                                            None => Ok(Semicolons::Always),
                                            Some(JsonSpecValue::Str(s)) => match semicolons_of_str(
                                                s,
                                            ) {
                                                Some(q) => Ok(q),
                                                None => Err(
                                                    DiagnosticSpec::TypeMismatch("semicolons"@),
                                                ),
                                            },
                                            Some(_) => Err(
                                                DiagnosticSpec::TypeMismatch("semicolons"@),
                                            ),
                                        };
                                        match sc {
                                            Err(d) => Err(d),
                                            Ok(semicolons) => Ok(
                                                JavascriptFormatter {
                                                    quote_style,
                                                    quote_properties,
                                                    trailing_comma,
                                                    semicolons,
                                                },
                                            ),
                                        }
                                    },
                                }
                            },
                        }
                    },
                }
            },
        },
        _ => Err(DiagnosticSpec::TypeMismatch("formatter"@)),
    }
}

pub open spec fn javascript_from_json_spec(v: JsonSpecValue) -> Result<
    JavascriptView,
    DiagnosticSpec,
> {
    match v {
        JsonSpecValue::Object(fields) => match first_unknown_key(
            fields,
            RecordKind::Javascript,
        ) {
            Some(k) => Err(DiagnosticSpec::UnknownKey(k)),
            None => {
                let fmt = match find_field_spec(fields, "formatter"@) {
                    None => Ok(None),
                    Some(fv) => match js_formatter_from_json_spec(fv) {
                        Err(d) => Err(d),
                        Ok(f) => Ok(Some(f)),
                    },
                };
                match fmt {
                    Err(d) => Err(d),
                    Ok(formatter) => match find_field_spec(fields, "globals"@) {
                        None => Ok(JavascriptView { formatter, globals: None }),
                        Some(gv) => match set_of_strings_from_json_spec(gv) {
                            Ok(elems) => Ok(JavascriptView { formatter, globals: Some(elems) }),
                            Err(_) => Err(DiagnosticSpec::TypeMismatch("globals"@)),
                        },
                    },
                }
            },
        },
        _ => Err(DiagnosticSpec::TypeMismatch("javascript"@)),
    }
}

/// The strict read of a whole document: a key outside the recognized set of
/// any record fails with `UnknownKey` naming it; a recognized key of the
/// wrong shape fails with `TypeMismatch`; anything but an object at the top
/// is `Malformed`.
pub open spec fn cfg_from_json_spec(v: JsonSpecValue) -> Result<ConfigView, DiagnosticSpec> {
    match v {
        JsonSpecValue::Object(fields) => match first_unknown_key(
            fields,
            RecordKind::Root,
        ) {
            Some(k) => Err(DiagnosticSpec::UnknownKey(k)),
            None => {
                let schema = match find_field_spec(fields, "$schema"@) {
                    None => Ok(None),
                    Some(JsonSpecValue::Str(s)) => Ok(Some(s)),
                    Some(_) => Err(DiagnosticSpec::TypeMismatch("$schema"@)),
                };
                match schema {
                    Err(d) => Err(d),
                    Ok(schema) => {
                        let files = match find_field_spec(fields, "files"@) {
                            None => Ok(None),
                            Some(fv) => match files_from_json_spec(fv) {
                                Err(d) => Err(d),
                                Ok(f) => Ok(Some(f)),
                            },
                        };
                        match files {
                            Err(d) => Err(d),
                            Ok(files) => {
                                let formatter = match find_field_spec(fields, "formatter"@) {
                                    None => Ok(None),
                                    Some(fv) => match formatter_from_json_spec(fv) {
                                        Err(d) => Err(d),
                                        Ok(f) => Ok(Some(f)),
                                    },
                                };
                                match formatter {
                                    Err(d) => Err(d),
                                    Ok(formatter) => {
                                        let organize = match find_field_spec(
                                            fields,
                                            "organizeImports"@,
                                        ) {
                                            None => Ok(None),
                                            Some(ov) => match organize_imports_from_json_spec(ov) {
                                                Err(d) => Err(d),
                                                Ok(o) => Ok(Some(o)),
                                            },
                                        };
                                        match organize {
                                            Err(d) => Err(d),
                                            Ok(organize_imports) => {
                                                let linter = match find_field_spec(
                                                    fields,
                                                    "linter"@,
                                                ) {
                                                    None => Ok(None),
                                                    Some(lv) => match linter_from_json_spec(lv) {
                                                        Err(d) => Err(d),
                                                        Ok(l) => Ok(Some(l)),
                                                    },
                                                };
                                                match linter {
                                                    Err(d) => Err(d),
                                                    Ok(linter) => {
                                                        let js = match find_field_spec(
                                                            fields,
                                                            "javascript"@,
                                                        ) {
                                                            None => Ok(None),
                                                            Some(jv) => match javascript_from_json_spec(
                                                                jv,
                                                            ) {
                                                                Err(d) => Err(d),
                                                                Ok(j) => Ok(Some(j)),
                                                            },
                                                        };
                                                        match js {
                                                            Err(d) => Err(d),
                                                            Ok(javascript) => Ok(
                                                                ConfigView {
                                                                    schema,
                                                                    files,
                                                                    formatter,
                                                                    organize_imports,
                                                                    linter,
                                                                    javascript,
                                                                },
                                                            ),
                                                        }
                                                    },
                                                }
                                            },
                                        }
                                    },
                                }
                            },
                        }
                    },
                }
            },
        },
        _ => Err(DiagnosticSpec::Malformed),
    }
}

/// The read of a whole configuration text: parse, then decode strictly.
pub open spec fn deserialize_spec(text: Seq<char>) -> Result<ConfigView, DiagnosticSpec> {
    match parse_document_spec(text) {
        Err(_) => Err(DiagnosticSpec::Malformed),
        Ok(v) => cfg_from_json_spec(v),
    }
}

// ---------------------------------------------------------------------------
// Properties of the helpers
// ---------------------------------------------------------------------------

/// Dropping duplicates yields a duplicate-free sequence with the same
/// members; a sequence already free of duplicates comes back unchanged.
pub proof fn lemma_dedup_props(ss: Seq<Seq<char>>)
    ensures
        dedup_spec(ss).no_duplicates(),
        forall|e: Seq<char>| #[trigger] dedup_spec(ss).contains(e) <==> ss.contains(e),
        ss.no_duplicates() ==> dedup_spec(ss) =~= ss,
    decreases ss,
{
    if ss.len() == 0 {
        assert(dedup_spec(ss) =~= Seq::<Seq<char>>::empty());
    } else {
        let front = ss.drop_last();
        let l = ss.last();
        lemma_dedup_props(front);
        let init = dedup_spec(front);
        assert(ss =~= front.push(l));
        assert forall|e: Seq<char>| #[trigger] ss.contains(e) implies front.contains(e) || e
            == l by {
            let i = choose|i: int| 0 <= i < ss.len() && ss[i] == e;
            if i < ss.len() - 1 {
                assert(front[i] == e);
            }
        }
        assert(forall|e: Seq<char>|
            front.contains(e) || e == l ==> #[trigger] ss.contains(e));
        if init.contains(l) {
            assert(dedup_spec(ss) == init);
        } else {
            assert(dedup_spec(ss) == init.push(l));
            assert forall|e: Seq<char>| #[trigger] dedup_spec(ss).contains(e) implies ss.contains(
                e,
            ) by {
                let i = choose|i: int| 0 <= i < dedup_spec(ss).len() && dedup_spec(ss)[i] == e;
                if i < init.len() {
                    assert(init.contains(e));
                }
            }
            assert forall|e: Seq<char>| ss.contains(e) implies #[trigger] dedup_spec(ss).contains(
                e,
            ) by {
                if front.contains(e) {
                    assert(init.contains(e));
                    let i = choose|i: int| 0 <= i < init.len() && init[i] == e;
                    assert(init.push(l)[i] == e);
                } else {
                    assert(init.push(l)[init.len() as int] == l);
                }
            }
            assert forall|i: int, j: int|
                0 <= i < dedup_spec(ss).len() && 0 <= j < dedup_spec(ss).len() && i
                    != j implies dedup_spec(ss)[i] != dedup_spec(ss)[j] by {
                if i < init.len() && j < init.len() {
                } else if i < init.len() && j == init.len() {
                    assert(init[i] == init.push(l)[i]);
                    if init[i] == l {
                        assert(init.contains(l));
                    }
                } else if j < init.len() && i == init.len() {
                    if init[j] == l {
                        assert(init.contains(l));
                    }
                }
            }
        }
        if ss.no_duplicates() {
            assert forall|i: int, j: int|
                0 <= i < front.len() && 0 <= j < front.len() && i != j implies front[i]
                != front[j] by {
                assert(front[i] == ss[i] && front[j] == ss[j]);
            }
            assert(front.no_duplicates());
            assert(dedup_spec(front) =~= front);
            if front.contains(l) {
                let i = choose|i: int| 0 <= i < front.len() && front[i] == l;
                assert(ss[i] == ss[ss.len() - 1]);
                assert(false);
            }
        }
    }
}

proof fn lemma_strs_of_json_bad(items: Seq<JsonSpecValue>, i: int)
    requires
        0 <= i < items.len(),
        !(items[i] is Str),
    ensures
        strs_of_json(items) is Err,
    decreases items,
{
    if i == items.len() - 1 {
    } else {
        lemma_strs_of_json_bad(items.drop_last(), i);
    }
}

// ---------------------------------------------------------------------------
// Executable deserializer
// ---------------------------------------------------------------------------

fn is_known_key(kind: RecordKind, k: &String) -> (b: bool)
    ensures
        b == known_key(kind, k@),
{
    match kind {
        RecordKind::Root => string_eq_str(k, "$schema") || string_eq_str(k, "files")
            || string_eq_str(k, "formatter") || string_eq_str(k, "organizeImports")
            || string_eq_str(k, "linter") || string_eq_str(k, "javascript"),
        RecordKind::Files => string_eq_str(k, "maxSize") || string_eq_str(k, "ignore"),
        RecordKind::Formatter => string_eq_str(k, "enabled") || string_eq_str(k, "indentStyle")
            || string_eq_str(k, "indentSize") || string_eq_str(k, "lineWidth"),
        RecordKind::Organize => string_eq_str(k, "enabled"),
        RecordKind::Linter => string_eq_str(k, "enabled") || string_eq_str(k, "rules"),
        RecordKind::RulesRecord => string_eq_str(k, "recommended"),
        RecordKind::Javascript => string_eq_str(k, "formatter") || string_eq_str(k, "globals"),
        RecordKind::JsFormatter => string_eq_str(k, "quoteStyle") || string_eq_str(
            k,
            "quoteProperties",
        ) || string_eq_str(k, "trailingComma") || string_eq_str(k, "semicolons"),
    }
}

fn first_unknown(fields: &Vec<(String, JsonValue)>, kind: RecordKind) -> (r: Option<String>)
    ensures
        match first_unknown_key(json_view_fields(fields@), kind) {
            None => r is None,
            Some(k) => r is Some && r->Some_0@ == k,
        },
{
    proof {
        lemma_json_view_fields_len(fields@);
        assert(json_view_fields(fields@).skip(0) =~= json_view_fields(fields@));
    }
    let ghost fv = json_view_fields(fields@);
    let mut i: usize = 0;
    while i < fields.len()
        invariant
            i <= fields@.len(),
            fv == json_view_fields(fields@),
            fv.len() == fields@.len(),
            forall|t: int|
                0 <= t < fv.len() ==> #[trigger] fv[t] == (fields@[t].0@, json_view(fields@[t].1)),
            first_unknown_key(fv, kind) == first_unknown_key(fv.skip(i as int), kind),
        decreases fields@.len() - i,
    {
        proof {
            assert(fv.skip(i as int)[0] == fv[i as int]);
        }
        if !is_known_key(kind, &fields[i].0) {
            return Some(fields[i].0.clone());
        }
        proof {
            assert(fv.skip(i as int).drop_first() =~= fv.skip(i + 1));
        }
        i += 1;
    }
    proof {
        assert(fv.skip(i as int).len() == 0);
    }
    None
}

fn find_field<'a>(fields: &'a Vec<(String, JsonValue)>, key: &str) -> (r: Option<&'a JsonValue>)
    ensures
        match find_field_spec(json_view_fields(fields@), key@) {
            None => r is None,
            Some(sv) => r is Some && r->Some_0@ == sv,
        },
{
    proof {
        lemma_json_view_fields_len(fields@);
        assert(json_view_fields(fields@).skip(0) =~= json_view_fields(fields@));
    }
    let ghost fv = json_view_fields(fields@);
    let mut i: usize = 0;
    while i < fields.len()
        invariant
            i <= fields@.len(),
            fv == json_view_fields(fields@),
            fv.len() == fields@.len(),
            forall|t: int|
                0 <= t < fv.len() ==> #[trigger] fv[t] == (fields@[t].0@, json_view(fields@[t].1)),
            find_field_spec(fv, key@) == find_field_spec(fv.skip(i as int), key@),
        decreases fields@.len() - i,
    {
        proof {
            assert(fv.skip(i as int)[0] == fv[i as int]);
        }
        if string_eq_str(&fields[i].0, key) {
            return Some(&fields[i].1);
        }
        proof {
            assert(fv.skip(i as int).drop_first() =~= fv.skip(i + 1));
        }
        i += 1;
    }
    proof {
        assert(fv.skip(i as int).len() == 0);
    }
    None
}

/// The pattern-set codec's reading half: each element of a sequence of
/// strings is inserted into an order-preserving set; a later duplicate is a
/// no-op, so first-seen order is kept.
pub fn deserialize_set_of_strings(v: &JsonValue) -> (r: Result<IndexSet<String>, ()>)
    ensures
        match set_of_strings_from_json_spec(v@) {
            Ok(elems) => r is Ok && iset_elems(r->Ok_0) == elems && elems.no_duplicates(),
            Err(_) => r is Err,
        },
{
    match v {
        JsonValue::Array(items) => {
            proof {
                lemma_json_view_items_len(items@);
                assert(v@ == JsonSpecValue::Array(json_view_items(items@)));
            }
            let ghost iv = json_view_items(items@);
            let mut set = iset_new();
            let mut i: usize = 0;
            while i < items.len()
                invariant
                    i <= items@.len(),
                    iv == json_view_items(items@),
                    iv.len() == items@.len(),
                    v@ == JsonSpecValue::Array(iv),
                    forall|t: int| 0 <= t < iv.len() ==> #[trigger] iv[t] == json_view(items@[t]),
                    strs_of_json(iv.subrange(0, i as int)) is Ok,
                    iset_elems(set) == dedup_spec(
                        strs_of_json(iv.subrange(0, i as int))->Ok_0,
                    ),
                decreases items@.len() - i,
            {
                let ghost pre = iv.subrange(0, i as int);
                let ghost cur = iv.subrange(0, i + 1 as int);
                proof {
                    assert(cur.drop_last() =~= pre);
                    assert(cur.last() == iv[i as int]);
                }
                match &items[i] {
                    JsonValue::Str(s) => {
                        let ghost elems_pre = iset_elems(set);
                        let _ = iset_insert(&mut set, s.clone());
                        proof {
                            let ss = strs_of_json(cur)->Ok_0;
                            assert(ss == strs_of_json(pre)->Ok_0.push(s@));
                            assert(ss.drop_last() =~= strs_of_json(pre)->Ok_0);
                        }
                    },
                    _ => {
                        proof {
                            assert(!(iv[i as int] is Str));
                            lemma_strs_of_json_bad(iv, i as int);

                        }
                        return Err(());
                    },
                }
                i += 1;
            }
            proof {
                assert(iv.subrange(0, i as int) =~= iv);
                lemma_dedup_props(strs_of_json(iv)->Ok_0);
            }
            Ok(set)
        },
        _ => Err(()),
    }
}

/// The pattern-set codec's writing half: a present set serializes to its
/// elements in iteration order; an absent one stays absent and never turns
/// into an empty sequence.
pub fn serialize_set_of_strings(set_of_strings: &Option<IndexSet<String>>) -> (r: Option<
    JsonValue,
>)
    ensures
        match set_of_strings {
            Some(s) => r is Some && r->Some_0@ == JsonSpecValue::Array(
                strs_to_json(iset_elems(*s)),
            ),
            None => r is None,
        },
{
    match set_of_strings {
        Some(s) => Some(strings_to_json_array(s)),
        None => None,
    }
}

fn indent_style_string(s: PlainIndentStyle) -> (r: String)
    ensures
        r@ == indent_style_str(s),
{
    match s {
        PlainIndentStyle::Tab => "tab".to_owned(),
        PlainIndentStyle::Space => "space".to_owned(),
    }
}

fn quote_style_string(s: QuoteStyle) -> (r: String)
    ensures
        r@ == quote_style_str(s),
{
    match s {
        QuoteStyle::Double => "double".to_owned(),
        QuoteStyle::Single => "single".to_owned(),
    }
}

fn quote_properties_string(s: QuoteProperties) -> (r: String)
    ensures
        r@ == quote_properties_str(s),
{
    match s {
        QuoteProperties::AsNeeded => "asNeeded".to_owned(),
        QuoteProperties::Preserve => "preserve".to_owned(),
    }
}

fn trailing_comma_string(s: TrailingComma) -> (r: String)
    ensures
        r@ == trailing_comma_str(s),
{
    match s {
        TrailingComma::All => "all".to_owned(),
        TrailingComma::Es5 => "es5".to_owned(),
        TrailingComma::Omit => "none".to_owned(),
    }
}

fn semicolons_string(s: Semicolons) -> (r: String)
    ensures
        r@ == semicolons_str(s),
{
    match s {
        Semicolons::Always => "always".to_owned(),
        Semicolons::AsNeeded => "asNeeded".to_owned(),
    }
}

fn files_to_json(f: &FilesConfiguration) -> (r: JsonValue)
    ensures
        r@ == files_to_json_spec(f@),
{
    let mut fields: Vec<(String, JsonValue)> = Vec::new();
    match &f.max_size {
        Some(n) => {
            fields.push(("maxSize".to_owned(), JsonValue::Number(*n)));
        },
        None => {},
    }
    match &f.ignore {
        Some(set) => {
            fields.push(("ignore".to_owned(), strings_to_json_array(set)));
        },
        None => {},
    }
    let r = JsonValue::Object(fields);
    proof {
        lemma_json_view_fields_len(r->Object_0@);
        assert(json_view_fields(r->Object_0@) =~~= files_json_fields(f@));
    }
    r
}

fn formatter_to_json(f: &FormatterConfiguration) -> (r: JsonValue)
    ensures
        r@ == formatter_to_json_spec(*f),
{
    let mut fields: Vec<(String, JsonValue)> = Vec::new();
    fields.push(("enabled".to_owned(), JsonValue::Bool(f.enabled)));
    fields.push(("indentStyle".to_owned(), JsonValue::Str(indent_style_string(f.indent_style))));
    fields.push(("indentSize".to_owned(), JsonValue::Number(f.indent_size as u64)));
    fields.push(("lineWidth".to_owned(), JsonValue::Number(f.line_width as u64)));
    let r = JsonValue::Object(fields);
    proof {
        lemma_json_view_fields_len(r->Object_0@);
        assert(json_view_fields(r->Object_0@) =~~= formatter_json_fields(*f));
    }
    r
}

fn organize_imports_to_json(o: &OrganizeImports) -> (r: JsonValue)
    ensures
        r@ == organize_imports_to_json_spec(*o),
{
    let mut fields: Vec<(String, JsonValue)> = Vec::new();
    fields.push(("enabled".to_owned(), JsonValue::Bool(o.enabled)));
    let r = JsonValue::Object(fields);
    proof {
        lemma_json_view_fields_len(r->Object_0@);
        assert(json_view_fields(r->Object_0@) =~~= organize_imports_json_fields(*o));
    }
    r
}

fn rules_to_json(ru: &Rules) -> (r: JsonValue)
    ensures
        r@ == rules_to_json_spec(*ru),
{
    let mut fields: Vec<(String, JsonValue)> = Vec::new();
    match &ru.recommended {
        Some(b) => {
            fields.push(("recommended".to_owned(), JsonValue::Bool(*b)));
        },
        None => {},
    }
    let r = JsonValue::Object(fields);
    proof {
        lemma_json_view_fields_len(r->Object_0@);
        assert(json_view_fields(r->Object_0@) =~~= rules_json_fields(*ru));
    }
    r
}

fn linter_to_json(l: &LinterConfiguration) -> (r: JsonValue)
    ensures
        r@ == linter_to_json_spec(*l),
{
    let mut fields: Vec<(String, JsonValue)> = Vec::new();
    fields.push(("enabled".to_owned(), JsonValue::Bool(l.enabled)));
    match &l.rules {
        Some(ru) => {
            fields.push(("rules".to_owned(), rules_to_json(ru)));
        },
        None => {},
    }
    let r = JsonValue::Object(fields);
    proof {
        lemma_json_view_fields_len(r->Object_0@);
        assert(json_view_fields(r->Object_0@) =~~= linter_json_fields(*l));
    }
    r
}

fn js_formatter_to_json(f: &JavascriptFormatter) -> (r: JsonValue)
    ensures
        r@ == js_formatter_to_json_spec(*f),
{
    let mut fields: Vec<(String, JsonValue)> = Vec::new();
    fields.push(("quoteStyle".to_owned(), JsonValue::Str(quote_style_string(f.quote_style))));
    fields.push(
        ("quoteProperties".to_owned(), JsonValue::Str(quote_properties_string(f.quote_properties))),
    );
    fields.push(
        ("trailingComma".to_owned(), JsonValue::Str(trailing_comma_string(f.trailing_comma))),
    );
    fields.push(("semicolons".to_owned(), JsonValue::Str(semicolons_string(f.semicolons))));
    let r = JsonValue::Object(fields);
    proof {
        lemma_json_view_fields_len(r->Object_0@);
        assert(json_view_fields(r->Object_0@) =~~= js_formatter_json_fields(*f));
    }
    r
}

fn javascript_to_json(j: &JavascriptConfiguration) -> (r: JsonValue)
    ensures
        r@ == javascript_to_json_spec(j@),
{
    let mut fields: Vec<(String, JsonValue)> = Vec::new();
    match &j.formatter {
        Some(f) => {
            fields.push(("formatter".to_owned(), js_formatter_to_json(f)));
        },
        None => {},
    }
    match &j.globals {
        Some(set) => {
            fields.push(("globals".to_owned(), strings_to_json_array(set)));
        },
        None => {},
    }
    let r = JsonValue::Object(fields);
    proof {
        lemma_json_view_fields_len(r->Object_0@);
        assert(json_view_fields(r->Object_0@) =~~= javascript_json_fields(j@));
    }
    r
}

/// A configuration as the JSON document it serializes to.
pub fn cfg_to_json(c: &Configuration) -> (r: JsonValue)
    ensures
        r@ == cfg_to_json_spec(c@),
{
    let mut fields: Vec<(String, JsonValue)> = Vec::new();
    match &c.schema {
        Some(s) => {
            fields.push(("$schema".to_owned(), JsonValue::Str(s.clone())));
        },
        None => {},
    }
    match &c.files {
        Some(f) => {
            fields.push(("files".to_owned(), files_to_json(f)));
        },
        None => {},
    }
    match &c.formatter {
        Some(f) => {
            fields.push(("formatter".to_owned(), formatter_to_json(f)));
        },
        None => {},
    }
    match &c.organize_imports {
        Some(o) => {
            fields.push(("organizeImports".to_owned(), organize_imports_to_json(o)));
        },
        None => {},
    }
    match &c.linter {
        Some(l) => {
            fields.push(("linter".to_owned(), linter_to_json(l)));
        },
        None => {},
    }
    match &c.javascript {
        Some(j) => {
            fields.push(("javascript".to_owned(), javascript_to_json(j)));
        },
        None => {},
    }
    let r = JsonValue::Object(fields);
    proof {
        lemma_json_view_fields_len(r->Object_0@);
        assert(json_view_fields(r->Object_0@) =~~= cfg_json_fields(c@));
    }
    r
}

fn files_from_json(v: &JsonValue) -> (r: Result<FilesConfiguration, ConfigurationDiagnostic>)
    ensures
        match files_from_json_spec(v@) {
            Ok(fv) => r is Ok && r->Ok_0@ == fv,
            Err(d) => r is Err && r->Err_0@ == d,
        },
{
    match v {
        JsonValue::Object(fields) => {
            if let Some(k) = first_unknown(fields, RecordKind::Files) {
                return Err(ConfigurationDiagnostic::UnknownKey(k));
            }
            let max_size: Option<u64> = match find_field(fields, "maxSize") {
                None => None,
                Some(mv) => match mv {
                    JsonValue::Number(n) => {
                        if *n > 0 {
                            Some(*n)
                        } else {
                            return Err(
                                ConfigurationDiagnostic::TypeMismatch("maxSize".to_owned()),
                            );
                        }
                    },
                    _ => {
                        return Err(ConfigurationDiagnostic::TypeMismatch("maxSize".to_owned()));
                    },
                },
            };
            let ignore: Option<IndexSet<String>> = match find_field(fields, "ignore") {
                None => None,
                Some(iv) => match deserialize_set_of_strings(iv) {
                    Ok(s) => Some(s),
                    Err(_) => {
                        return Err(ConfigurationDiagnostic::TypeMismatch("ignore".to_owned()));
                    },
                },
            };
            let r = FilesConfiguration { max_size, ignore };
            proof {
                assert(r@ =~~= files_from_json_spec(v@)->Ok_0);
            }
            Ok(r)
        },
        _ => Err(ConfigurationDiagnostic::TypeMismatch("files".to_owned())),
    }
}

fn formatter_from_json(v: &JsonValue) -> (r: Result<
    FormatterConfiguration,
    ConfigurationDiagnostic,
>)
    ensures
        match formatter_from_json_spec(v@) {
            Ok(fv) => r is Ok && r->Ok_0 == fv,
            Err(d) => r is Err && r->Err_0@ == d,
        },
{
    match v {
        JsonValue::Object(fields) => {
            if let Some(k) = first_unknown(fields, RecordKind::Formatter) {
                return Err(ConfigurationDiagnostic::UnknownKey(k));
            }
            let enabled: bool = match find_field(fields, "enabled") {
                None => true,
                Some(bv) => match bv {
                    JsonValue::Bool(b) => *b,
                    _ => {
                        return Err(ConfigurationDiagnostic::TypeMismatch("enabled".to_owned()));
                    },
                },
            };
            let indent_style: PlainIndentStyle = match find_field(fields, "indentStyle") {
                None => PlainIndentStyle::Tab,
                Some(sv) => match sv {
                    JsonValue::Str(s) => {
                        if string_eq_str(s, "tab") {
                            PlainIndentStyle::Tab
                        } else if string_eq_str(s, "space") {
                            PlainIndentStyle::Space
                        } else {
                            return Err(
                                ConfigurationDiagnostic::TypeMismatch("indentStyle".to_owned()),
                            );
                        }
                    },
                    _ => {
                        return Err(
                            ConfigurationDiagnostic::TypeMismatch("indentStyle".to_owned()),
                        );
                    },
                },
            };
            let indent_size: u8 = match find_field(fields, "indentSize") {
                None => 2,
                Some(nv) => match nv {
                    JsonValue::Number(n) => {
                        if *n <= 255 {
                            *n as u8
                        } else {
                            return Err(
                                ConfigurationDiagnostic::TypeMismatch("indentSize".to_owned()),
                            );
                        }
                    },
                    _ => {
                        return Err(ConfigurationDiagnostic::TypeMismatch("indentSize".to_owned()));
                    },
                },
            };
            let line_width: u16 = match find_field(fields, "lineWidth") {
                None => 80,
                Some(nv) => match nv {
                    JsonValue::Number(n) => {
                        if 1 <= *n && *n <= 320 {
                            *n as u16
                        } else {
                            return Err(
                                ConfigurationDiagnostic::TypeMismatch("lineWidth".to_owned()),
                            );
                        }
                    },
                    _ => {
                        return Err(ConfigurationDiagnostic::TypeMismatch("lineWidth".to_owned()));
                    },
                },
            };
            Ok(FormatterConfiguration { enabled, indent_style, indent_size, line_width })
        },
        _ => Err(ConfigurationDiagnostic::TypeMismatch("formatter".to_owned())),
    }
}

fn organize_imports_from_json(v: &JsonValue) -> (r: Result<
    OrganizeImports,
    ConfigurationDiagnostic,
>)
    ensures
        match organize_imports_from_json_spec(v@) {
            Ok(ov) => r is Ok && r->Ok_0 == ov,
            Err(d) => r is Err && r->Err_0@ == d,
        },
{
    match v {
        JsonValue::Object(fields) => {
            if let Some(k) = first_unknown(fields, RecordKind::Organize) {
                return Err(ConfigurationDiagnostic::UnknownKey(k));
            }
            let enabled: bool = match find_field(fields, "enabled") {
                None => false,
                Some(bv) => match bv {
                    JsonValue::Bool(b) => *b,
                    _ => {
                        return Err(ConfigurationDiagnostic::TypeMismatch("enabled".to_owned()));
                    },
                },
            };
            Ok(OrganizeImports { enabled })
        },
        _ => Err(ConfigurationDiagnostic::TypeMismatch("organizeImports".to_owned())),
    }
}

fn rules_from_json(v: &JsonValue) -> (r: Result<Rules, ConfigurationDiagnostic>)
    ensures
        match rules_from_json_spec(v@) {
            Ok(rv) => r is Ok && r->Ok_0 == rv,
            Err(d) => r is Err && r->Err_0@ == d,
        },
{
    match v {
        JsonValue::Object(fields) => {
            if let Some(k) = first_unknown(fields, RecordKind::RulesRecord) {
                return Err(ConfigurationDiagnostic::UnknownKey(k));
            }
            let recommended: Option<bool> = match find_field(fields, "recommended") {
                None => None,
                Some(bv) => match bv {
                    JsonValue::Bool(b) => Some(*b),
                    _ => {
                        return Err(
                            ConfigurationDiagnostic::TypeMismatch("recommended".to_owned()),
                        );
                    },
                },
            };
            Ok(Rules { recommended })
        },
        _ => Err(ConfigurationDiagnostic::TypeMismatch("rules".to_owned())),
    }
}

fn linter_from_json(v: &JsonValue) -> (r: Result<LinterConfiguration, ConfigurationDiagnostic>)
    ensures
        match linter_from_json_spec(v@) {
            Ok(lv) => r is Ok && r->Ok_0 == lv,
            Err(d) => r is Err && r->Err_0@ == d,
        },
{
    match v {
        JsonValue::Object(fields) => {
            if let Some(k) = first_unknown(fields, RecordKind::Linter) {
                return Err(ConfigurationDiagnostic::UnknownKey(k));
            }
            let enabled: bool = match find_field(fields, "enabled") {
                None => true,
                Some(bv) => match bv {
                    JsonValue::Bool(b) => *b,
                    _ => {
                        return Err(ConfigurationDiagnostic::TypeMismatch("enabled".to_owned()));
                    },
                },
            };
            let rules: Option<Rules> = match find_field(fields, "rules") {
                None => None,
                Some(rv) => match rules_from_json(rv) {
                    Ok(ru) => Some(ru),
                    Err(d) => {
                        return Err(d);
                    },
                },
            };
            Ok(LinterConfiguration { enabled, rules })
        },
        _ => Err(ConfigurationDiagnostic::TypeMismatch("linter".to_owned())),
    }
}

fn js_formatter_from_json(v: &JsonValue) -> (r: Result<
    JavascriptFormatter,
    ConfigurationDiagnostic,
>)
    ensures
        match js_formatter_from_json_spec(v@) {
            Ok(fv) => r is Ok && r->Ok_0 == fv,
            Err(d) => r is Err && r->Err_0@ == d,
        },
{
    match v {
        JsonValue::Object(fields) => {
            if let Some(k) = first_unknown(fields, RecordKind::JsFormatter) {
                return Err(ConfigurationDiagnostic::UnknownKey(k));
            }
            let quote_style: QuoteStyle = match find_field(fields, "quoteStyle") {
                None => QuoteStyle::Double,
                Some(sv) => match sv {
                    JsonValue::Str(s) => {
                        if string_eq_str(s, "double") {
                            QuoteStyle::Double
                        } else if string_eq_str(s, "single") {
                            QuoteStyle::Single
                        } else {
                            return Err(
                                ConfigurationDiagnostic::TypeMismatch("quoteStyle".to_owned()),
                            );
                        }
                    },
                    _ => {
                        return Err(ConfigurationDiagnostic::TypeMismatch("quoteStyle".to_owned()));
                    },
                },
            };
            let quote_properties: QuoteProperties = match find_field(fields, "quoteProperties") {
                None => QuoteProperties::AsNeeded,
                Some(sv) => match sv {
                    JsonValue::Str(s) => {
                        if string_eq_str(s, "asNeeded") {
                            QuoteProperties::AsNeeded
                        } else if string_eq_str(s, "preserve") {
                            QuoteProperties::Preserve
                        } else {
                            return Err(
                                ConfigurationDiagnostic::TypeMismatch(
                                    "quoteProperties".to_owned(),
                                ),
                            );
                        }
                    },
                    _ => {
                        return Err(
                            ConfigurationDiagnostic::TypeMismatch("quoteProperties".to_owned()),
                        );
                    },
                },
            };
            let trailing_comma: TrailingComma = match find_field(fields, "trailingComma") {
                None => TrailingComma::All,
                Some(sv) => match sv {
                    JsonValue::Str(s) => {
                        if string_eq_str(s, "all") {
                            TrailingComma::All
                        } else if string_eq_str(s, "es5") {
                            TrailingComma::Es5
                        } else if string_eq_str(s, "none") {
                            TrailingComma::Omit
                        } else {
                            return Err(
                                ConfigurationDiagnostic::TypeMismatch("trailingComma".to_owned()),
                            );
                        }
                    },
                    _ => {
                        return Err(
                            ConfigurationDiagnostic::TypeMismatch("trailingComma".to_owned()),
                        );
                    },
                },
            };
            let semicolons: Semicolons = match find_field(fields, "semicolons") {
                None => Semicolons::Always,
                Some(sv) => match sv {
                    JsonValue::Str(s) => {
                        if string_eq_str(s, "always") {
                            Semicolons::Always
                        } else if string_eq_str(s, "asNeeded") {
                            Semicolons::AsNeeded
                        } else {
                            return Err(
                                ConfigurationDiagnostic::TypeMismatch("semicolons".to_owned()),
                            );
                        }
                    },
                    _ => {
                        return Err(ConfigurationDiagnostic::TypeMismatch("semicolons".to_owned()));
                    },
                },
            };
            Ok(JavascriptFormatter { quote_style, quote_properties, trailing_comma, semicolons })
        },
        _ => Err(ConfigurationDiagnostic::TypeMismatch("formatter".to_owned())),
    }
}

fn javascript_from_json(v: &JsonValue) -> (r: Result<
    JavascriptConfiguration,
    ConfigurationDiagnostic,
>)
    ensures
        match javascript_from_json_spec(v@) {
            Ok(jv) => r is Ok && r->Ok_0@ == jv,
            Err(d) => r is Err && r->Err_0@ == d,
        },
{
    match v {
        JsonValue::Object(fields) => {
            if let Some(k) = first_unknown(fields, RecordKind::Javascript) {
                return Err(ConfigurationDiagnostic::UnknownKey(k));
            }
            let formatter: Option<JavascriptFormatter> = match find_field(fields, "formatter") {
                None => None,
                Some(fv) => match js_formatter_from_json(fv) {
                    Ok(f) => Some(f),
                    Err(d) => {
                        return Err(d);
                    },
                },
            };
            let globals: Option<IndexSet<String>> = match find_field(fields, "globals") {
                None => None,
                Some(gv) => match deserialize_set_of_strings(gv) {
                    Ok(s) => Some(s),
                    Err(_) => {
                        return Err(ConfigurationDiagnostic::TypeMismatch("globals".to_owned()));
                    },
                },
            };
            let r = JavascriptConfiguration { formatter, globals };
            proof {
                assert(r@ =~~= javascript_from_json_spec(v@)->Ok_0);
            }
            Ok(r)
        },
        _ => Err(ConfigurationDiagnostic::TypeMismatch("javascript".to_owned())),
    }
}

/// The strict read of a document into a configuration.
pub fn cfg_from_json(v: &JsonValue) -> (r: Result<Configuration, ConfigurationDiagnostic>)
    ensures
        match cfg_from_json_spec(v@) {
            Ok(cv) => r is Ok && r->Ok_0@ == cv,
            Err(d) => r is Err && r->Err_0@ == d,
        },
{
    match v {
        JsonValue::Object(fields) => {
            if let Some(k) = first_unknown(fields, RecordKind::Root) {
                return Err(ConfigurationDiagnostic::UnknownKey(k));
            }
            let schema: Option<String> = match find_field(fields, "$schema") {
                None => None,
                Some(sv) => match sv {
                    JsonValue::Str(s) => Some(s.clone()),
                    _ => {
                        return Err(ConfigurationDiagnostic::TypeMismatch("$schema".to_owned()));
                    },
                },
            };
            let files: Option<FilesConfiguration> = match find_field(fields, "files") {
                None => None,
                Some(fv) => match files_from_json(fv) {
                    Ok(f) => Some(f),
                    Err(d) => {
                        return Err(d);
                    },
                },
            };
            let formatter: Option<FormatterConfiguration> = match find_field(fields, "formatter") {
                None => None,
                Some(fv) => match formatter_from_json(fv) {
                    Ok(f) => Some(f),
                    Err(d) => {
                        return Err(d);
                    },
                },
            };
            let organize_imports: Option<OrganizeImports> = match find_field(
                fields,
                "organizeImports",
            ) {
                None => None,
                Some(ov) => match organize_imports_from_json(ov) {
                    Ok(o) => Some(o),
                    Err(d) => {
                        return Err(d);
                    },
                },
            };
            let linter: Option<LinterConfiguration> = match find_field(fields, "linter") {
                None => None,
                Some(lv) => match linter_from_json(lv) {
                    Ok(l) => Some(l),
                    Err(d) => {
                        return Err(d);
                    },
                },
            };
            let javascript: Option<JavascriptConfiguration> = match find_field(
                fields,
                "javascript",
            ) {
                None => None,
                Some(jv) => match javascript_from_json(jv) {
                    Ok(j) => Some(j),
                    Err(d) => {
                        return Err(d);
                    },
                },
            };
            let r = Configuration { schema, files, formatter, organize_imports, linter, javascript };
            proof {
                assert(r@ =~~= cfg_from_json_spec(v@)->Ok_0);
            }
            Ok(r)
        },
        _ => Err(ConfigurationDiagnostic::Malformed),
    }
}

fn strings_to_json_array(set: &IndexSet<String>) -> (r: JsonValue)
    ensures
        r@ == JsonSpecValue::Array(strs_to_json(iset_elems(*set))),
{
    let elems = iset_to_vec(set);
    let mut items: Vec<JsonValue> = Vec::new();
    let mut i: usize = 0;
    while i < elems.len()
        invariant
            i <= elems@.len(),
            elems.deep_view() == iset_elems(*set),
            items@.len() == i,
            forall|t: int|
                0 <= t < i ==> #[trigger] json_view(items@[t]) == JsonSpecValue::Str(elems@[t]@),
        decreases elems@.len() - i,
    {
        items.push(JsonValue::Str(elems[i].clone()));
        i += 1;
    }
    let r = JsonValue::Array(items);
    proof {
        lemma_json_view_items_len(items@);
        assert(json_view_items(items@) =~~= strs_to_json(iset_elems(*set)));
    }
    r
}

} // verus!
