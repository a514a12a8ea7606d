//! Overlaying command-line options onto an in-memory configuration.
//!
//! Each flag is independently optional; a present flag whose value does not
//! parse is a fatal error naming the flag, and the merger does not continue
//! past it. Missing intermediate sub-records are created with their
//! defaults on first write.

use crate::configuration::{
    ConfigView, Configuration, FilesConfiguration, FilesView, FormatterConfiguration,
    JavascriptConfiguration, JavascriptFormatter, JavascriptView, PlainIndentStyle,
    QuoteProperties, QuoteStyle, Semicolons, TrailingComma, formatter_default_spec,
    javascript_formatter_default_spec,
};
use crate::json::{parse_digits_run, parse_digits_spec};
use crate::text::{string_eq_str, string_to_chars};
use vstd::prelude::*;

verus! {

/// A command line's recognized option flags, each with its raw textual
/// value.
pub struct CliArgs {
    pub pairs: Vec<(String, String)>,
}

/// A fatal condition while reading the command line: a flag's value did not
/// parse; carries the flag's name.
#[derive(Debug)]
pub enum CliDiagnostic {
    ParseError(String),
}

impl View for CliDiagnostic {
    type V = Seq<char>;

    open spec fn view(&self) -> Seq<char> {
        match self {
            CliDiagnostic::ParseError(f) => f@,
        }
    }
}

/// An indentation choice as the command line expresses it: a space choice
/// carries its default width.
#[derive(Clone, Copy, PartialEq, Eq, Structural)]
pub enum IndentStyle {
    Tab,
    Space(u8),
}

/// The value of the first occurrence of `name`, if any.
pub open spec fn opt_value_spec(pairs: Seq<(String, String)>, name: Seq<char>) -> Option<
    Seq<char>,
>
    decreases pairs,
{
    if pairs.len() == 0 {
        None
    } else if pairs[0].0@ == name {
        Some(pairs[0].1@)
    } else {
        opt_value_spec(pairs.drop_first(), name)
    }
}

pub open spec fn parse_u64_cli_spec(s: Seq<char>) -> Option<u64> {
    match parse_digits_spec(s, 0, 0) {
        Ok((n, j)) => if s.len() > 0 && j == s.len() {
            Some(n)
        } else {
            None
        },
        Err(_) => None,
    }
}

pub open spec fn parse_u8_cli_spec(s: Seq<char>) -> Option<u8> {
    match parse_u64_cli_spec(s) {
        Some(n) => if n <= 255 {
            Some(n as u8)
        } else {
            None
        },
        None => None,
    }
}

pub open spec fn parse_width_cli_spec(s: Seq<char>) -> Option<u16> {
    match parse_u64_cli_spec(s) {
        Some(n) => if 1 <= n <= 320 {
            Some(n as u16)
        } else {
            None
        },
        None => None,
    }
}

pub open spec fn parse_nonzero_cli_spec(s: Seq<char>) -> Option<u64> {
    match parse_u64_cli_spec(s) {
        Some(n) => if n > 0 {
            Some(n)
        } else {
            None
        },
        None => None,
    }
}

/// A space choice carries the conventional default width of two.
pub open spec fn indent_style_cli_spec(s: Seq<char>) -> Option<IndentStyle> {
    if s == "tab"@ {
        Some(IndentStyle::Tab)
    } else if s == "space"@ {
        Some(IndentStyle::Space(2))
    } else {
        None
    }
}

pub open spec fn quote_style_cli_spec(s: Seq<char>) -> Option<QuoteStyle> {
    if s == "double"@ {
        Some(QuoteStyle::Double)
    } else if s == "single"@ {
        Some(QuoteStyle::Single)
    } else {
        None
    }
}

pub open spec fn quote_properties_cli_spec(s: Seq<char>) -> Option<QuoteProperties> {
    if s == "as-needed"@ {
        Some(QuoteProperties::AsNeeded)
    } else if s == "preserve"@ {
        Some(QuoteProperties::Preserve)
    } else {
        None
    }
}

pub open spec fn trailing_comma_cli_spec(s: Seq<char>) -> Option<TrailingComma> {
    if s == "all"@ {
        Some(TrailingComma::All)
    } else if s == "es5"@ {
        Some(TrailingComma::Es5)
    } else if s == "none"@ {
        Some(TrailingComma::Omit)
    } else {
        None
    }
}

pub open spec fn semicolons_cli_spec(s: Seq<char>) -> Option<Semicolons> {
    if s == "always"@ {
        Some(Semicolons::Always)
    } else if s == "as-needed"@ {
        Some(Semicolons::AsNeeded)
    } else {
        None
    }
}

/// The formatter block after the three general flags: the style flag's
/// embedded default width is overridden by an explicit size flag, and
/// without a style flag the size flag has no effect at all.
pub open spec fn merge_indent_spec(
    fmt: FormatterConfiguration,
    size: Option<u8>,
    style: Option<IndentStyle>,
    width: Option<u16>,
) -> FormatterConfiguration {
    let f1 = match style {
        None => fmt,
        Some(IndentStyle::Tab) => FormatterConfiguration {
            indent_style: PlainIndentStyle::Tab,
            ..fmt
        },
        Some(IndentStyle::Space(d)) => FormatterConfiguration {
            indent_style: PlainIndentStyle::Space,
            indent_size: match size {
                Some(s) => s,
                None => d,
            },
            ..fmt
        },
    };
    match width {
        Some(w) => FormatterConfiguration { line_width: w, ..f1 },
        None => f1,
    }
}

/// The language formatter block after the four stylistic flags.
pub open spec fn merge_js_formatter_spec(
    jf: JavascriptFormatter,
    qp: Option<QuoteProperties>,
    qs: Option<QuoteStyle>,
    tc: Option<TrailingComma>,
    semi: Option<Semicolons>,
) -> JavascriptFormatter {
    JavascriptFormatter {
        quote_properties: match qp {
            Some(v) => v,
            None => jf.quote_properties,
        },
        quote_style: match qs {
            Some(v) => v,
            None => jf.quote_style,
        },
        trailing_comma: match tc {
            Some(v) => v,
            None => jf.trailing_comma,
        },
        semicolons: match semi {
            Some(v) => v,
            None => jf.semicolons,
        },
    }
}

/// One optional flag of type `T`: absent is fine, present-and-unparsable
/// fails with the flag's name.
pub open spec fn flag_spec<T>(
    pairs: Seq<(String, String)>,
    name: Seq<char>,
    parse: spec_fn(Seq<char>) -> Option<T>,
) -> Result<Option<T>, Seq<char>> {
    match opt_value_spec(pairs, name) {
        None => Ok(None),
        Some(v) => match parse(v) {
            Some(t) => Ok(Some(t)),
            None => Err(name),
        },
    }
}

/// The three general formatter flags, read in their fixed order; the
/// first failure wins.
pub open spec fn indent_flags_spec(pairs: Seq<(String, String)>) -> Result<
    (Option<u8>, Option<IndentStyle>, Option<u16>),
    Seq<char>,
> {
    match flag_spec(pairs, "--indent-size"@, |s: Seq<char>| parse_u8_cli_spec(s)) {
        Err(f) => Err(f),
        Ok(size) => match flag_spec(
            pairs,
            "--indent-style"@,
            |s: Seq<char>| indent_style_cli_spec(s),
        ) {
            Err(f) => Err(f),
            Ok(style) => match flag_spec(
                pairs,
                "--line-width"@,
                |s: Seq<char>| parse_width_cli_spec(s),
            ) {
                Err(f) => Err(f),
                Ok(width) => Ok((size, style, width)),
            },
        },
    }
}

/// The four stylistic flags, read in their fixed order; the first failure
/// wins.
pub open spec fn js_flags_spec(pairs: Seq<(String, String)>) -> Result<
    (Option<QuoteProperties>, Option<QuoteStyle>, Option<TrailingComma>, Option<Semicolons>),
    Seq<char>,
> {
    match flag_spec(pairs, "--quote-properties"@, |s: Seq<char>| quote_properties_cli_spec(s)) {
        Err(f) => Err(f),
        Ok(qp) => match flag_spec(pairs, "--quote-style"@, |s: Seq<char>| quote_style_cli_spec(s)) {
            Err(f) => Err(f),
            Ok(qs) => match flag_spec(
                pairs,
                "--trailing-comma"@,
                |s: Seq<char>| trailing_comma_cli_spec(s),
            ) {
                Err(f) => Err(f),
                Ok(tc) => match flag_spec(
                    pairs,
                    "--semicolons"@,
                    |s: Seq<char>| semicolons_cli_spec(s),
                ) {
                    Err(f) => Err(f),
                    Ok(semi) => Ok((qp, qs, tc, semi)),
                },
            },
        },
    }
}

/// The language block after the stylistic flags: created on demand, its
/// globals kept as they were.
pub open spec fn merged_javascript_spec(
    c: ConfigView,
    qp: Option<QuoteProperties>,
    qs: Option<QuoteStyle>,
    tc: Option<TrailingComma>,
    semi: Option<Semicolons>,
) -> JavascriptView {
    let js0 = match c.javascript {
        Some(j) => j,
        None => JavascriptView { formatter: None, globals: None },
    };
    let jf0 = match js0.formatter {
        Some(f) => f,
        None => javascript_formatter_default_spec(),
    };
    JavascriptView {
        formatter: Some(merge_js_formatter_spec(jf0, qp, qs, tc, semi)),
        globals: js0.globals,
    }
}

/// The configuration and error after the formatter flags are read and
/// applied in their fixed order. A missing sub-record is created, with its
/// defaults, only at the first actual write: the formatter block only when
/// a style or width flag is present, the language block (with its formatter
/// sub-block) only when a stylistic flag is present. A failed flag leaves
/// the settings read after it untouched; flags before it have already been
/// applied.
pub open spec fn apply_format_spec(pairs: Seq<(String, String)>, c: ConfigView) -> (
    ConfigView,
    Option<Seq<char>>,
) {
    match indent_flags_spec(pairs) {
        Err(f) => (c, Some(f)),
        Ok((size, style, width)) => {
            let c1 = if style is Some || width is Some {
                let fmt0 = match c.formatter {
                    Some(f) => f,
                    None => formatter_default_spec(),
                };
                ConfigView { formatter: Some(merge_indent_spec(fmt0, size, style, width)), ..c }
            } else {
                c
            };
            match js_flags_spec(pairs) {
                Err(f) => (c1, Some(f)),
                Ok((qp, qs, tc, semi)) => {
                    let c2 = if qp is Some || qs is Some || tc is Some || semi is Some {
                        ConfigView {
                            javascript: Some(merged_javascript_spec(c, qp, qs, tc, semi)),
                            ..c1
                        }
                    } else {
                        c1
                    };
                    (c2, None)
                },
            }
        },
    }
}

/// The configuration and error after the files flags are read: the files
/// block is created only when the flag is present and parses.
pub open spec fn apply_files_spec(pairs: Seq<(String, String)>, c: ConfigView) -> (
    ConfigView,
    Option<Seq<char>>,
) {
    match opt_value_spec(pairs, "--files-max-size"@) {
        None => (c, None),
        Some(v) => match parse_nonzero_cli_spec(v) {
            None => (c, Some("--files-max-size"@)),
            Some(n) => {
                let files0 = match c.files {
                    Some(f) => f,
                    None => FilesView { max_size: None, ignore: None },
                };
                (
                    ConfigView { files: Some(FilesView { max_size: Some(n), ..files0 }), ..c },
                    None,
                )
            },
        },
    }
}

impl CliArgs {
    /// The raw value of the first occurrence of `name`, if any.
    pub fn opt_value(&self, name: &str) -> (r: Option<&String>)
        ensures
            match opt_value_spec(self.pairs@, name@) {
                None => r is None,
                Some(v) => r is Some && r->Some_0@ == v,
            },
    {
        let ghost ps = self.pairs@;
        proof {
            assert(ps.skip(0) =~= ps);
        }
        let mut i: usize = 0;
        while i < self.pairs.len()
            invariant
                i <= ps.len(),
                ps == self.pairs@,
                opt_value_spec(ps, name@) == opt_value_spec(ps.skip(i as int), name@),
            decreases ps.len() - i,
        {
            proof {
                assert(ps.skip(i as int)[0] == ps[i as int]);
            }
            if string_eq_str(&self.pairs[i].0, name) {
                return Some(&self.pairs[i].1);
            }
            proof {
                assert(ps.skip(i as int).drop_first() =~= ps.skip(i + 1));
            }
            i += 1;
        }
        proof {
            assert(ps.skip(i as int).len() == 0);
        }
        None
    }
}

fn parse_u64_cli(v: &String) -> (r: Option<u64>)
    ensures
        r == parse_u64_cli_spec(v@),
{
    let chars = string_to_chars(v.as_str());
    match parse_digits_run(&chars, 0) {
        Ok((n, j)) => {
            if chars.len() > 0 && j == chars.len() {
                Some(n)
            } else {
                None
            }
        },
        Err(_) => None,
    }
}

fn parse_u8_cli(v: &String) -> (r: Option<u8>)
    ensures
        r == parse_u8_cli_spec(v@),
{
    match parse_u64_cli(v) {
        Some(n) => if n <= 255 {
            Some(n as u8)
        } else {
            None
        },
        None => None,
    }
}

fn parse_width_cli(v: &String) -> (r: Option<u16>)
    ensures
        r == parse_width_cli_spec(v@),
{
    match parse_u64_cli(v) {
        Some(n) => if 1 <= n && n <= 320 {
            Some(n as u16)
        } else {
            None
        },
        None => None,
    }
}

fn read_indent_flags(args: &CliArgs) -> (r: Result<
    (Option<u8>, Option<IndentStyle>, Option<u16>),
    CliDiagnostic,
>)
    ensures
        match indent_flags_spec(args.pairs@) {
            Ok(t) => r is Ok && r->Ok_0 == t,
            Err(f) => r is Err && r->Err_0@ == f,
        },
{
    let size: Option<u8> = match args.opt_value("--indent-size") {
        None => None,
        Some(v) => match parse_u8_cli(v) {
            Some(n) => Some(n),
            None => {
                return Err(CliDiagnostic::ParseError("--indent-size".to_owned()));
            },
        },
    };
    let style: Option<IndentStyle> = match args.opt_value("--indent-style") {
        None => None,
        Some(v) => {
            if string_eq_str(v, "tab") {
                Some(IndentStyle::Tab)
            } else if string_eq_str(v, "space") {
                Some(IndentStyle::Space(2))
            } else {
                return Err(CliDiagnostic::ParseError("--indent-style".to_owned()));
            }
        },
    };
    let width: Option<u16> = match args.opt_value("--line-width") {
        None => None,
        Some(v) => match parse_width_cli(v) {
            Some(n) => Some(n),
            None => {
                return Err(CliDiagnostic::ParseError("--line-width".to_owned()));
            },
        },
    };
    Ok((size, style, width))
}

fn read_js_flags(args: &CliArgs) -> (r: Result<
    (Option<QuoteProperties>, Option<QuoteStyle>, Option<TrailingComma>, Option<Semicolons>),
    CliDiagnostic,
>)
    ensures
        match js_flags_spec(args.pairs@) {
            Ok(t) => r is Ok && r->Ok_0 == t,
            Err(f) => r is Err && r->Err_0@ == f,
        },
{
    let quote_properties: Option<QuoteProperties> = match args.opt_value("--quote-properties") {
        None => None,
        Some(v) => {
            if string_eq_str(v, "as-needed") {
                Some(QuoteProperties::AsNeeded)
            } else if string_eq_str(v, "preserve") {
                Some(QuoteProperties::Preserve)
            } else {
                return Err(CliDiagnostic::ParseError("--quote-properties".to_owned()));
            }
        },
    };
    let quote_style: Option<QuoteStyle> = match args.opt_value("--quote-style") {
        None => None,
        Some(v) => {
            if string_eq_str(v, "double") {
                Some(QuoteStyle::Double)
            } else if string_eq_str(v, "single") {
                Some(QuoteStyle::Single)
            } else {
                return Err(CliDiagnostic::ParseError("--quote-style".to_owned()));
            }
        },
    };
    let trailing_comma: Option<TrailingComma> = match args.opt_value("--trailing-comma") {
        None => None,
        Some(v) => {
            if string_eq_str(v, "all") {
                Some(TrailingComma::All)
            } else if string_eq_str(v, "es5") {
                Some(TrailingComma::Es5)
            } else if string_eq_str(v, "none") {
                Some(TrailingComma::Omit)
            } else {
                return Err(CliDiagnostic::ParseError("--trailing-comma".to_owned()));
            }
        },
    };
    let semicolons: Option<Semicolons> = match args.opt_value("--semicolons") {
        None => None,
        Some(v) => {
            if string_eq_str(v, "always") {
                Some(Semicolons::Always)
            } else if string_eq_str(v, "as-needed") {
                Some(Semicolons::AsNeeded)
            } else {
                return Err(CliDiagnostic::ParseError("--semicolons".to_owned()));
            }
        },
    };
    Ok((quote_properties, quote_style, trailing_comma, semicolons))
}

/// Read the formatting flags from the command line and overlay them onto
/// the configuration, creating a missing sub-record with its defaults at
/// the first actual write and only then. The `--indent-style` value `space`
/// carries a default width of two, which an explicit `--indent-size`
/// overrides; without `--indent-style`, the size flag changes nothing.
#[verifier::rlimit(100)]
#[verifier::spinoff_prover]
pub fn apply_format_settings_from_cli(args: &CliArgs, configuration: &mut Configuration) -> (r:
    Result<(), CliDiagnostic>)
    ensures
        ({
            let (cv, err) = apply_format_spec(args.pairs@, old(configuration)@);
            &&& final(configuration)@ == cv
            &&& match err {
                None => r is Ok,
                Some(f) => r is Err && r->Err_0@ == f,
            }
        }),
{
    let (size, style, width) = match read_indent_flags(args) {
        Ok(t) => t,
        Err(d) => {
            return Err(d);
        },
    };
    if style.is_some() || width.is_some() {
        let fmt0 = match &configuration.formatter {
            Some(f) => *f,
            None => FormatterConfiguration::default(),
        };
        let mut fmt = fmt0;
        match style {
            Some(IndentStyle::Tab) => {
                fmt.indent_style = PlainIndentStyle::Tab;
            },
            Some(IndentStyle::Space(default_size)) => {
                fmt.indent_style = PlainIndentStyle::Space;
                fmt.indent_size = match size {
                    Some(s) => s,
                    None => default_size,
                };
            },
            None => {},
        }
        if let Some(w) = width {
            fmt.line_width = w;
        }
        configuration.formatter = Some(fmt);
        proof {
            assert(fmt == merge_indent_spec(fmt0, size, style, width));
        }
    }
    let (quote_properties, quote_style, trailing_comma, semicolons) = match read_js_flags(args) {
        Ok(t) => t,
        Err(d) => {
            proof {
                assert(configuration@ =~~= apply_format_spec(
                    args.pairs@,
                    old(configuration)@,
                ).0);
            }
            return Err(d);
        },
    };
    if quote_properties.is_some() || quote_style.is_some() || trailing_comma.is_some()
        || semicolons.is_some() {
        let js_taken = configuration.javascript.take();
        let (jf0, globals) = match js_taken {
            Some(j) => (
                match j.formatter {
                    Some(f) => f,
                    None => JavascriptFormatter::default(),
                },
                j.globals,
            ),
            None => (JavascriptFormatter::default(), None),
        };
        let mut jf = jf0;
        if let Some(v) = quote_properties {
            jf.quote_properties = v;
        }
        if let Some(v) = quote_style {
            jf.quote_style = v;
        }
        if let Some(v) = trailing_comma {
            jf.trailing_comma = v;
        }
        if let Some(v) = semicolons {
            jf.semicolons = v;
        }
        configuration.javascript = Some(JavascriptConfiguration { formatter: Some(jf), globals });
        proof {
            assert(jf == merge_js_formatter_spec(
                jf0,
                quote_properties,
                quote_style,
                trailing_comma,
                semicolons,
            ));
        }
    }
    proof {
        assert(configuration@ =~~= apply_format_spec(args.pairs@, old(configuration)@).0);
    }
    Ok(())
}

/// Read the files flags from the command line and overlay them onto the
/// configuration; the files block is created only when a flag is present.
pub fn apply_files_settings_from_cli(args: &CliArgs, configuration: &mut Configuration) -> (r:
    Result<(), CliDiagnostic>)
    ensures
        ({
            let (cv, err) = apply_files_spec(args.pairs@, old(configuration)@);
            &&& final(configuration)@ == cv
            &&& match err {
                None => r is Ok,
                Some(f) => r is Err && r->Err_0@ == f,
            }
        }),
{
    let files_max_size: Option<u64> = match args.opt_value("--files-max-size") {
        None => None,
        Some(v) => match parse_u64_cli(v) {
            Some(n) => {
                if n > 0 {
                    Some(n)
                } else {
                    return Err(CliDiagnostic::ParseError("--files-max-size".to_owned()));
                }
            },
            None => {
                return Err(CliDiagnostic::ParseError("--files-max-size".to_owned()));
            },
        },
    };
    if let Some(n) = files_max_size {
        let files_taken = configuration.files.take();
        let ignore = match files_taken {
            Some(f) => f.ignore,
            None => None,
        };
        configuration.files = Some(FilesConfiguration { max_size: Some(n), ignore });
        proof {
            assert(configuration@ =~~= apply_files_spec(args.pairs@, old(configuration)@).0);
        }
    }
    Ok(())
}

} // verus!
