//! The settings value model: the typed tree of optional sub-configurations.

use crate::string_set::iset_elems;
use indexmap::IndexSet;
use vstd::prelude::*;

verus! {

#[derive(Clone, Copy, PartialEq, Eq, Structural)]
pub enum PlainIndentStyle {
    Tab,
    Space,
}

#[derive(Clone, Copy, PartialEq, Eq, Structural)]
pub enum QuoteStyle {
    Double,
    Single,
}

#[derive(Clone, Copy, PartialEq, Eq, Structural)]
pub enum QuoteProperties {
    AsNeeded,
    Preserve,
}

#[derive(Clone, Copy, PartialEq, Eq, Structural)]
pub enum TrailingComma {
    All,
    Es5,
    /// No trailing commas; written `"none"` in the file.
    Omit,
}

#[derive(Clone, Copy, PartialEq, Eq, Structural)]
pub enum Semicolons {
    Always,
    AsNeeded,
}

/// The formatter's general options.
#[derive(Clone, Copy, PartialEq, Eq, Structural)]
pub struct FormatterConfiguration {
    pub enabled: bool,
    pub indent_style: PlainIndentStyle,
    /// The width of a `Space` indentation level.
    pub indent_size: u8,
    /// Lines longer than this are broken; kept between 1 and 320.
    pub line_width: u16,
}

pub open spec fn formatter_default_spec() -> FormatterConfiguration {
    FormatterConfiguration {
        enabled: true,
        indent_style: PlainIndentStyle::Tab,
        indent_size: 2,
        line_width: 80,
    }
}

pub open spec fn formatter_wf(f: FormatterConfiguration) -> bool {
    1 <= f.line_width <= 320
}

impl FormatterConfiguration {
    pub fn default() -> (r: FormatterConfiguration)
        ensures
            r == formatter_default_spec(),
    {
        FormatterConfiguration {
            enabled: true,
            indent_style: PlainIndentStyle::Tab,
            indent_size: 2,
            line_width: 80,
        }
    }
}

/// The language-specific stylistic options of the formatter.
#[derive(Clone, Copy, PartialEq, Eq, Structural)]
pub struct JavascriptFormatter {
    pub quote_style: QuoteStyle,
    pub quote_properties: QuoteProperties,
    pub trailing_comma: TrailingComma,
    pub semicolons: Semicolons,
}

pub open spec fn javascript_formatter_default_spec() -> JavascriptFormatter {
    JavascriptFormatter {
        quote_style: QuoteStyle::Double,
        quote_properties: QuoteProperties::AsNeeded,
        trailing_comma: TrailingComma::All,
        semicolons: Semicolons::Always,
    }
}

impl JavascriptFormatter {
    pub fn default() -> (r: JavascriptFormatter)
        ensures
            r == javascript_formatter_default_spec(),
    {
        JavascriptFormatter {
            quote_style: QuoteStyle::Double,
            quote_properties: QuoteProperties::AsNeeded,
            trailing_comma: TrailingComma::All,
            semicolons: Semicolons::Always,
        }
    }
}

#[derive(Clone, Copy, PartialEq, Eq, Structural)]
pub struct OrganizeImports {
    pub enabled: bool,
}

#[derive(Clone, Copy, PartialEq, Eq, Structural)]
pub struct Rules {
    pub recommended: Option<bool>,
}

#[derive(Clone, Copy, PartialEq, Eq, Structural)]
pub struct LinterConfiguration {
    pub enabled: bool,
    pub rules: Option<Rules>,
}

pub open spec fn linter_default_spec() -> LinterConfiguration {
    LinterConfiguration { enabled: true, rules: Some(Rules { recommended: Some(true) }) }
}

impl LinterConfiguration {
    pub fn default() -> (r: LinterConfiguration)
        ensures
            r == linter_default_spec(),
    {
        LinterConfiguration { enabled: true, rules: Some(Rules { recommended: Some(true) }) }
    }
}

/// The configuration of the filesystem walker.
pub struct FilesConfiguration {
    /// The largest source file handled, in bytes; positive when present.
    pub max_size: Option<u64>,
    /// Glob-like path patterns to skip, unique and in insertion order.
    pub ignore: Option<IndexSet<String>>,
}

/// The mathematical shape of a `FilesConfiguration`.
#[verifier::ext_equal]
pub struct FilesView {
    pub max_size: Option<u64>,
    pub ignore: Option<Seq<Seq<char>>>,
}

impl View for FilesConfiguration {
    type V = FilesView;

    open spec fn view(&self) -> FilesView {
        FilesView {
            max_size: self.max_size,
            ignore: match self.ignore {
                Some(s) => Some(iset_elems(s)),
                None => None,
            },
        }
    }
}

pub open spec fn files_wf(f: FilesView) -> bool {
    &&& match f.max_size {
        Some(n) => n > 0,
        None => true,
    }
    &&& match f.ignore {
        Some(elems) => elems.no_duplicates(),
        None => true,
    }
}

/// Specific configuration for the supported language.
pub struct JavascriptConfiguration {
    pub formatter: Option<JavascriptFormatter>,
    /// Ambient identifier names the linter treats as defined.
    pub globals: Option<IndexSet<String>>,
}

#[verifier::ext_equal]
pub struct JavascriptView {
    pub formatter: Option<JavascriptFormatter>,
    pub globals: Option<Seq<Seq<char>>>,
}

impl View for JavascriptConfiguration {
    type V = JavascriptView;

    open spec fn view(&self) -> JavascriptView {
        JavascriptView {
            formatter: self.formatter,
            globals: match self.globals {
                Some(s) => Some(iset_elems(s)),
                None => None,
            },
        }
    }
}

pub open spec fn javascript_wf(j: JavascriptView) -> bool {
    match j.globals {
        Some(elems) => elems.no_duplicates(),
        None => true,
    }
}

/// The root of the settings value model: what the configuration file holds.
pub struct Configuration {
    /// A schema reference the written file carries for self-documentation.
    pub schema: Option<String>,
    pub files: Option<FilesConfiguration>,
    pub formatter: Option<FormatterConfiguration>,
    pub organize_imports: Option<OrganizeImports>,
    pub linter: Option<LinterConfiguration>,
    pub javascript: Option<JavascriptConfiguration>,
}

#[verifier::ext_equal]
pub struct ConfigView {
    pub schema: Option<Seq<char>>,
    pub files: Option<FilesView>,
    pub formatter: Option<FormatterConfiguration>,
    pub organize_imports: Option<OrganizeImports>,
    pub linter: Option<LinterConfiguration>,
    pub javascript: Option<JavascriptView>,
}

impl View for Configuration {
    type V = ConfigView;

    open spec fn view(&self) -> ConfigView {
        ConfigView {
            schema: match self.schema {
                Some(s) => Some(s@),
                None => None,
            },
            files: match self.files {
                Some(f) => Some(f@),
                None => None,
            },
            formatter: self.formatter,
            organize_imports: self.organize_imports,
            linter: self.linter,
            javascript: match self.javascript {
                Some(j) => Some(j@),
                None => None,
            },
        }
    }
}

pub open spec fn configuration_default_spec() -> ConfigView {
    ConfigView {
        schema: None,
        files: None,
        formatter: None,
        organize_imports: Some(OrganizeImports { enabled: false }),
        linter: Some(linter_default_spec()),
        javascript: None,
    }
}

/// Internal consistency of a configuration value: numeric fields in range,
/// pattern lists free of duplicates.
pub open spec fn configuration_wf(c: ConfigView) -> bool {
    &&& match c.files {
        Some(f) => files_wf(f),
        None => true,
    }
    &&& match c.formatter {
        Some(f) => formatter_wf(f),
        None => true,
    }
    &&& match c.javascript {
        Some(j) => javascript_wf(j),
        None => true,
    }
}

impl Configuration {
    pub fn default() -> (r: Configuration)
        ensures
            r@ == configuration_default_spec(),
            configuration_wf(r@),
    {
        Configuration {
            schema: None,
            files: None,
            formatter: None,
            organize_imports: Some(OrganizeImports { enabled: false }),
            linter: Some(LinterConfiguration::default()),
            javascript: None,
        }
    }

    /// The formatter is present and switched off.
    pub fn is_formatter_disabled(&self) -> (r: bool)
        ensures
            r == match self.formatter {
                Some(f) => !f.enabled,
                None => false,
            },
    {
        match &self.formatter {
            Some(f) => !f.enabled,
            None => false,
        }
    }

    /// The linter is present and switched off.
    pub fn is_linter_disabled(&self) -> (r: bool)
        ensures
            r == match self.linter {
                Some(f) => !f.enabled,
                None => false,
            },
    {
        match &self.linter {
            Some(f) => !f.enabled,
            None => false,
        }
    }

    /// Import organizing is present and switched off.
    pub fn is_organize_imports_disabled(&self) -> (r: bool)
        ensures
            r == match self.organize_imports {
                Some(f) => !f.enabled,
                None => false,
            },
    {
        match &self.organize_imports {
            Some(f) => !f.enabled,
            None => false,
        }
    }
}

} // verus!
