//! Projecting resolved linter settings into the flat record the rule
//! engine consumes.
//!
//! The caller supplies a projection function that extracts the
//! global-identifier list from the language-specific settings, so this
//! merging logic stays language-agnostic; rule metadata comes in as an
//! explicit collaborator value.

use crate::configuration::Rules;
use indexmap::IndexSet;
use vstd::prelude::*;

verus! {

/// Resolved linter settings.
pub struct LinterSettings {
    pub enabled: bool,
    pub rules: Option<Rules>,
}

/// Resolved settings of the supported language.
pub struct JsLanguageSettings {
    pub globals: Option<IndexSet<String>>,
}

pub struct LanguagesSettings {
    pub javascript: JsLanguageSettings,
}

/// The rule set the analyzer runs with: the names of the enabled rules.
pub struct AnalyzerRules {
    pub enabled_rules: Vec<String>,
}

/// The flat record the rule engine consumes.
pub struct AnalyzerConfiguration {
    pub globals: Vec<String>,
    pub rules: AnalyzerRules,
}

/// What the rule merge yields: under a recommended-on rule set every
/// metadata rule is enabled; otherwise none is.
pub open spec fn merged_rules_spec(rules: Rules, metadata: Seq<Seq<char>>) -> Seq<Seq<char>> {
    if rules.recommended == Some(true) {
        metadata
    } else {
        Seq::<Seq<char>>::empty()
    }
}

/// Map the user's rule overrides against the rule metadata, appending each
/// enabled rule to the analyzer's rule set.
pub fn push_to_analyzer_rules(
    rules: &Rules,
    metadata: &Vec<String>,
    analyzer_rules: &mut AnalyzerRules,
)
    ensures
        final(analyzer_rules).enabled_rules.deep_view() == old(
            analyzer_rules,
        ).enabled_rules.deep_view() + merged_rules_spec(*rules, metadata.deep_view()),
{
    let recommended = match rules.recommended {
        Some(b) => b,
        None => false,
    };
    if recommended {
        let mut i: usize = 0;
        while i < metadata.len()
            invariant
                i <= metadata@.len(),
                analyzer_rules.enabled_rules.deep_view() =~= old(
                    analyzer_rules,
                ).enabled_rules.deep_view() + metadata.deep_view().take(i as int),
            decreases metadata@.len() - i,
        {
            let ghost prev = analyzer_rules.enabled_rules.deep_view();
            analyzer_rules.enabled_rules.push(metadata[i].clone());
            proof {
                let md = metadata.deep_view();
                assert(analyzer_rules.enabled_rules.deep_view() =~~= prev.push(md[i as int]));
                assert(md.take(i + 1) =~= md.take(i as int).push(md[i as int]));
                assert((old(analyzer_rules).enabled_rules.deep_view() + md.take(i as int)).push(
                    md[i as int],
                ) =~= old(analyzer_rules).enabled_rules.deep_view() + md.take(i + 1));
            }
            i += 1;
        }
        proof {
            assert(metadata.deep_view().take(metadata@.len() as int) =~= metadata.deep_view());
        }
    } else {
        proof {
            assert(analyzer_rules.enabled_rules.deep_view() =~= old(
                analyzer_rules,
            ).enabled_rules.deep_view() + Seq::<Seq<char>>::empty());
        }
    }
}

/// Convert resolved settings into the analyzer's configuration. The
/// globals come from the caller's projection of the language settings; the
/// rules come from merging the user's overrides against the metadata, and
/// are empty when the linter has no rule set at all.
pub fn to_analyzer_configuration<ToGlobals: FnOnce(&LanguagesSettings) -> Vec<String>>(
    linter_settings: &LinterSettings,
    language_settings: &LanguagesSettings,
    metadata: &Vec<String>,
    to_globals: ToGlobals,
) -> (r: AnalyzerConfiguration)
    requires
        to_globals.requires((language_settings,)),
    ensures
        to_globals.ensures((language_settings,), r.globals),
        r.rules.enabled_rules.deep_view() == match linter_settings.rules {
            Some(rules) => merged_rules_spec(rules, metadata.deep_view()),
            None => Seq::<Seq<char>>::empty(),
        },
{
    let globals: Vec<String> = to_globals(language_settings);
    let mut analyzer_rules = AnalyzerRules { enabled_rules: Vec::new() };
    match &linter_settings.rules {
        Some(rules) => {
            push_to_analyzer_rules(rules, metadata, &mut analyzer_rules);
            proof {
                assert(analyzer_rules.enabled_rules.deep_view() =~= merged_rules_spec(
                    *rules,
                    metadata.deep_view(),
                ));
            }
        },
        None => {},
    }
    AnalyzerConfiguration { globals, rules: analyzer_rules }
}

} // verus!
