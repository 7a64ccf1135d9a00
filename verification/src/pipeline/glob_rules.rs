//! Matching asset paths against the rules' glob patterns.

use vstd::prelude::*;
use crate::config::RuleConfig;
use crate::text::to_owned_string;

verus! {

/// `glob::Pattern`, a compiled glob pattern.
#[verifier::external_type_specification]
#[verifier::external_body]
pub struct ExPattern(glob::Pattern);

/// `glob::PatternError`, why a pattern does not compile.
#[verifier::external_type_specification]
#[verifier::external_body]
pub struct ExPatternError(glob::PatternError);

/// Whether `glob::Pattern::new` accepts a pattern.
pub uninterp spec fn spec_glob_valid(pattern: Seq<char>) -> bool;

/// Whether the pattern, compiled by `glob::Pattern::new`, matches the text
/// under `glob::Pattern::matches` (default match options).
pub uninterp spec fn spec_glob_matches(pattern: Seq<char>, text: Seq<char>) -> bool;

/// A compiled pattern together with the text it was compiled from. It is
/// only made by `compile_glob`, so `compiled` is always the compilation of
/// `source`.
pub struct GlobPattern {
    source: String,
    compiled: glob::Pattern,
}

impl GlobPattern {
    /// The text the pattern was compiled from.
    pub closed spec fn source(&self) -> Seq<char> {
        self.source@
    }
}

/// `glob::Pattern::new`: compiles a pattern, or fails on an invalid one;
/// which patterns are valid is named by `spec_glob_valid`.
#[verifier::external_body]
fn compile_glob(pattern: &str) -> (res: Result<GlobPattern, glob::PatternError>)
    ensures
        res is Ok <==> spec_glob_valid(pattern@),
        res matches Ok(g) ==> g.source() == pattern@,
{
    match glob::Pattern::new(pattern) {
        Ok(p) => Ok(GlobPattern { source: pattern.to_string(), compiled: p }),
        Err(e) => Err(e),
    }
}

/// `glob::Pattern::matches`: whether the compiled pattern matches the text,
/// as named by `spec_glob_matches` of the pattern's source.
#[verifier::external_body]
fn glob_matches(g: &GlobPattern, text: &str) -> (res: bool)
    ensures
        res == spec_glob_matches(g.source(), text@),
{
    g.compiled.matches(text)
}

/// A rule applies to a relative path: its pattern compiles and matches it.
pub open spec fn spec_rule_matches(rule: RuleConfig, relative: Seq<char>) -> bool {
    spec_glob_valid(rule.pattern@) && spec_glob_matches(rule.pattern@, relative)
}

/// Whether a rule applies to a relative path.
pub fn rule_matches(rule: &RuleConfig, relative: &str) -> (res: bool)
    ensures
        res == spec_rule_matches(*rule, relative@),
{
    match compile_glob(rule.pattern.as_str()) {
        Ok(g) => glob_matches(&g, relative),
        Err(_) => false,
    }
}

/// The index of the first rule that applies to a relative path.
pub fn match_rule(rules: &Vec<RuleConfig>, relative: &str) -> (res: Option<usize>)
    ensures
        match res {
            Some(i) => i < rules@.len() && spec_rule_matches(rules@[i as int], relative@) && forall|j: int|
                0 <= j < i ==> !spec_rule_matches(#[trigger] rules@[j], relative@),
            None => forall|j: int| 0 <= j < rules@.len() ==> !spec_rule_matches(#[trigger] rules@[j], relative@),
        },
{
    let n = rules.len();
    for i in 0..n
        invariant
            n == rules@.len(),
            forall|j: int| 0 <= j < i ==> !spec_rule_matches(#[trigger] rules@[j], relative@),
    {
        if rule_matches(&rules[i], relative) {
            return Some(i);
        }
    }
    None
}

} // verus!
