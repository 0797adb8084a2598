//! Rule presets: the bundles of built-in rules a configuration can
//! select by name.

use vstd::prelude::*;

verus! {

use crate::strutil::str_views;

/// A built-in rule bundle.
#[derive(Debug, Clone, Copy, PartialEq, Eq, Structural)]
pub enum Preset {
    /// Recommended rules with sensible defaults.
    Recommended,
    /// Strict rules for maximum safety.
    Strict,
    /// Minimal rules for gradual adoption.
    Minimal,
}

/// The rule names of the recommended bundle.
pub open spec fn recommended_names() -> Seq<Seq<char>> {
    seq!["no-unwrap-expect"@, "no-sync-io"@, "no-error-swallowing"@, "require-thiserror"@]
}

/// The rule names of the strict bundle: the recommended rules plus the
/// complexity rule, with the unwrap rule hardened by the runner.
pub open spec fn strict_names() -> Seq<Seq<char>> {
    recommended_names() + seq!["handler-complexity"@]
}

/// The rule names of the minimal bundle.
pub open spec fn minimal_names() -> Seq<Seq<char>> {
    seq!["no-unwrap-expect"@]
}

/// The rule names of a preset.
pub open spec fn preset_names(p: Preset) -> Seq<Seq<char>> {
    match p {
        Preset::Recommended => recommended_names(),
        Preset::Strict => strict_names(),
        Preset::Minimal => minimal_names(),
    }
}

impl Preset {
    /// Returns the names of the rules in this preset, in order.
    pub fn rules(self) -> (r: Vec<String>)
        ensures
            str_views(r@) == preset_names(self),
    {
        match self {
            Preset::Recommended => recommended_rules(),
            Preset::Strict => strict_rules(),
            Preset::Minimal => minimal_rules(),
        }
    }
}

/// Returns the recommended rule names.
pub fn recommended_rules() -> (r: Vec<String>)
    ensures
        str_views(r@) == recommended_names(),
{
    let mut out: Vec<String> = Vec::new();
    out.push("no-unwrap-expect".to_owned());
    out.push("no-sync-io".to_owned());
    out.push("no-error-swallowing".to_owned());
    out.push("require-thiserror".to_owned());
    proof {
        assert(str_views(out@) =~= recommended_names());
    }
    out
}

/// Returns the strict rule names.
pub fn strict_rules() -> (r: Vec<String>)
    ensures
        str_views(r@) == strict_names(),
{
    let mut out = recommended_rules();
    out.push("handler-complexity".to_owned());
    proof {
        assert(str_views(out@) =~= strict_names());
    }
    out
}

/// Returns the minimal rule names.
pub fn minimal_rules() -> (r: Vec<String>)
    ensures
        str_views(r@) == minimal_names(),
{
    let mut out: Vec<String> = Vec::new();
    out.push("no-unwrap-expect".to_owned());
    proof {
        assert(str_views(out@) =~= minimal_names());
    }
    out
}

/// Returns every built-in rule's name.
pub fn all_rules() -> (r: Vec<String>)
    ensures
        str_views(r@) == recommended_names() + seq!["handler-complexity"@],
{
    let mut out = recommended_rules();
    out.push("handler-complexity".to_owned());
    proof {
        assert(str_views(out@) =~= recommended_names() + seq!["handler-complexity"@]);
    }
    out
}

} // verus!
