//! Test-runner plumbing: resolving the effective preset and failure
//! threshold from an explicit argument and the configuration.

use vstd::prelude::*;

verus! {

use crate::config::Config;
use crate::presets::Preset;
use crate::severity::{spec_parse_severity, Severity};
use crate::strutil::str_eq;

/// The preset a name denotes, if any.
pub open spec fn spec_parse_preset(name: Seq<char>) -> Option<Preset> {
    if name == "recommended"@ {
        Some(Preset::Recommended)
    } else if name == "strict"@ {
        Some(Preset::Strict)
    } else if name == "minimal"@ {
        Some(Preset::Minimal)
    } else {
        None
    }
}

/// The effective preset name: the explicit argument, else the
/// configured one, else `recommended`.
pub open spec fn spec_effective_preset_name(arg: Option<Seq<char>>, config: Config) -> Seq<
    char,
> {
    match arg {
        Some(a) => a,
        None => match config.preset {
            Some(p) => p@,
            None => "recommended"@,
        },
    }
}

/// Resolves the effective preset: the explicit argument wins over the
/// configuration, which wins over the default; an unknown name
/// resolves to nothing.
pub fn resolve_preset(macro_arg: Option<&str>, config: &Config) -> (r: Option<Preset>)
    ensures
        r == spec_parse_preset(
            spec_effective_preset_name(
                match macro_arg {
                    Some(a) => Some(a@),
                    None => None,
                },
                *config,
            ),
        ),
{
    let name: &str = match macro_arg {
        Some(a) => a,
        None => match &config.preset {
            Some(p) => p.as_str(),
            None => "recommended",
        },
    };
    if str_eq(name, "recommended") {
        Some(Preset::Recommended)
    } else if str_eq(name, "strict") {
        Some(Preset::Strict)
    } else if str_eq(name, "minimal") {
        Some(Preset::Minimal)
    } else {
        None
    }
}

/// The effective failure-threshold name: the explicit argument, else
/// the configured one, else `error`.
pub open spec fn spec_effective_fail_on_name(arg: Option<Seq<char>>, config: Config) -> Seq<
    char,
> {
    match arg {
        Some(a) => a,
        None => match config.fail_on {
            Some(f) => f@,
            None => "error"@,
        },
    }
}

/// Resolves the effective failure threshold: the explicit argument
/// wins over the configuration, which wins over the default; an
/// unknown name resolves to nothing.
pub fn resolve_fail_on(macro_arg: Option<&str>, config: &Config) -> (r: Option<Severity>)
    ensures
        r == spec_parse_severity(
            spec_effective_fail_on_name(
                match macro_arg {
                    Some(a) => Some(a@),
                    None => None,
                },
                *config,
            ),
        ),
{
    let name: &str = match macro_arg {
        Some(a) => a,
        None => match &config.fail_on {
            Some(f) => f.as_str(),
            None => "error",
        },
    };
    crate::severity::parse_severity(name)
}

/// Whether a manifest document has a workspace section.
pub fn has_workspace_section(content: &str) -> (r: bool)
    ensures
        r == match crate::toml_data::doc_of(content@) {
            Some(doc) => crate::toml_data::table_entry(doc, "workspace"@) is Some,
            None => false,
        },
{
    match crate::toml_data::parse_toml_table(content) {
        Ok(table) => match crate::toml_data::table_get(&table, "workspace") {
            Some(_) => true,
            None => false,
        },
        Err(_) => false,
    }
}

} // verus!
