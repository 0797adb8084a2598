//! Configuration file resolution with global fallback.
//!
//! The priority order is deterministic: an explicit path, then
//! `arch-lint.toml` or `.arch-lint.toml` in the project directory,
//! then `config.toml` in the global configuration directory.

use vstd::prelude::*;

verus! {

/// Where the configuration was found.
#[derive(Debug)]
pub enum ConfigSource {
    /// Explicitly specified by the caller.
    Explicit(String),
    /// Found in the project directory.
    Project(String),
    /// Loaded from the global config directory.
    Global(String),
    /// No config found; defaults will be used.
    Default,
}

impl ConfigSource {
    /// Returns the resolved path, if any.
    pub fn path(&self) -> (r: Option<&str>)
        ensures
            match self {
                ConfigSource::Explicit(p) => r is Some && r->0@ == p@,
                ConfigSource::Project(p) => r is Some && r->0@ == p@,
                ConfigSource::Global(p) => r is Some && r->0@ == p@,
                ConfigSource::Default => r is None,
            },
    {
        match self {
            ConfigSource::Explicit(p) => Some(p.as_str()),
            ConfigSource::Project(p) => Some(p.as_str()),
            ConfigSource::Global(p) => Some(p.as_str()),
            ConfigSource::Default => None,
        }
    }

    /// Returns true exactly when the config came from the global
    /// directory.
    pub fn is_global(&self) -> (r: bool)
        ensures
            r == (*self is Global),
    {
        match self {
            ConfigSource::Global(_) => true,
            _ => false,
        }
    }
}

/// A directory joined with a file name by a slash.
pub open spec fn joined(dir: Seq<char>, name: Seq<char>) -> Seq<char> {
    dir + seq!['/'] + name
}

/// Joins a directory and a file name with a slash.
fn join_path(dir: &str, name: &str) -> (r: String)
    ensures
        r@ == joined(dir@, name@),
{
    let mut out = dir.to_owned();
    out.append("/");
    out.append(name);
    proof {
        reveal_strlit("/");
        assert(out@ =~= dir@ + seq!['/'] + name@);
    }
    out
}

/// Resolves the configuration source from the existence of each
/// candidate file: an explicit path is trusted as-is; otherwise the
/// first existing project file wins, then the global file.
pub fn resolve_inner(
    project_dir: &str,
    explicit: Option<&str>,
    project_exists: bool,
    dot_project_exists: bool,
    global_dir: Option<&str>,
    global_exists: bool,
) -> (r: ConfigSource)
    ensures
        match explicit {
            Some(p) => r matches ConfigSource::Explicit(q) && q@ == p@,
            None => {
                if project_exists {
                    r matches ConfigSource::Project(q) && q@ == joined(
                        project_dir@,
                        "arch-lint.toml"@,
                    )
                } else if dot_project_exists {
                    r matches ConfigSource::Project(q) && q@ == joined(
                        project_dir@,
                        ".arch-lint.toml"@,
                    )
                } else {
                    match global_dir {
                        Some(g) => {
                            if global_exists {
                                r matches ConfigSource::Global(q) && q@ == joined(
                                    g@,
                                    "config.toml"@,
                                )
                            } else {
                                r is Default
                            }
                        },
                        None => r is Default,
                    }
                }
            },
        },
{
    match explicit {
        Some(p) => ConfigSource::Explicit(p.to_owned()),
        None => {
            if project_exists {
                ConfigSource::Project(join_path(project_dir, "arch-lint.toml"))
            } else if dot_project_exists {
                ConfigSource::Project(join_path(project_dir, ".arch-lint.toml"))
            } else {
                match global_dir {
                    Some(g) => {
                        if global_exists {
                            ConfigSource::Global(join_path(g, "config.toml"))
                        } else {
                            ConfigSource::Default
                        }
                    },
                    None => ConfigSource::Default,
                }
            }
        },
    }
}

} // verus!
