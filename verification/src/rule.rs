//! Rule traits: the shapes that per-file and project-wide rules
//! implement. Rules are total: they return a list of findings, never
//! an error.

use vstd::prelude::*;

verus! {

use crate::context::{FileContext, ProjectContext};
use crate::declarative::UseTree;
use crate::severity::Severity;
use crate::types::Violation;

/// A per-file lint rule over a file's extracted use declarations.
///
/// Implement this trait to create rules that analyze individual
/// source files from their extracted representation.
pub trait Rule {
    /// Returns the kebab-case name of this rule.
    fn name(&self) -> &'static str;

    /// Returns the rule code.
    fn code(&self) -> &'static str;

    /// Returns a brief description of what this rule checks.
    fn description(&self) -> &'static str {
        ""
    }

    /// Returns the default severity for findings from this rule.
    fn default_severity(&self) -> Severity {
        Severity::Error
    }

    /// Whether this rule requires a reason on allow directives; by
    /// default exactly the error-severity rules do.
    fn requires_allow_reason(&self) -> bool {
        match self.default_severity() {
            Severity::Error => true,
            _ => false,
        }
    }

    /// Checks a single file and returns any findings.
    fn check(&self, ctx: &FileContext, uses: &Vec<UseTree>) -> Vec<Violation>;
}

/// A project-wide lint rule over the project structure.
pub trait ProjectRule {
    /// Returns the kebab-case name of this rule.
    fn name(&self) -> &'static str;

    /// Returns the rule code.
    fn code(&self) -> &'static str;

    /// Returns a brief description of what this rule checks.
    fn description(&self) -> &'static str {
        ""
    }

    /// Returns the default severity for findings from this rule.
    fn default_severity(&self) -> Severity {
        Severity::Error
    }

    /// Checks the project structure and returns any findings.
    fn check_project(&self, ctx: &ProjectContext) -> Vec<Violation>;
}

} // verus!
