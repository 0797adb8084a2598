//! Severity levels for lint findings.

use vstd::prelude::*;

verus! {

use crate::strutil::str_eq;

/// Severity level for lint violations, ordered `Info < Warning < Error`.
#[derive(Debug, Clone, Copy, PartialEq, Eq, Hash, Structural)]
pub enum Severity {
    /// Informational message, does not fail lint.
    Info,
    /// Warning that should be addressed.
    Warning,
    /// Error that must be fixed.
    Error,
}

/// Numeric rank of a severity, used to state the ordering.
pub open spec fn severity_rank(s: Severity) -> int {
    match s {
        Severity::Info => 0,
        Severity::Warning => 1,
        Severity::Error => 2,
    }
}

/// `a` is at least as severe as `b`.
pub open spec fn severity_at_least(a: Severity, b: Severity) -> bool {
    severity_rank(a) >= severity_rank(b)
}

impl Severity {
    /// Returns the numeric rank: 0 for `Info`, 1 for `Warning`, 2 for `Error`.
    pub fn rank(self) -> (r: u8)
        ensures
            r as int == severity_rank(self),
    {
        match self {
            Severity::Info => 0,
            Severity::Warning => 1,
            Severity::Error => 2,
        }
    }

    /// Compares severities: true when `self` is at least as severe as `other`.
    pub fn at_least(self, other: Severity) -> (r: bool)
        ensures
            r == severity_at_least(self, other),
    {
        self.rank() >= other.rank()
    }

    /// The lowercase display name of this severity.
    pub fn as_str(self) -> (r: &'static str)
        ensures
            r@ == severity_name(self),
    {
        match self {
            Severity::Info => "info",
            Severity::Warning => "warning",
            Severity::Error => "error",
        }
    }
}

/// The lowercase name of a severity, as a character sequence.
pub open spec fn severity_name(s: Severity) -> Seq<char> {
    match s {
        Severity::Info => "info"@,
        Severity::Warning => "warning"@,
        Severity::Error => "error"@,
    }
}

/// Parses a lowercase severity name; only `error`, `warning` and `info`
/// are recognized.
pub fn parse_severity(value: &str) -> (r: Option<Severity>)
    ensures
        r == spec_parse_severity(value@),
{
    if str_eq(value, "error") {
        Some(Severity::Error)
    } else if str_eq(value, "warning") {
        Some(Severity::Warning)
    } else if str_eq(value, "info") {
        Some(Severity::Info)
    } else {
        None
    }
}

/// Which severity a lowercase name denotes, if any.
pub open spec fn spec_parse_severity(value: Seq<char>) -> Option<Severity> {
    if value == "error"@ {
        Some(Severity::Error)
    } else if value == "warning"@ {
        Some(Severity::Warning)
    } else if value == "info"@ {
        Some(Severity::Info)
    } else {
        None
    }
}

/// Round trip: parsing the name of a severity yields that severity back.
pub proof fn lemma_severity_name_round_trip(s: Severity)
    ensures
        spec_parse_severity(severity_name(s)) == Some(s),
{
    reveal_strlit("error");
    reveal_strlit("warning");
    reveal_strlit("info");
    assert("error"@.len() == 5);
    assert("warning"@.len() == 7);
    assert("info"@.len() == 4);
}

} // verus!
