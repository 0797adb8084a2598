//! Required-crate enforcement: a builder for rules that flag macro
//! calls of discouraged crates and suggest the preferred one.

use vstd::prelude::*;

verus! {

use crate::allowance::{check_allow_with_reason, spec_check_allow, AllowCheck};
use crate::severity::Severity;
use crate::strutil::{after_prefix, is_prefix, starts_with, str_views};
use crate::types::{vmodel, Location, Suggestion, Violation};

/// Detection pattern for required crate checks.
#[derive(Debug, Clone)]
pub enum DetectionPattern {
    /// Detects macro calls with discouraged path prefixes.
    MacroPath,
    /// Detects type suffixes lacking an expected derive.
    TypeSuffix {
        /// Suffix to match (e.g., `Error`).
        suffix: String,
        /// Expected derive attribute.
        expected_derive: String,
    },
    /// Checks manifest dependencies; reserved.
    CargoToml,
}

/// A rule that enforces consistent crate usage, built fluently.
#[derive(Debug, Clone)]
pub struct RequiredCrateRule {
    /// Rule code (e.g., `AL006`).
    pub code: String,
    /// Rule name (e.g., `require-tracing`).
    pub name: String,
    /// Rule description.
    pub description: String,
    /// The required crate.
    pub preferred: String,
    /// The discouraged crates.
    pub alternatives: Vec<String>,
    /// How violations are detected.
    pub detection: DetectionPattern,
    /// Severity of the findings.
    pub severity: Severity,
}

/// A path invokes one of the alternatives: it starts with the
/// alternative followed by `::`.
pub open spec fn alt_prefixes(alts: Seq<String>, path: Seq<char>) -> bool {
    exists|i: int|
        0 <= i < alts.len() && is_prefix((#[trigger] alts[i])@ + seq![':', ':'], path)
}

/// The macro name after the first matching alternative's prefix.
pub open spec fn spec_macro_name(alts: Seq<String>, path: Seq<char>) -> Option<Seq<char>>
    decreases alts.len(),
{
    if alts.len() == 0 {
        None
    } else if is_prefix(alts[0]@ + seq![':', ':'], path) {
        Some(after_prefix(path, alts[0]@ + seq![':', ':']))
    } else {
        spec_macro_name(alts.subrange(1, alts.len() as int), path)
    }
}

impl RequiredCrateRule {
    /// Creates a new required-crate rule with macro-path detection and
    /// warning severity.
    pub fn new(code: &str, name: &str) -> (r: RequiredCrateRule)
        ensures
            r.code@ == code@,
            r.name@ == name@,
            r.description@.len() == 0,
            r.preferred@.len() == 0,
            r.alternatives@.len() == 0,
            r.detection is MacroPath,
            r.severity == Severity::Warning,
    {
        RequiredCrateRule {
            code: code.to_owned(),
            name: name.to_owned(),
            description: String::new(),
            preferred: String::new(),
            alternatives: Vec::new(),
            detection: DetectionPattern::MacroPath,
            severity: Severity::Warning,
        }
    }

    /// Sets the required crate name.
    pub fn prefer(self, crate_name: &str) -> (r: RequiredCrateRule)
        ensures
            r.preferred@ == crate_name@,
            r.code == self.code,
            r.name == self.name,
            r.description == self.description,
            str_views(r.alternatives@) == str_views(self.alternatives@),
            r.detection == self.detection,
            r.severity == self.severity,
    {
        RequiredCrateRule { preferred: crate_name.to_owned(), ..self }
    }

    /// Sets the discouraged crate names.
    pub fn over(self, alternatives: &[&str]) -> (r: RequiredCrateRule)
        ensures
            r.alternatives@.map_values(|s: String| s@) == alternatives@.map_values(
                |s: &str| s@,
            ),
            r.code == self.code,
            r.name == self.name,
            r.description == self.description,
            r.preferred == self.preferred,
            r.detection == self.detection,
            r.severity == self.severity,
    {
        let n = alternatives.len();
        let mut alts: Vec<String> = Vec::new();
        let mut i: usize = 0;
        proof {
            assert(str_views(alts@) =~= alternatives@.map_values(|s: &str| s@).subrange(0, 0));
        }
        while i < n
            invariant
                0 <= i <= n,
                n == alternatives@.len(),
                str_views(alts@) == alternatives@.map_values(|s: &str| s@).subrange(0, i as int),
            decreases n - i,
        {
            let ghost old_alts = alts@;
            let a: &str = alternatives[i];
            alts.push(a.to_owned());
            proof {
                assert(str_views(alts@) =~= str_views(old_alts).push(alternatives@[i as int]@));
                assert(alternatives@.map_values(|s: &str| s@).subrange(0, i + 1)
                    =~= alternatives@.map_values(|s: &str| s@).subrange(0, i as int).push(
                    alternatives@.map_values(|s: &str| s@)[i as int],
                ));
            }
            i = i + 1;
        }
        proof {
            assert(alternatives@.map_values(|s: &str| s@).subrange(0, n as int)
                =~= alternatives@.map_values(|s: &str| s@));
        }
        RequiredCrateRule { alternatives: alts, ..self }
    }

    /// Sets a custom description.
    pub fn description(self, desc: &str) -> (r: RequiredCrateRule)
        ensures
            r.description@ == desc@,
            r.code == self.code,
            r.name == self.name,
            r.preferred == self.preferred,
            str_views(r.alternatives@) == str_views(self.alternatives@),
            r.detection == self.detection,
            r.severity == self.severity,
    {
        RequiredCrateRule { description: desc.to_owned(), ..self }
    }

    /// Uses macro path detection.
    pub fn detect_macro_path(self) -> (r: RequiredCrateRule)
        ensures
            r == (RequiredCrateRule { detection: DetectionPattern::MacroPath, ..self }),
    {
        RequiredCrateRule { detection: DetectionPattern::MacroPath, ..self }
    }

    /// Uses type suffix detection.
    pub fn detect_type_suffix(self, suffix: &str, expected_derive: &str) -> (r: RequiredCrateRule)
        ensures
            r.detection matches DetectionPattern::TypeSuffix { suffix: s, expected_derive: e }
                && s@ == suffix@ && e@ == expected_derive@,
            r.code == self.code,
            r.name == self.name,
            r.preferred == self.preferred,
            str_views(r.alternatives@) == str_views(self.alternatives@),
            r.severity == self.severity,
    {
        RequiredCrateRule {
            detection: DetectionPattern::TypeSuffix {
                suffix: suffix.to_owned(),
                expected_derive: expected_derive.to_owned(),
            },
            ..self
        }
    }

    /// Sets the severity level.
    pub fn severity(self, severity: Severity) -> (r: RequiredCrateRule)
        ensures
            r == (RequiredCrateRule { severity, ..self }),
    {
        RequiredCrateRule { severity, ..self }
    }

    /// The severity findings carry by default.
    pub fn default_severity(&self) -> (r: Severity)
        ensures
            r == self.severity,
    {
        self.severity
    }

    /// Whether suppressing this rule requires a reason: it does
    /// whenever the rule reports errors.
    pub fn requires_allow_reason(&self) -> (r: bool)
        ensures
            r == (self.severity == Severity::Error),
    {
        match self.severity {
            Severity::Error => true,
            _ => false,
        }
    }

    /// Whether a macro path invokes one of the discouraged crates.
    pub fn is_alternative_macro(&self, path: &str) -> (r: bool)
        ensures
            r == alt_prefixes(self.alternatives@, path@),
    {
        let n = self.alternatives.len();
        let mut i: usize = 0;
        while i < n
            invariant
                0 <= i <= n,
                n == self.alternatives@.len(),
                forall|j: int|
                    0 <= j < i ==> !is_prefix(
                        (#[trigger] self.alternatives@[j])@ + seq![':', ':'],
                        path@,
                    ),
            decreases n - i,
        {
            let mut prefix = self.alternatives[i].clone();
            prefix.append("::");
            proof {
                reveal_strlit("::");
                assert(prefix@ =~= self.alternatives@[i as int]@ + seq![':', ':']);
            }
            if starts_with(path, prefix.as_str()) {
                return true;
            }
            i = i + 1;
        }
        false
    }

    /// The macro name after the first discouraged crate's prefix.
    pub fn get_macro_name(&self, path: &str) -> (r: Option<String>)
        ensures
            match r {
                Some(s) => spec_macro_name(self.alternatives@, path@) == Some(s@),
                None => spec_macro_name(self.alternatives@, path@) is None,
            },
    {
        let n = self.alternatives.len();
        let mut i: usize = 0;
        proof {
            assert(self.alternatives@.subrange(0, n as int) =~= self.alternatives@);
        }
        while i < n
            invariant
                0 <= i <= n,
                n == self.alternatives@.len(),
                spec_macro_name(self.alternatives@, path@) == spec_macro_name(
                    self.alternatives@.subrange(i as int, n as int),
                    path@,
                ),
            decreases n - i,
        {
            let ghost suffix = self.alternatives@.subrange(i as int, n as int);
            proof {
                assert(suffix[0] == self.alternatives@[i as int]);
            }
            let mut prefix = self.alternatives[i].clone();
            prefix.append("::");
            proof {
                reveal_strlit("::");
                assert(prefix@ =~= self.alternatives@[i as int]@ + seq![':', ':']);
            }
            match crate::strutil::strip_prefix_str(path, prefix.as_str()) {
                Some(rest) => {
                    return Some(rest.to_owned());
                },
                None => {},
            }
            proof {
                assert(suffix.subrange(1, suffix.len() as int) =~= self.alternatives@.subrange(
                    i + 1,
                    n as int,
                ));
            }
            i = i + 1;
        }
        proof {
            assert(self.alternatives@.subrange(n as int, n as int).len() == 0);
        }
        None
    }
}

/// What the required-crate rule decides for one macro call site.
pub open spec fn spec_macro_site(
    rule: RequiredCrateRule,
    content: Seq<char>,
    rel: Seq<char>,
    path: Seq<char>,
    line: nat,
    column: nat,
    in_allowed_context: bool,
) -> Seq<crate::catalog::VioModel> {
    if in_allowed_context {
        Seq::empty()
    } else if !alt_prefixes(rule.alternatives@, path) {
        Seq::empty()
    } else {
        match spec_check_allow(content, line as int, rule.name@) {
            Some(reason) => if rule.severity == Severity::Error && reason is None {
                seq![
                    crate::catalog::missing_reason_model(rule.code@, rule.name@, rel, line, column),
                ]
            } else {
                Seq::empty()
            },
            None => match spec_macro_name(rule.alternatives@, path) {
                Some(name) => seq![
                    (
                        rule.code@,
                        rule.name@,
                        rule.severity,
                        rel,
                        line,
                        column + 1,
                        "Use `"@ + rule.preferred@ + "::"@ + name + "!` instead of `"@ + path
                            + "!`"@,
                        None,
                        Some(
                            "Replace with `"@ + rule.preferred@ + "::"@ + name
                                + "!` for consistency"@,
                        ),
                    ),
                ],
                None => Seq::empty(),
            },
        }
    }
}

impl RequiredCrateRule {
    /// Decides one macro call site: at most one finding, exactly as
    /// [`spec_macro_site`] describes.
    pub fn check_macro_site(
        &self,
        content: &str,
        relative_path: &str,
        path: &str,
        line: usize,
        column: usize,
        in_allowed_context: bool,
    ) -> (r: Vec<Violation>)
        requires
            column < usize::MAX,
        ensures
            r@.map_values(|v: Violation| vmodel(v)) == spec_macro_site(
                *self,
                content@,
                relative_path@,
                path@,
                line as nat,
                column as nat,
                in_allowed_context,
            ),
    {
        let ghost m = |v: Violation| vmodel(v);
        let mut out: Vec<Violation> = Vec::new();
        proof {
            assert(out@.map_values(m) =~= Seq::<crate::catalog::VioModel>::empty());
        }
        if in_allowed_context {
            return out;
        }
        if !self.is_alternative_macro(path) {
            return out;
        }
        match check_allow_with_reason(content, line, self.name.as_str()) {
            AllowCheck::Allowed { reason } => {
                let reason_missing = match &reason {
                    Some(_) => false,
                    None => true,
                };
                if self.requires_allow_reason() && reason_missing {
                    let mut msg = "Allow directive for '".to_owned();
                    msg.append(self.name.as_str());
                    msg.append("' is missing required reason");
                    let v = Violation::new(
                        self.code.clone(),
                        self.name.clone(),
                        Severity::Warning,
                        Location::new(relative_path.to_owned(), line, column + 1),
                        msg,
                    ).with_suggestion(
                        Suggestion::new(
                            "Add reason=\"...\" to explain why this exception is necessary".to_owned(),
                        ),
                    );
                    out.push(v);
                    proof {
                        assert(out@.map_values(m) =~= Seq::<crate::catalog::VioModel>::empty().push(
                            crate::catalog::missing_reason_model(
                                self.code@,
                                self.name@,
                                relative_path@,
                                line as nat,
                                column as nat,
                            ),
                        ));
                    }
                }
                out
            },
            AllowCheck::Denied => {
                match self.get_macro_name(path) {
                    Some(macro_name) => {
                        let mut msg = "Use `".to_owned();
                        msg.append(self.preferred.as_str());
                        msg.append("::");
                        msg.append(macro_name.as_str());
                        msg.append("!` instead of `");
                        msg.append(path);
                        msg.append("!`");
                        proof {
                            reveal_strlit("::");
                            assert("::"@ =~= Seq::<char>::empty().push(':').push(':'));
                        }
                        let mut sugg = "Replace with `".to_owned();
                        sugg.append(self.preferred.as_str());
                        sugg.append("::");
                        sugg.append(macro_name.as_str());
                        sugg.append("!` for consistency");
                        let v = Violation::new(
                            self.code.clone(),
                            self.name.clone(),
                            self.severity,
                            Location::new(relative_path.to_owned(), line, column + 1),
                            msg,
                        ).with_suggestion(Suggestion::new(sugg));
                        out.push(v);
                        proof {
                            let spec_r = spec_macro_site(
                                *self,
                                content@,
                                relative_path@,
                                path@,
                                line as nat,
                                column as nat,
                                in_allowed_context,
                            );
                            assert(out@.map_values(m) =~= spec_r);
                        }
                        out
                    },
                    None => out,
                }
            },
        }
    }
}

/// Creates the require-tracing rule: prefer `tracing` macros over the
/// `log` crate's.
pub fn new_require_tracing() -> (r: RequiredCrateRule)
    ensures
        r.code@ == "AL006"@,
        r.name@ == "require-tracing"@,
        r.preferred@ == "tracing"@,
        r.alternatives@.map_values(|s: String| s@) =~= seq!["log"@],
        r.detection is MacroPath,
        r.severity == Severity::Warning,
{
    RequiredCrateRule::new("AL006", "require-tracing").prefer("tracing").over(
        &["log"],
    ).detect_macro_path()
}

/// Creates the prefer-utoipa rule: prefer `utoipa` macros over other
/// interface-description crates'.
pub fn new_prefer_utoipa() -> (r: RequiredCrateRule)
    ensures
        r.code@ == "PROJ001"@,
        r.name@ == "prefer-utoipa"@,
        r.preferred@ == "utoipa"@,
        r.alternatives@.map_values(|s: String| s@) =~= seq!["paperclip"@, "okapi"@, "rweb"@],
        r.detection is MacroPath,
        r.severity == Severity::Warning,
{
    RequiredCrateRule::new("PROJ001", "prefer-utoipa").prefer("utoipa").over(
        &["paperclip", "okapi", "rweb"],
    ).detect_macro_path()
}

/// Suppression is honored: when a covering allow directive stands on
/// the line or the one before, the required-crate rule never reports
/// the violation itself; at most the missing-reason notice is.
pub proof fn lemma_macro_site_suppression_honored(
    rule: RequiredCrateRule,
    content: Seq<char>,
    rel: Seq<char>,
    path: Seq<char>,
    line: nat,
    column: nat,
    in_allowed_context: bool,
)
    requires
        spec_check_allow(content, line as int, rule.name@) is Some,
    ensures
        ({
            let r = spec_macro_site(rule, content, rel, path, line, column, in_allowed_context);
            r.len() <= 1 && (r.len() == 1 ==> r[0] == crate::catalog::missing_reason_model(
                rule.code@,
                rule.name@,
                rel,
                line,
                column,
            ))
        }),
{
}

} // verus!
