//! The built-in per-file rule catalog: each rule's identity, defaults,
//! and configuration builders, and the site-decision logic of the
//! unwrap rule, including its suppression handling.

use vstd::prelude::*;

verus! {

use crate::allowance::{check_allow_with_reason, spec_check_allow, AllowCheck};
use crate::severity::Severity;
use crate::strutil::{contains_seq, contains_str, ends_with, is_prefix, is_suffix, starts_with, str_eq, str_views};
use crate::types::{vmodel, Location, Suggestion, Violation};

/// The model of one violation.
pub type VioModel = (
    Seq<char>,
    Seq<char>,
    Severity,
    Seq<char>,
    nat,
    nat,
    Seq<char>,
    Option<Seq<char>>,
    Option<Seq<char>>,
);

/// Forbids `.unwrap()` and `.expect()` calls in production code.
#[derive(Debug, Clone)]
pub struct NoUnwrapExpect {
    /// Allow in test code.
    pub allow_in_tests: bool,
    /// Allow `.expect()` and only forbid `.unwrap()`.
    pub allow_expect: bool,
    /// Severity of the findings.
    pub severity: Severity,
}

/// The missing-reason notice of a rule: emitted when a covering allow
/// directive lacks its required reason.
pub open spec fn missing_reason_model(
    code: Seq<char>,
    name: Seq<char>,
    rel: Seq<char>,
    line: nat,
    column: nat,
) -> VioModel {
    (
        code,
        name,
        Severity::Warning,
        rel,
        line,
        column + 1,
        "Allow directive for '"@ + name + "' is missing required reason"@,
        None,
        Some("Add reason=\"...\" to explain why this exception is necessary"@),
    )
}

/// What the unwrap rule decides for one method-call site: nothing in
/// an allowed or test context or for another method; the
/// missing-reason notice when a covering directive lacks its required
/// reason; nothing else when the directive has one; otherwise the
/// finding itself, with a note on `partial_cmp` receivers.
pub open spec fn spec_unwrap_site(
    rule: NoUnwrapExpect,
    content: Seq<char>,
    rel: Seq<char>,
    method: Seq<char>,
    line: nat,
    column: nat,
    receiver_is_partial_cmp: bool,
    in_test_context: bool,
    in_allowed_context: bool,
) -> Seq<VioModel> {
    if rule.allow_in_tests && in_test_context {
        Seq::empty()
    } else if in_allowed_context {
        Seq::empty()
    } else if method == "unwrap"@ || (method == "expect"@ && !rule.allow_expect) {
        match spec_check_allow(content, line as int, "no-unwrap-expect"@) {
            Some(reason) => if rule.severity == Severity::Error && reason is None {
                seq![missing_reason_model("AL001"@, "no-unwrap-expect"@, rel, line, column)]
            } else {
                Seq::empty()
            },
            None => {
                let base: Seq<char> = if method == "unwrap"@ {
                    ".unwrap() is forbidden in production code"@
                } else {
                    ".expect() is forbidden in production code"@
                };
                let message: Seq<char> = if method == "unwrap"@ && receiver_is_partial_cmp {
                    base + " (NaN comparison danger with partial_cmp)"@
                } else {
                    base
                };
                let suggestion: Seq<char> = if method == "unwrap"@ {
                    "Use `?` operator, `.ok_or(Error)?`, or pattern matching"@
                } else {
                    "Use `?` operator with `.context()` or custom error"@
                };
                seq![
                    (
                        "AL001"@,
                        "no-unwrap-expect"@,
                        rule.severity,
                        rel,
                        line,
                        column + 1,
                        message,
                        None,
                        Some(suggestion),
                    ),
                ]
            },
        }
    } else {
        Seq::empty()
    }
}

impl NoUnwrapExpect {
    /// Creates a new rule with default settings: tests allowed,
    /// `.expect()` forbidden, error severity.
    pub fn new() -> (r: NoUnwrapExpect)
        ensures
            r.allow_in_tests,
            !r.allow_expect,
            r.severity == Severity::Error,
    {
        NoUnwrapExpect { allow_in_tests: true, allow_expect: false, severity: Severity::Error }
    }

    /// Sets whether to allow in test code.
    pub fn allow_in_tests(self, allow: bool) -> (r: NoUnwrapExpect)
        ensures
            r == (NoUnwrapExpect { allow_in_tests: allow, ..self }),
    {
        NoUnwrapExpect { allow_in_tests: allow, ..self }
    }

    /// Sets whether to allow `.expect()`.
    pub fn allow_expect(self, allow: bool) -> (r: NoUnwrapExpect)
        ensures
            r == (NoUnwrapExpect { allow_expect: allow, ..self }),
    {
        NoUnwrapExpect { allow_expect: allow, ..self }
    }

    /// Sets the severity level.
    pub fn severity(self, severity: Severity) -> (r: NoUnwrapExpect)
        ensures
            r == (NoUnwrapExpect { severity, ..self }),
    {
        NoUnwrapExpect { severity, ..self }
    }

    /// The rule's kebab-case name.
    pub fn name(&self) -> (r: &'static str)
        ensures
            r@ == "no-unwrap-expect"@,
    {
        "no-unwrap-expect"
    }

    /// The rule's stable code.
    pub fn code(&self) -> (r: &'static str)
        ensures
            r@ == "AL001"@,
    {
        "AL001"
    }

    /// The severity findings carry by default.
    pub fn default_severity(&self) -> (r: Severity)
        ensures
            r == self.severity,
    {
        self.severity
    }

    /// Whether suppressing this rule requires a reason: it does
    /// whenever the rule reports errors.
    pub fn requires_allow_reason(&self) -> (r: bool)
        ensures
            r == (self.severity == Severity::Error),
    {
        match self.severity {
            Severity::Error => true,
            _ => false,
        }
    }

    /// Decides one method-call site: at most one finding, exactly as
    /// [`spec_unwrap_site`] describes.
    pub fn check_method_call_site(
        &self,
        content: &str,
        relative_path: &str,
        method: &str,
        line: usize,
        column: usize,
        receiver_is_partial_cmp: bool,
        in_test_context: bool,
        in_allowed_context: bool,
    ) -> (r: Vec<Violation>)
        requires
            column < usize::MAX,
        ensures
            r@.map_values(|v: Violation| vmodel(v)) == spec_unwrap_site(
                *self,
                content@,
                relative_path@,
                method@,
                line as nat,
                column as nat,
                receiver_is_partial_cmp,
                in_test_context,
                in_allowed_context,
            ),
    {
        let ghost m = |v: Violation| vmodel(v);
        let mut out: Vec<Violation> = Vec::new();
        proof {
            assert(out@.map_values(m) =~= Seq::<VioModel>::empty());
        }
        if self.allow_in_tests && in_test_context {
            return out;
        }
        if in_allowed_context {
            return out;
        }
        let is_unwrap = str_eq(method, "unwrap");
        let is_expect = str_eq(method, "expect");
        if !(is_unwrap || (is_expect && !self.allow_expect)) {
            return out;
        }
        match check_allow_with_reason(content, line, "no-unwrap-expect") {
            AllowCheck::Allowed { reason } => {
                let reason_missing = match &reason {
                    Some(_) => false,
                    None => true,
                };
                if self.requires_allow_reason() && reason_missing {
                    let mut msg = "Allow directive for '".to_owned();
                    msg.append("no-unwrap-expect");
                    msg.append("' is missing required reason");
                    let v = Violation::new(
                        "AL001".to_owned(),
                        "no-unwrap-expect".to_owned(),
                        Severity::Warning,
                        Location::new(relative_path.to_owned(), line, column + 1),
                        msg,
                    ).with_suggestion(
                        Suggestion::new(
                            "Add reason=\"...\" to explain why this exception is necessary".to_owned(),
                        ),
                    );
                    out.push(v);
                    proof {
                        assert(out@.map_values(m) =~= Seq::<VioModel>::empty().push(
                            missing_reason_model(
                                "AL001"@,
                                "no-unwrap-expect"@,
                                relative_path@,
                                line as nat,
                                column as nat,
                            ),
                        ));
                    }
                }
                out
            },
            AllowCheck::Denied => {
                let mut msg = if is_unwrap {
                    ".unwrap() is forbidden in production code".to_owned()
                } else {
                    ".expect() is forbidden in production code".to_owned()
                };
                if is_unwrap && receiver_is_partial_cmp {
                    msg.append(" (NaN comparison danger with partial_cmp)");
                }
                let suggestion = if is_unwrap {
                    Suggestion::new(
                        "Use `?` operator, `.ok_or(Error)?`, or pattern matching".to_owned(),
                    )
                } else {
                    Suggestion::new("Use `?` operator with `.context()` or custom error".to_owned())
                };
                let v = Violation::new(
                    "AL001".to_owned(),
                    "no-unwrap-expect".to_owned(),
                    self.severity,
                    Location::new(relative_path.to_owned(), line, column + 1),
                    msg,
                ).with_suggestion(suggestion);
                out.push(v);
                proof {
                    let spec_r = spec_unwrap_site(
                        *self,
                        content@,
                        relative_path@,
                        method@,
                        line as nat,
                        column as nat,
                        receiver_is_partial_cmp,
                        in_test_context,
                        in_allowed_context,
                    );
                    assert(out@.map_values(m) =~= spec_r);
                }
                out
            },
        }
    }
}

/// Suppression is honored: when the offending line or the one before
/// carries a covering allow directive, the unwrap rule never reports
/// the violation itself; at most it reports the missing-reason notice.
pub proof fn lemma_unwrap_suppression_honored(
    rule: NoUnwrapExpect,
    content: Seq<char>,
    rel: Seq<char>,
    method: Seq<char>,
    line: nat,
    column: nat,
    receiver_is_partial_cmp: bool,
    in_test_context: bool,
    in_allowed_context: bool,
)
    requires
        spec_check_allow(content, line as int, "no-unwrap-expect"@) is Some,
    ensures
        ({
            let r = spec_unwrap_site(
                rule,
                content,
                rel,
                method,
                line,
                column,
                receiver_is_partial_cmp,
                in_test_context,
                in_allowed_context,
            );
            r.len() <= 1 && (r.len() == 1 ==> r[0] == missing_reason_model(
                "AL001"@,
                "no-unwrap-expect"@,
                rel,
                line,
                column,
            ))
        }),
{
}

/// Test contexts are skipped: while the rule allows tests, a site in a
/// test context yields no finding at all.
pub proof fn lemma_unwrap_test_context_skipped(
    rule: NoUnwrapExpect,
    content: Seq<char>,
    rel: Seq<char>,
    method: Seq<char>,
    line: nat,
    column: nat,
    receiver_is_partial_cmp: bool,
    in_allowed_context: bool,
)
    requires
        rule.allow_in_tests,
    ensures
        spec_unwrap_site(
            rule,
            content,
            rel,
            method,
            line,
            column,
            receiver_is_partial_cmp,
            true,
            in_allowed_context,
        ).len() == 0,
{
}

/// Forbids synchronous I/O operations.
#[derive(Debug, Clone)]
pub struct NoSyncIo {
    /// Call-path prefixes that are allowed as async alternatives.
    pub allow_patterns: Vec<String>,
    /// Severity of the findings.
    pub severity: Severity,
}

impl NoSyncIo {
    /// Creates a new rule allowing the common async runtimes' paths.
    pub fn new() -> (r: NoSyncIo)
        ensures
            r.allow_patterns@.len() == 2,
            r.allow_patterns@[0]@ == "tokio::"@,
            r.allow_patterns@[1]@ == "async_std::"@,
            r.severity == Severity::Error,
    {
        let mut allow_patterns: Vec<String> = Vec::new();
        allow_patterns.push("tokio::".to_owned());
        allow_patterns.push("async_std::".to_owned());
        NoSyncIo { allow_patterns, severity: Severity::Error }
    }

    /// Adds additional allowed call-path prefixes.
    pub fn allow_patterns(self, patterns: &Vec<String>) -> (r: NoSyncIo)
        ensures
            str_views(r.allow_patterns@) == str_views(self.allow_patterns@) + str_views(
                patterns@,
            ),
            r.severity == self.severity,
    {
        let mut allow = self.allow_patterns;
        let ghost before = allow@;
        let n = patterns.len();
        let mut i: usize = 0;
        proof {
            assert(str_views(allow@) =~= str_views(before) + str_views(patterns@).subrange(0, 0));
        }
        while i < n
            invariant
                0 <= i <= n,
                n == patterns@.len(),
                str_views(allow@) == str_views(before) + str_views(patterns@).subrange(
                    0,
                    i as int,
                ),
            decreases n - i,
        {
            let ghost old_allow = allow@;
            allow.push(patterns[i].clone());
            proof {
                assert(str_views(allow@) =~= str_views(old_allow).push(patterns@[i as int]@));
                assert(str_views(patterns@).subrange(0, i + 1) =~= str_views(patterns@).subrange(
                    0,
                    i as int,
                ).push(str_views(patterns@)[i as int]));
                assert(str_views(allow@) =~= str_views(before) + str_views(patterns@).subrange(
                    0,
                    i + 1,
                ));
            }
            i = i + 1;
        }
        proof {
            assert(str_views(patterns@).subrange(0, n as int) =~= str_views(patterns@));
        }
        NoSyncIo { allow_patterns: allow, severity: self.severity }
    }

    /// Sets the severity level.
    pub fn severity(self, severity: Severity) -> (r: NoSyncIo)
        ensures
            str_views(r.allow_patterns@) == str_views(self.allow_patterns@),
            r.severity == severity,
    {
        NoSyncIo { severity, ..self }
    }

    /// Whether a call path starts with an allowed async alternative.
    pub fn is_allowed_path(&self, path: &str) -> (r: bool)
        ensures
            r == exists|i: int|
                0 <= i < self.allow_patterns@.len() && is_prefix(
                    (#[trigger] self.allow_patterns@[i])@,
                    path@,
                ),
    {
        let n = self.allow_patterns.len();
        let mut i: usize = 0;
        while i < n
            invariant
                0 <= i <= n,
                n == self.allow_patterns@.len(),
                forall|j: int|
                    0 <= j < i ==> !is_prefix((#[trigger] self.allow_patterns@[j])@, path@),
            decreases n - i,
        {
            if starts_with(path, self.allow_patterns[i].as_str()) {
                return true;
            }
            i = i + 1;
        }
        false
    }
}

/// Flags `if let Err` arms and match arms that only log the error.
#[derive(Debug, Clone)]
pub struct NoErrorSwallowing {
    /// Severity of the findings.
    pub severity: Severity,
}

impl NoErrorSwallowing {
    /// Creates a new rule with warning severity.
    pub fn new() -> (r: NoErrorSwallowing)
        ensures
            r.severity == Severity::Warning,
    {
        NoErrorSwallowing { severity: Severity::Warning }
    }

    /// Sets the severity level.
    pub fn severity(self, severity: Severity) -> (r: NoErrorSwallowing)
        ensures
            r.severity == severity,
    {
        NoErrorSwallowing { severity }
    }
}

/// Limits on handler complexity.
#[derive(Debug, Clone)]
pub struct HandlerComplexityConfig {
    /// Maximum lines in a handler function body.
    pub max_handler_lines: usize,
    /// Maximum arms in a match expression.
    pub max_match_arms: usize,
    /// Maximum variants in an action enum.
    pub max_enum_variants: usize,
}

impl HandlerComplexityConfig {
    /// The default limits.
    pub fn new() -> (r: HandlerComplexityConfig)
        ensures
            r.max_handler_lines == 150,
            r.max_match_arms == 20,
            r.max_enum_variants == 30,
    {
        HandlerComplexityConfig {
            max_handler_lines: 150,
            max_match_arms: 20,
            max_enum_variants: 30,
        }
    }
}

/// Flags overlong handlers, oversized matches, and bloated action
/// enums.
#[derive(Debug, Clone)]
pub struct HandlerComplexity {
    /// The complexity limits.
    pub config: HandlerComplexityConfig,
    /// Severity of the findings.
    pub severity: Severity,
}

impl HandlerComplexity {
    /// Creates a new rule with the default limits.
    pub fn new() -> (r: HandlerComplexity)
        ensures
            r.config.max_handler_lines == 150,
            r.config.max_match_arms == 20,
            r.config.max_enum_variants == 30,
            r.severity == Severity::Warning,
    {
        HandlerComplexity { config: HandlerComplexityConfig::new(), severity: Severity::Warning }
    }

    /// Sets the maximum handler body lines.
    pub fn max_handler_lines(self, max: usize) -> (r: HandlerComplexity)
        ensures
            r.config.max_handler_lines == max,
            r.config.max_match_arms == self.config.max_match_arms,
            r.config.max_enum_variants == self.config.max_enum_variants,
            r.severity == self.severity,
    {
        HandlerComplexity {
            config: HandlerComplexityConfig { max_handler_lines: max, ..self.config },
            ..self
        }
    }

    /// Sets the maximum match arms.
    pub fn max_match_arms(self, max: usize) -> (r: HandlerComplexity)
        ensures
            r.config.max_match_arms == max,
            r.config.max_handler_lines == self.config.max_handler_lines,
            r.config.max_enum_variants == self.config.max_enum_variants,
            r.severity == self.severity,
    {
        HandlerComplexity {
            config: HandlerComplexityConfig { max_match_arms: max, ..self.config },
            ..self
        }
    }

    /// Sets the maximum action enum variants.
    pub fn max_enum_variants(self, max: usize) -> (r: HandlerComplexity)
        ensures
            r.config.max_enum_variants == max,
            r.config.max_handler_lines == self.config.max_handler_lines,
            r.config.max_match_arms == self.config.max_match_arms,
            r.severity == self.severity,
    {
        HandlerComplexity {
            config: HandlerComplexityConfig { max_enum_variants: max, ..self.config },
            ..self
        }
    }

    /// Sets the severity level.
    pub fn severity(self, severity: Severity) -> (r: HandlerComplexity)
        ensures
            r.config == self.config,
            r.severity == severity,
    {
        HandlerComplexity { severity, ..self }
    }
}

/// Whether a function name follows the handler naming patterns.
pub fn is_handler_function(name: &str) -> (r: bool)
    ensures
        r == (is_prefix("handle_"@, name@) || is_prefix("process_"@, name@) || is_prefix(
            "on_"@,
            name@,
        ) || is_prefix("update"@, name@)),
{
    starts_with(name, "handle_") || starts_with(name, "process_") || starts_with(name, "on_")
        || starts_with(name, "update")
}

/// Whether an enum name contains an action word.
pub fn is_action_enum(name: &str) -> (r: bool)
    ensures
        r == (contains_seq(name@, "Action"@) || contains_seq(name@, "Message"@) || contains_seq(
            name@,
            "Msg"@,
        ) || contains_seq(name@, "Event"@) || contains_seq(name@, "Command"@) || contains_seq(
            name@,
            "Cmd"@,
        )),
{
    contains_str(name, "Action") || contains_str(name, "Message") || contains_str(name, "Msg")
        || contains_str(name, "Event") || contains_str(name, "Command") || contains_str(
        name,
        "Cmd",
    )
}

/// Requires an error-derivation attribute on `*Error` types.
#[derive(Debug, Clone)]
pub struct RequireThiserror {
    /// Name suffixes that mark an error type.
    pub patterns: Vec<String>,
    /// Severity of the findings.
    pub severity: Severity,
}

impl RequireThiserror {
    /// Creates a new rule matching names that end in `Error`.
    pub fn new() -> (r: RequireThiserror)
        ensures
            r.patterns@.len() == 1,
            r.patterns@[0]@ == "Error"@,
            r.severity == Severity::Warning,
    {
        let mut patterns: Vec<String> = Vec::new();
        patterns.push("Error".to_owned());
        RequireThiserror { patterns, severity: Severity::Warning }
    }

    /// Sets the severity level.
    pub fn severity(self, severity: Severity) -> (r: RequireThiserror)
        ensures
            str_views(r.patterns@) == str_views(self.patterns@),
            r.severity == severity,
    {
        RequireThiserror { severity, ..self }
    }

    /// Adds a name suffix that marks an error type.
    pub fn add_pattern(self, pattern: String) -> (r: RequireThiserror)
        ensures
            r.patterns@ == self.patterns@.push(pattern),
            r.severity == self.severity,
    {
        let mut patterns = self.patterns;
        patterns.push(pattern);
        RequireThiserror { patterns, ..self }
    }

    /// Whether a type name ends with one of the error suffixes.
    pub fn is_error_type(&self, name: &str) -> (r: bool)
        ensures
            r == exists|i: int|
                0 <= i < self.patterns@.len() && is_suffix(
                    (#[trigger] self.patterns@[i])@,
                    name@,
                ),
    {
        let n = self.patterns.len();
        let mut i: usize = 0;
        while i < n
            invariant
                0 <= i <= n,
                n == self.patterns@.len(),
                forall|j: int| 0 <= j < i ==> !is_suffix((#[trigger] self.patterns@[j])@, name@),
            decreases n - i,
        {
            if ends_with(name, self.patterns[i].as_str()) {
                return true;
            }
            i = i + 1;
        }
        false
    }
}

/// Flags panic-family macros outside test contexts.
#[derive(Debug, Clone)]
pub struct NoPanicInLib {
    /// Allow panics in test code.
    pub allow_in_tests: bool,
    /// Severity of the findings.
    pub severity: Severity,
}

impl NoPanicInLib {
    /// Creates a new rule allowing panics in tests, with error
    /// severity.
    pub fn new() -> (r: NoPanicInLib)
        ensures
            r.allow_in_tests,
            r.severity == Severity::Error,
    {
        NoPanicInLib { allow_in_tests: true, severity: Severity::Error }
    }

    /// Sets whether to allow panics in test code.
    pub fn allow_in_tests(self, allow: bool) -> (r: NoPanicInLib)
        ensures
            r.allow_in_tests == allow,
            r.severity == self.severity,
    {
        NoPanicInLib { allow_in_tests: allow, ..self }
    }

    /// Sets the severity level.
    pub fn severity(self, severity: Severity) -> (r: NoPanicInLib)
        ensures
            r.allow_in_tests == self.allow_in_tests,
            r.severity == severity,
    {
        NoPanicInLib { severity, ..self }
    }
}

/// Flags silently dropped results: `.unwrap_or*`, `.ok()`, `let _ =`.
#[derive(Debug, Clone)]
pub struct NoSilentResultDrop {
    /// Allow in test code.
    pub allow_in_tests: bool,
    /// Allow `.ok()` calls.
    pub allow_ok: bool,
    /// Allow `let _ =` bindings.
    pub allow_let_underscore: bool,
    /// Severity of the findings.
    pub severity: Severity,
}

impl NoSilentResultDrop {
    /// Creates a new rule with warning severity, nothing allowed.
    pub fn new() -> (r: NoSilentResultDrop)
        ensures
            r.allow_in_tests,
            !r.allow_ok,
            !r.allow_let_underscore,
            r.severity == Severity::Warning,
    {
        NoSilentResultDrop {
            allow_in_tests: true,
            allow_ok: false,
            allow_let_underscore: false,
            severity: Severity::Warning,
        }
    }

    /// Sets whether to allow in test code.
    pub fn allow_in_tests(self, allow: bool) -> (r: NoSilentResultDrop)
        ensures
            r == (NoSilentResultDrop { allow_in_tests: allow, ..self }),
    {
        NoSilentResultDrop { allow_in_tests: allow, ..self }
    }

    /// Sets whether to allow `.ok()` calls.
    pub fn allow_ok(self, allow: bool) -> (r: NoSilentResultDrop)
        ensures
            r == (NoSilentResultDrop { allow_ok: allow, ..self }),
    {
        NoSilentResultDrop { allow_ok: allow, ..self }
    }

    /// Sets whether to allow `let _ =` bindings.
    pub fn allow_let_underscore(self, allow: bool) -> (r: NoSilentResultDrop)
        ensures
            r == (NoSilentResultDrop { allow_let_underscore: allow, ..self }),
    {
        NoSilentResultDrop { allow_let_underscore: allow, ..self }
    }

    /// Sets the severity level.
    pub fn severity(self, severity: Severity) -> (r: NoSilentResultDrop)
        ensures
            r == (NoSilentResultDrop { severity, ..self }),
    {
        NoSilentResultDrop { severity, ..self }
    }
}

/// Requires doc comments on public functions, structs, and enums.
#[derive(Debug, Clone)]
pub struct RequireDocComments {
    /// Require docs on public functions.
    pub require_fn_docs: bool,
    /// Require docs on public structs.
    pub require_struct_docs: bool,
    /// Require docs on public enums.
    pub require_enum_docs: bool,
    /// Severity of the findings.
    pub severity: Severity,
}

impl RequireDocComments {
    /// Creates a new rule requiring docs everywhere, with warning
    /// severity.
    pub fn new() -> (r: RequireDocComments)
        ensures
            r.require_fn_docs,
            r.require_struct_docs,
            r.require_enum_docs,
            r.severity == Severity::Warning,
    {
        RequireDocComments {
            require_fn_docs: true,
            require_struct_docs: true,
            require_enum_docs: true,
            severity: Severity::Warning,
        }
    }

    /// Sets whether public functions need docs.
    pub fn require_fn_docs(self, require: bool) -> (r: RequireDocComments)
        ensures
            r == (RequireDocComments { require_fn_docs: require, ..self }),
    {
        RequireDocComments { require_fn_docs: require, ..self }
    }

    /// Sets whether public structs need docs.
    pub fn require_struct_docs(self, require: bool) -> (r: RequireDocComments)
        ensures
            r == (RequireDocComments { require_struct_docs: require, ..self }),
    {
        RequireDocComments { require_struct_docs: require, ..self }
    }

    /// Sets whether public enums need docs.
    pub fn require_enum_docs(self, require: bool) -> (r: RequireDocComments)
        ensures
            r == (RequireDocComments { require_enum_docs: require, ..self }),
    {
        RequireDocComments { require_enum_docs: require, ..self }
    }

    /// Sets the severity level.
    pub fn severity(self, severity: Severity) -> (r: RequireDocComments)
        ensures
            r == (RequireDocComments { severity, ..self }),
    {
        RequireDocComments { severity, ..self }
    }
}

/// The configured async runtime threading mode.
#[derive(Debug, Clone, Copy, PartialEq, Eq, Structural)]
pub enum RuntimeMode {
    /// A single-threaded runtime.
    SingleThread,
    /// A multi-threaded runtime.
    MultiThread,
}

/// Checks that async traits opt out of `Send` bounds when the runtime
/// is single-threaded.
#[derive(Debug, Clone)]
pub struct AsyncTraitSendCheck {
    /// The configured runtime mode.
    pub runtime_mode: RuntimeMode,
    /// Severity of the findings.
    pub severity: Severity,
}

impl AsyncTraitSendCheck {
    /// Creates a new rule for a single-threaded runtime, with warning
    /// severity.
    pub fn new() -> (r: AsyncTraitSendCheck)
        ensures
            r.runtime_mode == RuntimeMode::SingleThread,
            r.severity == Severity::Warning,
    {
        AsyncTraitSendCheck { runtime_mode: RuntimeMode::SingleThread, severity: Severity::Warning }
    }

    /// Sets the runtime mode.
    pub fn runtime_mode(self, mode: RuntimeMode) -> (r: AsyncTraitSendCheck)
        ensures
            r.runtime_mode == mode,
            r.severity == self.severity,
    {
        AsyncTraitSendCheck { runtime_mode: mode, ..self }
    }

    /// Sets the severity level.
    pub fn severity(self, severity: Severity) -> (r: AsyncTraitSendCheck)
        ensures
            r.runtime_mode == self.runtime_mode,
            r.severity == severity,
    {
        AsyncTraitSendCheck { severity, ..self }
    }
}

/// Flags `impl Into<T> for U` blocks; `From` is preferred.
#[derive(Debug, Clone)]
pub struct PreferFromOverInto {
    /// Severity of the findings.
    pub severity: Severity,
}

impl PreferFromOverInto {
    /// Creates a new rule with warning severity.
    pub fn new() -> (r: PreferFromOverInto)
        ensures
            r.severity == Severity::Warning,
    {
        PreferFromOverInto { severity: Severity::Warning }
    }

    /// Sets the severity level.
    pub fn severity(self, severity: Severity) -> (r: PreferFromOverInto)
        ensures
            r.severity == severity,
    {
        PreferFromOverInto { severity }
    }
}

/// Flags string-literal environment filters outside the fallback
/// lambda of an environment-based initializer.
#[derive(Debug, Clone)]
pub struct TracingEnvInit {
    /// Severity of the findings.
    pub severity: Severity,
}

impl TracingEnvInit {
    /// Creates a new rule with warning severity.
    pub fn new() -> (r: TracingEnvInit)
        ensures
            r.severity == Severity::Warning,
    {
        TracingEnvInit { severity: Severity::Warning }
    }

    /// Sets the severity level.
    pub fn severity(self, severity: Severity) -> (r: TracingEnvInit)
        ensures
            r.severity == severity,
    {
        TracingEnvInit { severity }
    }
}

/// The message of an environment-filter finding, naming the literal
/// level it was built from.
pub open spec fn env_filter_message(level: Seq<char>) -> Seq<char> {
    "Environment filter built from string literal \""@ + level
        + "\"; prefer reading the environment with a fallback"@
}

/// What the environment-filter rule decides for one string-literal
/// constructor site: nothing inside the fallback lambda of an
/// environment-based initializer or in an allowed context, otherwise a
/// finding subject to the allow directives.
pub open spec fn spec_env_filter_site(
    rule: TracingEnvInit,
    content: Seq<char>,
    rel: Seq<char>,
    level: Seq<char>,
    line: nat,
    column: nat,
    in_fallback_context: bool,
    in_allowed_context: bool,
) -> Seq<VioModel> {
    if in_fallback_context || in_allowed_context {
        Seq::empty()
    } else {
        spec_suppressible_site(
            "AL007"@,
            "tracing-env-init"@,
            rule.severity,
            content,
            rel,
            line,
            column,
            env_filter_message(level),
        )
    }
}

impl TracingEnvInit {
    /// Decides one string-literal filter-constructor site: exempt
    /// inside the fallback lambda of an environment-based initializer
    /// and in allowed contexts, flagged anywhere else, honoring the
    /// allow directives on or above the line.
    pub fn check_env_filter_site(
        &self,
        content: &str,
        relative_path: &str,
        level: &str,
        line: usize,
        column: usize,
        in_fallback_context: bool,
        in_allowed_context: bool,
    ) -> (r: Vec<Violation>)
        requires
            column < usize::MAX,
        ensures
            r@.map_values(|v: Violation| vmodel(v)) == spec_env_filter_site(
                *self,
                content@,
                relative_path@,
                level@,
                line as nat,
                column as nat,
                in_fallback_context,
                in_allowed_context,
            ),
    {
        let ghost m = |v: Violation| vmodel(v);
        if in_fallback_context || in_allowed_context {
            let out: Vec<Violation> = Vec::new();
            proof {
                assert(out@.map_values(m) =~= Seq::<VioModel>::empty());
            }
            return out;
        }
        let mut msg = "Environment filter built from string literal \"".to_owned();
        msg.append(level);
        msg.append("\"; prefer reading the environment with a fallback");
        proof {
            assert(msg@ =~= env_filter_message(level@));
        }
        emit_suppressible_site(
            "AL007",
            "tracing-env-init",
            self.severity,
            content,
            relative_path,
            line,
            column,
            msg,
        )
    }
}

/// Flags macro invocations of discouraged logging crates.
#[derive(Debug, Clone)]
pub struct RequireTracing {
    /// Severity of the findings.
    pub severity: Severity,
}

impl RequireTracing {
    /// Creates a new rule with warning severity.
    pub fn new() -> (r: RequireTracing)
        ensures
            r.severity == Severity::Warning,
    {
        RequireTracing { severity: Severity::Warning }
    }

    /// Sets the severity level.
    pub fn severity(self, severity: Severity) -> (r: RequireTracing)
        ensures
            r.severity == severity,
    {
        RequireTracing { severity }
    }
}

/// The outcome of one suppressible finding site: the missing-reason
/// notice when a covering directive lacks its required reason, nothing
/// when it has one, and the finding itself when nothing covers the
/// site.
pub open spec fn spec_suppressible_site(
    code: Seq<char>,
    name: Seq<char>,
    severity: Severity,
    content: Seq<char>,
    rel: Seq<char>,
    line: nat,
    column: nat,
    message: Seq<char>,
) -> Seq<VioModel> {
    match spec_check_allow(content, line as int, name) {
        Some(reason) => if severity == Severity::Error && reason is None {
            seq![missing_reason_model(code, name, rel, line, column)]
        } else {
            Seq::empty()
        },
        None => seq![(code, name, severity, rel, line, column + 1, message, None, None)],
    }
}

/// Emits one suppressible finding, honoring allow directives on the
/// site's line or the line before, with the mandatory-reason policy
/// for error-severity rules.
pub fn emit_suppressible_site(
    code: &str,
    name: &str,
    severity: Severity,
    content: &str,
    relative_path: &str,
    line: usize,
    column: usize,
    message: String,
) -> (r: Vec<Violation>)
    requires
        column < usize::MAX,
    ensures
        r@.map_values(|v: Violation| vmodel(v)) == spec_suppressible_site(
            code@,
            name@,
            severity,
            content@,
            relative_path@,
            line as nat,
            column as nat,
            message@,
        ),
{
    let ghost m = |v: Violation| vmodel(v);
    let mut out: Vec<Violation> = Vec::new();
    proof {
        assert(out@.map_values(m) =~= Seq::<VioModel>::empty());
    }
    match check_allow_with_reason(content, line, name) {
        AllowCheck::Allowed { reason } => {
            let reason_missing = match &reason {
                Some(_) => false,
                None => true,
            };
            let requires_reason = match severity {
                Severity::Error => true,
                _ => false,
            };
            if requires_reason && reason_missing {
                let mut msg = "Allow directive for '".to_owned();
                msg.append(name);
                msg.append("' is missing required reason");
                let v = Violation::new(
                    code.to_owned(),
                    name.to_owned(),
                    Severity::Warning,
                    Location::new(relative_path.to_owned(), line, column + 1),
                    msg,
                ).with_suggestion(
                    Suggestion::new(
                        "Add reason=\"...\" to explain why this exception is necessary".to_owned(),
                    ),
                );
                out.push(v);
                proof {
                    assert(out@.map_values(m) =~= Seq::<VioModel>::empty().push(
                        missing_reason_model(
                            code@,
                            name@,
                            relative_path@,
                            line as nat,
                            column as nat,
                        ),
                    ));
                }
            }
            out
        },
        AllowCheck::Denied => {
            let v = Violation::new(
                code.to_owned(),
                name.to_owned(),
                severity,
                Location::new(relative_path.to_owned(), line, column + 1),
                message,
            );
            out.push(v);
            proof {
                assert(out@.map_values(m) =~= spec_suppressible_site(
                    code@,
                    name@,
                    severity,
                    content@,
                    relative_path@,
                    line as nat,
                    column as nat,
                    v.message@,
                ));
            }
            out
        },
    }
}

/// A panic-family macro name: `panic`, `todo`, `unimplemented`, or
/// `unreachable`.
pub open spec fn is_panic_macro(path: Seq<char>) -> bool {
    path == "panic"@ || path == "todo"@ || path == "unimplemented"@ || path == "unreachable"@
}

/// What the panic rule decides for one macro site.
pub open spec fn spec_panic_site(
    rule: NoPanicInLib,
    content: Seq<char>,
    rel: Seq<char>,
    path: Seq<char>,
    line: nat,
    column: nat,
    in_test_context: bool,
    in_allowed_context: bool,
) -> Seq<VioModel> {
    if rule.allow_in_tests && in_test_context {
        Seq::empty()
    } else if in_allowed_context {
        Seq::empty()
    } else if is_panic_macro(path) {
        spec_suppressible_site(
            "AL011"@,
            "no-panic-in-lib"@,
            rule.severity,
            content,
            rel,
            line,
            column,
            "`"@ + path + "!` is forbidden outside test code"@,
        )
    } else {
        Seq::empty()
    }
}

impl NoPanicInLib {
    /// Decides one macro invocation site: panic-family macros are
    /// flagged outside test and allowed contexts.
    pub fn check_macro_site(
        &self,
        content: &str,
        relative_path: &str,
        path: &str,
        line: usize,
        column: usize,
        in_test_context: bool,
        in_allowed_context: bool,
    ) -> (r: Vec<Violation>)
        requires
            column < usize::MAX,
        ensures
            r@.map_values(|v: Violation| vmodel(v)) == spec_panic_site(
                *self,
                content@,
                relative_path@,
                path@,
                line as nat,
                column as nat,
                in_test_context,
                in_allowed_context,
            ),
    {
        let ghost m = |v: Violation| vmodel(v);
        let empty: Vec<Violation> = Vec::new();
        proof {
            assert(empty@.map_values(m) =~= Seq::<VioModel>::empty());
        }
        if self.allow_in_tests && in_test_context {
            return empty;
        }
        if in_allowed_context {
            return empty;
        }
        let hit = str_eq(path, "panic") || str_eq(path, "todo") || str_eq(path, "unimplemented")
            || str_eq(path, "unreachable");
        if !hit {
            return empty;
        }
        let mut msg = "`".to_owned();
        msg.append(path);
        msg.append("!` is forbidden outside test code");
        emit_suppressible_site(
            "AL011",
            "no-panic-in-lib",
            self.severity,
            content,
            relative_path,
            line,
            column,
            msg,
        )
    }
}

/// The synchronous file-system calls the I/O rule forbids.
pub open spec fn forbidden_fs_calls() -> Seq<Seq<char>> {
    seq![
        "std::fs::read"@,
        "std::fs::read_to_string"@,
        "std::fs::write"@,
        "std::fs::copy"@,
        "std::fs::create_dir"@,
        "std::fs::create_dir_all"@,
        "std::fs::remove_file"@,
        "std::fs::remove_dir"@,
        "std::fs::remove_dir_all"@,
        "std::fs::rename"@,
        "std::fs::metadata"@,
        "std::fs::symlink_metadata"@,
        "std::fs::canonicalize"@,
        "std::fs::read_link"@,
        "std::fs::read_dir"@,
        "std::fs::File::open"@,
        "std::fs::File::create"@,
    ]
}

/// Whether a call path is one of the forbidden file-system calls.
fn is_forbidden_fs_call(path: &str) -> (r: bool)
    ensures
        r == crate::arch_config::names_contain(forbidden_fs_calls(), path@),
{
    let hit = str_eq(path, "std::fs::read") || str_eq(path, "std::fs::read_to_string")
        || str_eq(path, "std::fs::write") || str_eq(path, "std::fs::copy") || str_eq(
        path,
        "std::fs::create_dir",
    ) || str_eq(path, "std::fs::create_dir_all") || str_eq(path, "std::fs::remove_file")
        || str_eq(path, "std::fs::remove_dir") || str_eq(path, "std::fs::remove_dir_all")
        || str_eq(path, "std::fs::rename") || str_eq(path, "std::fs::metadata") || str_eq(
        path,
        "std::fs::symlink_metadata",
    ) || str_eq(path, "std::fs::canonicalize") || str_eq(path, "std::fs::read_link") || str_eq(
        path,
        "std::fs::read_dir",
    ) || str_eq(path, "std::fs::File::open") || str_eq(path, "std::fs::File::create");
    proof {
        let fs = forbidden_fs_calls();
        if hit {
            assert(crate::arch_config::names_contain(fs, path@)) by {
                if path@ == fs[0] {
                } else if path@ == fs[1] {
                } else if path@ == fs[2] {
                } else if path@ == fs[3] {
                } else if path@ == fs[4] {
                } else if path@ == fs[5] {
                } else if path@ == fs[6] {
                } else if path@ == fs[7] {
                } else if path@ == fs[8] {
                } else if path@ == fs[9] {
                } else if path@ == fs[10] {
                } else if path@ == fs[11] {
                } else if path@ == fs[12] {
                } else if path@ == fs[13] {
                } else if path@ == fs[14] {
                } else if path@ == fs[15] {
                } else {
                    assert(path@ == fs[16]);
                }
            }
        } else {
            assert(!crate::arch_config::names_contain(fs, path@)) by {
                assert forall|i: int| 0 <= i < fs.len() implies fs[i] != path@ by {}
            }
        }
    }
    hit
}

/// What the synchronous I/O rule decides for one call site.
pub open spec fn spec_sync_io_site(
    rule: NoSyncIo,
    content: Seq<char>,
    rel: Seq<char>,
    path: Seq<char>,
    line: nat,
    column: nat,
) -> Seq<VioModel> {
    if exists|i: int|
        0 <= i < rule.allow_patterns@.len() && is_prefix(
            (#[trigger] rule.allow_patterns@[i])@,
            path,
        ) {
        Seq::empty()
    } else if crate::arch_config::names_contain(forbidden_fs_calls(), path) {
        spec_suppressible_site(
            "AL002"@,
            "no-sync-io"@,
            rule.severity,
            content,
            rel,
            line,
            column,
            "synchronous I/O call `"@ + path + "`"@,
        )
    } else {
        Seq::empty()
    }
}

impl NoSyncIo {
    /// Decides one call site: forbidden file-system calls are flagged
    /// unless the path starts with an allowed async alternative.
    pub fn check_call_site(
        &self,
        content: &str,
        relative_path: &str,
        path: &str,
        line: usize,
        column: usize,
    ) -> (r: Vec<Violation>)
        requires
            column < usize::MAX,
        ensures
            r@.map_values(|v: Violation| vmodel(v)) == spec_sync_io_site(
                *self,
                content@,
                relative_path@,
                path@,
                line as nat,
                column as nat,
            ),
    {
        let ghost m = |v: Violation| vmodel(v);
        let empty: Vec<Violation> = Vec::new();
        proof {
            assert(empty@.map_values(m) =~= Seq::<VioModel>::empty());
        }
        if self.is_allowed_path(path) {
            return empty;
        }
        if !is_forbidden_fs_call(path) {
            return empty;
        }
        let mut msg = "synchronous I/O call `".to_owned();
        msg.append(path);
        msg.append("`");
        emit_suppressible_site(
            "AL002",
            "no-sync-io",
            self.severity,
            content,
            relative_path,
            line,
            column,
            msg,
        )
    }
}

/// What the silent-drop rule decides for one method-call site.
pub open spec fn spec_silent_drop_site(
    rule: NoSilentResultDrop,
    content: Seq<char>,
    rel: Seq<char>,
    method: Seq<char>,
    line: nat,
    column: nat,
    in_test_context: bool,
) -> Seq<VioModel> {
    if rule.allow_in_tests && in_test_context {
        Seq::empty()
    } else if method == "unwrap_or"@ || method == "unwrap_or_default"@ || method
        == "unwrap_or_else"@ || (method == "ok"@ && !rule.allow_ok) {
        spec_suppressible_site(
            "AL013"@,
            "no-silent-result-drop"@,
            rule.severity,
            content,
            rel,
            line,
            column,
            "`."@ + method + "()` silently discards the error"@,
        )
    } else {
        Seq::empty()
    }
}

impl NoSilentResultDrop {
    /// Decides one method-call site: the `unwrap_or` family and,
    /// unless allowed, `.ok()` are flagged.
    pub fn check_method_site(
        &self,
        content: &str,
        relative_path: &str,
        method: &str,
        line: usize,
        column: usize,
        in_test_context: bool,
    ) -> (r: Vec<Violation>)
        requires
            column < usize::MAX,
        ensures
            r@.map_values(|v: Violation| vmodel(v)) == spec_silent_drop_site(
                *self,
                content@,
                relative_path@,
                method@,
                line as nat,
                column as nat,
                in_test_context,
            ),
    {
        let ghost m = |v: Violation| vmodel(v);
        let empty: Vec<Violation> = Vec::new();
        proof {
            assert(empty@.map_values(m) =~= Seq::<VioModel>::empty());
        }
        if self.allow_in_tests && in_test_context {
            return empty;
        }
        let hit = str_eq(method, "unwrap_or") || str_eq(method, "unwrap_or_default") || str_eq(
            method,
            "unwrap_or_else",
        ) || (str_eq(method, "ok") && !self.allow_ok);
        if !hit {
            return empty;
        }
        let mut msg = "`.".to_owned();
        msg.append(method);
        msg.append("()` silently discards the error");
        emit_suppressible_site(
            "AL013",
            "no-silent-result-drop",
            self.severity,
            content,
            relative_path,
            line,
            column,
            msg,
        )
    }

    /// Decides one `let _ =` binding site: flagged unless the rule
    /// allows such bindings or the context is a test.
    pub fn check_let_underscore_site(
        &self,
        content: &str,
        relative_path: &str,
        line: usize,
        column: usize,
        in_test_context: bool,
    ) -> (r: Vec<Violation>)
        requires
            column < usize::MAX,
        ensures
            r@.map_values(|v: Violation| vmodel(v)) == if (self.allow_in_tests
                && in_test_context) || self.allow_let_underscore {
                Seq::<VioModel>::empty()
            } else {
                spec_suppressible_site(
                    "AL013"@,
                    "no-silent-result-drop"@,
                    self.severity,
                    content@,
                    relative_path@,
                    line as nat,
                    column as nat,
                    "`let _ =` silently discards the value"@,
                )
            },
    {
        let ghost m = |v: Violation| vmodel(v);
        let empty: Vec<Violation> = Vec::new();
        proof {
            assert(empty@.map_values(m) =~= Seq::<VioModel>::empty());
        }
        if (self.allow_in_tests && in_test_context) || self.allow_let_underscore {
            return empty;
        }
        emit_suppressible_site(
            "AL013",
            "no-silent-result-drop",
            self.severity,
            content,
            relative_path,
            line,
            column,
            "`let _ =` silently discards the value".to_owned(),
        )
    }
}

impl PreferFromOverInto {
    /// Decides one `impl Into` site: every such block is flagged,
    /// subject to the allow directives.
    pub fn check_impl_site(
        &self,
        content: &str,
        relative_path: &str,
        line: usize,
        column: usize,
    ) -> (r: Vec<Violation>)
        requires
            column < usize::MAX,
        ensures
            r@.map_values(|v: Violation| vmodel(v)) == spec_suppressible_site(
                "AL010"@,
                "prefer-from-over-into"@,
                self.severity,
                content@,
                relative_path@,
                line as nat,
                column as nat,
                "Implement `From` instead of `Into`; `From` gives `Into` for free"@,
            ),
    {
        emit_suppressible_site(
            "AL010",
            "prefer-from-over-into",
            self.severity,
            content,
            relative_path,
            line,
            column,
            "Implement `From` instead of `Into`; `From` gives `Into` for free".to_owned(),
        )
    }
}

impl RequireThiserror {
    /// Decides one type-declaration site: a type whose name carries an
    /// error suffix and lacks an error-derivation attribute is
    /// flagged. The suppression scan starts at the earliest attribute
    /// line, so directives above the attribute stack are honored.
    pub fn check_type_site(
        &self,
        content: &str,
        relative_path: &str,
        ty_name: &str,
        first_attr_line: usize,
        column: usize,
        has_error_derive: bool,
    ) -> (r: Vec<Violation>)
        requires
            column < usize::MAX,
        ensures
            r@.map_values(|v: Violation| vmodel(v)) == if (exists|i: int|
                0 <= i < self.patterns@.len() && is_suffix(
                    (#[trigger] self.patterns@[i])@,
                    ty_name@,
                )) && !has_error_derive {
                spec_suppressible_site(
                    "AL005"@,
                    "require-thiserror"@,
                    self.severity,
                    content@,
                    relative_path@,
                    first_attr_line as nat,
                    column as nat,
                    "`"@ + ty_name@ + "` lacks an error-derivation attribute"@,
                )
            } else {
                Seq::<VioModel>::empty()
            },
    {
        let ghost m = |v: Violation| vmodel(v);
        let empty: Vec<Violation> = Vec::new();
        proof {
            assert(empty@.map_values(m) =~= Seq::<VioModel>::empty());
        }
        if !self.is_error_type(ty_name) || has_error_derive {
            return empty;
        }
        let mut msg = "`".to_owned();
        msg.append(ty_name);
        msg.append("` lacks an error-derivation attribute");
        emit_suppressible_site(
            "AL005",
            "require-thiserror",
            self.severity,
            content,
            relative_path,
            first_attr_line,
            column,
            msg,
        )
    }
}

impl AsyncTraitSendCheck {
    /// Decides one trait-declaration site: on a single-threaded
    /// runtime, an async-trait annotation without the `?Send` opt-out
    /// is flagged, honoring the allow directives on or above the line.
    pub fn check_trait_site(
        &self,
        content: &str,
        relative_path: &str,
        trait_name: &str,
        line: usize,
        column: usize,
        has_async_trait_attr: bool,
        has_send_opt_out: bool,
        in_allowed_context: bool,
    ) -> (r: Vec<Violation>)
        requires
            column < usize::MAX,
        ensures
            r@.map_values(|v: Violation| vmodel(v)) == if self.runtime_mode
                == RuntimeMode::SingleThread && has_async_trait_attr && !has_send_opt_out
                && !in_allowed_context {
                spec_suppressible_site(
                    "AL009"@,
                    "async-trait-send-check"@,
                    self.severity,
                    content@,
                    relative_path@,
                    line as nat,
                    column as nat,
                    "`"@ + trait_name@
                        + "` is annotated async without the `?Send` opt-out on a single-threaded runtime"@,
                )
            } else {
                Seq::<VioModel>::empty()
            },
    {
        let ghost m = |v: Violation| vmodel(v);
        let single = match self.runtime_mode {
            RuntimeMode::SingleThread => true,
            RuntimeMode::MultiThread => false,
        };
        if !(single && has_async_trait_attr && !has_send_opt_out) || in_allowed_context {
            let out: Vec<Violation> = Vec::new();
            proof {
                assert(out@.map_values(m) =~= Seq::<VioModel>::empty());
            }
            return out;
        }
        let mut msg = "`".to_owned();
        msg.append(trait_name);
        msg.append("` is annotated async without the `?Send` opt-out on a single-threaded runtime");
        emit_suppressible_site(
            "AL009",
            "async-trait-send-check",
            self.severity,
            content,
            relative_path,
            line,
            column,
            msg,
        )
    }
}

/// Suppression is honored everywhere the shared site decision is used:
/// when a covering allow directive stands on the line or the one
/// before, the finding itself is never emitted; at most the
/// missing-reason notice is.
pub proof fn lemma_suppressible_site_honored(
    code: Seq<char>,
    name: Seq<char>,
    severity: Severity,
    content: Seq<char>,
    rel: Seq<char>,
    line: nat,
    column: nat,
    message: Seq<char>,
)
    requires
        spec_check_allow(content, line as int, name) is Some,
    ensures
        ({
            let r = spec_suppressible_site(code, name, severity, content, rel, line, column, message);
            r.len() <= 1 && (r.len() == 1 ==> r[0] == missing_reason_model(
                code,
                name,
                rel,
                line,
                column,
            ))
        }),
{
}

/// One fact about a statement of an error-handling arm: a logging
/// macro invocation, a bare `return ()`, or anything else.
#[derive(Debug, Clone)]
pub enum StmtFact {
    /// A macro invocation whose path is an enumerated logging macro.
    LoggingMacro {
        /// The macro path as written.
        path: String,
    },
    /// A bare `return` or `return ()`.
    BareReturnUnit,
    /// Any other statement.
    Other,
}

/// An enumerated logging macro path: a plain logging macro name or one
/// qualified under the common logging crates.
pub open spec fn is_logging_macro_path(path: Seq<char>) -> bool {
    ||| path == "error"@
    ||| path == "warn"@
    ||| path == "info"@
    ||| path == "debug"@
    ||| path == "trace"@
    ||| path == "log::error"@
    ||| path == "log::warn"@
    ||| path == "log::info"@
    ||| path == "log::debug"@
    ||| path == "log::trace"@
    ||| path == "tracing::error"@
    ||| path == "tracing::warn"@
    ||| path == "tracing::info"@
    ||| path == "tracing::debug"@
    ||| path == "tracing::trace"@
    ||| path == "println"@
    ||| path == "eprintln"@
}

/// Whether a macro path is an enumerated logging macro.
pub fn is_logging_macro(path: &str) -> (r: bool)
    ensures
        r == is_logging_macro_path(path@),
{
    str_eq(path, "error") || str_eq(path, "warn") || str_eq(path, "info") || str_eq(
        path,
        "debug",
    ) || str_eq(path, "trace") || str_eq(path, "log::error") || str_eq(path, "log::warn")
        || str_eq(path, "log::info") || str_eq(path, "log::debug") || str_eq(path, "log::trace")
        || str_eq(path, "tracing::error") || str_eq(path, "tracing::warn") || str_eq(
        path,
        "tracing::info",
    ) || str_eq(path, "tracing::debug") || str_eq(path, "tracing::trace") || str_eq(
        path,
        "println",
    ) || str_eq(path, "eprintln")
}

/// A statement fact is harmless swallowing: a logging macro or a bare
/// `return ()`.
pub open spec fn is_swallowing_stmt(f: StmtFact) -> bool {
    match f {
        StmtFact::LoggingMacro { path } => is_logging_macro_path(path@),
        StmtFact::BareReturnUnit => true,
        StmtFact::Other => false,
    }
}

/// An arm's body swallows the error: it is non-empty and every
/// statement only logs or returns unit.
pub open spec fn spec_arm_swallows(stmts: Seq<StmtFact>) -> bool {
    stmts.len() > 0 && forall|i: int| 0 <= i < stmts.len() ==> is_swallowing_stmt(#[trigger] stmts[i])
}

/// What the error-swallowing rule decides for one `Err` arm or
/// `if let Err` body, given the facts about its statements.
pub open spec fn spec_error_swallow_site(
    rule: NoErrorSwallowing,
    content: Seq<char>,
    rel: Seq<char>,
    line: nat,
    column: nat,
    stmts: Seq<StmtFact>,
    in_test_context: bool,
) -> Seq<VioModel> {
    if in_test_context {
        Seq::empty()
    } else if spec_arm_swallows(stmts) {
        spec_suppressible_site(
            "AL003"@,
            "no-error-swallowing"@,
            rule.severity,
            content,
            rel,
            line,
            column,
            "the error is only logged and then dropped; handle or propagate it"@,
        )
    } else {
        Seq::empty()
    }
}

impl NoErrorSwallowing {
    /// Decides one error-handling arm: an arm whose body consists
    /// solely of logging macros and bare `return ()` is flagged,
    /// honoring the allow directives on or above the line.
    pub fn check_err_arm_site(
        &self,
        content: &str,
        relative_path: &str,
        line: usize,
        column: usize,
        stmts: &Vec<StmtFact>,
        in_test_context: bool,
    ) -> (r: Vec<Violation>)
        requires
            column < usize::MAX,
        ensures
            r@.map_values(|v: Violation| vmodel(v)) == spec_error_swallow_site(
                *self,
                content@,
                relative_path@,
                line as nat,
                column as nat,
                stmts@,
                in_test_context,
            ),
    {
        let ghost m = |v: Violation| vmodel(v);
        if in_test_context {
            let out: Vec<Violation> = Vec::new();
            proof {
                assert(out@.map_values(m) =~= Seq::<VioModel>::empty());
            }
            return out;
        }
        let n = stmts.len();
        if n == 0 {
            let out: Vec<Violation> = Vec::new();
            proof {
                assert(!spec_arm_swallows(stmts@));
                assert(out@.map_values(m) =~= Seq::<VioModel>::empty());
            }
            return out;
        }
        let mut i: usize = 0;
        while i < n
            invariant
                0 <= i <= n,
                n == stmts@.len(),
                forall|j: int| 0 <= j < i ==> is_swallowing_stmt(#[trigger] stmts@[j]),
            decreases n - i,
        {
            let harmless = match &stmts[i] {
                StmtFact::LoggingMacro { path } => is_logging_macro(path.as_str()),
                StmtFact::BareReturnUnit => true,
                StmtFact::Other => false,
            };
            if !harmless {
                let out: Vec<Violation> = Vec::new();
                proof {
                    assert(!is_swallowing_stmt(stmts@[i as int]));
                    assert(!spec_arm_swallows(stmts@));
                    assert(out@.map_values(m) =~= Seq::<VioModel>::empty());
                }
                return out;
            }
            i = i + 1;
        }
        emit_suppressible_site(
            "AL003",
            "no-error-swallowing",
            self.severity,
            content,
            relative_path,
            line,
            column,
            "the error is only logged and then dropped; handle or propagate it".to_owned(),
        )
    }
}

impl HandlerComplexity {
    /// Decides one function site: a handler-named function whose body
    /// exceeds the line budget is flagged, honoring the allow
    /// directives on or above the line.
    pub fn check_handler_site(
        &self,
        content: &str,
        relative_path: &str,
        fn_name: &str,
        body_lines: usize,
        line: usize,
        column: usize,
    ) -> (r: Vec<Violation>)
        requires
            column < usize::MAX,
        ensures
            r@.map_values(|v: Violation| vmodel(v)) == if (crate::strutil::is_prefix(
                "handle_"@,
                fn_name@,
            ) || crate::strutil::is_prefix("process_"@, fn_name@) || crate::strutil::is_prefix(
                "on_"@,
                fn_name@,
            ) || crate::strutil::is_prefix("update"@, fn_name@)) && body_lines
                > self.config.max_handler_lines {
                spec_suppressible_site(
                    "AL004"@,
                    "handler-complexity"@,
                    self.severity,
                    content@,
                    relative_path@,
                    line as nat,
                    column as nat,
                    "handler `"@ + fn_name@ + "` exceeds the line budget"@,
                )
            } else {
                Seq::<VioModel>::empty()
            },
    {
        let ghost m = |v: Violation| vmodel(v);
        if !is_handler_function(fn_name) || body_lines <= self.config.max_handler_lines {
            let out: Vec<Violation> = Vec::new();
            proof {
                assert(out@.map_values(m) =~= Seq::<VioModel>::empty());
            }
            return out;
        }
        let mut msg = "handler `".to_owned();
        msg.append(fn_name);
        msg.append("` exceeds the line budget");
        emit_suppressible_site(
            "AL004",
            "handler-complexity",
            self.severity,
            content,
            relative_path,
            line,
            column,
            msg,
        )
    }

    /// Decides one match-expression site: a match with more arms than
    /// the budget is flagged.
    pub fn check_match_site(
        &self,
        content: &str,
        relative_path: &str,
        arm_count: usize,
        line: usize,
        column: usize,
    ) -> (r: Vec<Violation>)
        requires
            column < usize::MAX,
        ensures
            r@.map_values(|v: Violation| vmodel(v)) == if arm_count > self.config.max_match_arms {
                spec_suppressible_site(
                    "AL004"@,
                    "handler-complexity"@,
                    self.severity,
                    content@,
                    relative_path@,
                    line as nat,
                    column as nat,
                    "match expression exceeds the arm budget"@,
                )
            } else {
                Seq::<VioModel>::empty()
            },
    {
        let ghost m = |v: Violation| vmodel(v);
        if arm_count <= self.config.max_match_arms {
            let out: Vec<Violation> = Vec::new();
            proof {
                assert(out@.map_values(m) =~= Seq::<VioModel>::empty());
            }
            return out;
        }
        emit_suppressible_site(
            "AL004",
            "handler-complexity",
            self.severity,
            content,
            relative_path,
            line,
            column,
            "match expression exceeds the arm budget".to_owned(),
        )
    }

    /// Decides one enum site: an action-named enum with more variants
    /// than the budget is flagged.
    pub fn check_enum_site(
        &self,
        content: &str,
        relative_path: &str,
        enum_name: &str,
        variant_count: usize,
        line: usize,
        column: usize,
    ) -> (r: Vec<Violation>)
        requires
            column < usize::MAX,
        ensures
            r@.map_values(|v: Violation| vmodel(v)) == if (contains_seq(enum_name@, "Action"@)
                || contains_seq(enum_name@, "Message"@) || contains_seq(enum_name@, "Msg"@)
                || contains_seq(enum_name@, "Event"@) || contains_seq(enum_name@, "Command"@)
                || contains_seq(enum_name@, "Cmd"@)) && variant_count
                > self.config.max_enum_variants {
                spec_suppressible_site(
                    "AL004"@,
                    "handler-complexity"@,
                    self.severity,
                    content@,
                    relative_path@,
                    line as nat,
                    column as nat,
                    "action enum `"@ + enum_name@ + "` exceeds the variant budget"@,
                )
            } else {
                Seq::<VioModel>::empty()
            },
    {
        let ghost m = |v: Violation| vmodel(v);
        if !is_action_enum(enum_name) || variant_count <= self.config.max_enum_variants {
            let out: Vec<Violation> = Vec::new();
            proof {
                assert(out@.map_values(m) =~= Seq::<VioModel>::empty());
            }
            return out;
        }
        let mut msg = "action enum `".to_owned();
        msg.append(enum_name);
        msg.append("` exceeds the variant budget");
        emit_suppressible_site(
            "AL004",
            "handler-complexity",
            self.severity,
            content,
            relative_path,
            line,
            column,
            msg,
        )
    }
}

/// The kind of item the documentation rule looks at.
#[derive(Debug, Clone, Copy, PartialEq, Eq, Structural)]
pub enum DocItemKind {
    /// A function item.
    Function,
    /// A struct item.
    Struct,
    /// An enum item.
    Enum,
}

/// Whether the documentation rule requires docs for an item kind.
pub open spec fn doc_kind_required(rule: RequireDocComments, kind: DocItemKind) -> bool {
    match kind {
        DocItemKind::Function => rule.require_fn_docs,
        DocItemKind::Struct => rule.require_struct_docs,
        DocItemKind::Enum => rule.require_enum_docs,
    }
}

impl RequireDocComments {
    /// Decides one item site: a public function, struct, or enum
    /// without a doc attribute is flagged when its kind is required,
    /// honoring the allow directives on or above the line.
    pub fn check_item_doc_site(
        &self,
        content: &str,
        relative_path: &str,
        kind: DocItemKind,
        item_name: &str,
        is_public: bool,
        has_doc_attr: bool,
        line: usize,
        column: usize,
    ) -> (r: Vec<Violation>)
        requires
            column < usize::MAX,
        ensures
            r@.map_values(|v: Violation| vmodel(v)) == if doc_kind_required(*self, kind)
                && is_public && !has_doc_attr {
                spec_suppressible_site(
                    "AL012"@,
                    "require-doc-comments"@,
                    self.severity,
                    content@,
                    relative_path@,
                    line as nat,
                    column as nat,
                    "public item `"@ + item_name@ + "` lacks a doc comment"@,
                )
            } else {
                Seq::<VioModel>::empty()
            },
    {
        let ghost m = |v: Violation| vmodel(v);
        let required = match kind {
            DocItemKind::Function => self.require_fn_docs,
            DocItemKind::Struct => self.require_struct_docs,
            DocItemKind::Enum => self.require_enum_docs,
        };
        if !required || !is_public || has_doc_attr {
            let out: Vec<Violation> = Vec::new();
            proof {
                assert(out@.map_values(m) =~= Seq::<VioModel>::empty());
            }
            return out;
        }
        let mut msg = "public item `".to_owned();
        msg.append(item_name);
        msg.append("` lacks a doc comment");
        emit_suppressible_site(
            "AL012",
            "require-doc-comments",
            self.severity,
            content,
            relative_path,
            line,
            column,
            msg,
        )
    }
}

/// The `Path` membership and canonicalization methods the I/O rule
/// forbids.
pub open spec fn is_forbidden_path_method(method: Seq<char>) -> bool {
    ||| method == "exists"@
    ||| method == "is_file"@
    ||| method == "is_dir"@
    ||| method == "metadata"@
    ||| method == "read_dir"@
    ||| method == "canonicalize"@
}

impl NoSyncIo {
    /// Decides one method-call site: the `Path` membership and
    /// canonicalization methods are flagged, honoring the allow
    /// directives on or above the line.
    pub fn check_method_site(
        &self,
        content: &str,
        relative_path: &str,
        method: &str,
        line: usize,
        column: usize,
    ) -> (r: Vec<Violation>)
        requires
            column < usize::MAX,
        ensures
            r@.map_values(|v: Violation| vmodel(v)) == if is_forbidden_path_method(method@) {
                spec_suppressible_site(
                    "AL002"@,
                    "no-sync-io"@,
                    self.severity,
                    content@,
                    relative_path@,
                    line as nat,
                    column as nat,
                    "synchronous path operation `."@ + method@ + "()`"@,
                )
            } else {
                Seq::<VioModel>::empty()
            },
    {
        let ghost m = |v: Violation| vmodel(v);
        let hit = str_eq(method, "exists") || str_eq(method, "is_file") || str_eq(
            method,
            "is_dir",
        ) || str_eq(method, "metadata") || str_eq(method, "read_dir") || str_eq(
            method,
            "canonicalize",
        );
        if !hit {
            let out: Vec<Violation> = Vec::new();
            proof {
                assert(out@.map_values(m) =~= Seq::<VioModel>::empty());
            }
            return out;
        }
        let mut msg = "synchronous path operation `.".to_owned();
        msg.append(method);
        msg.append("()`");
        emit_suppressible_site(
            "AL002",
            "no-sync-io",
            self.severity,
            content,
            relative_path,
            line,
            column,
            msg,
        )
    }
}

/// Whether a rendered derive attribute names `Error` among its
/// derived traits, the error-type rule's detection heuristic.
pub fn derive_names_error(rendered: &str) -> (r: bool)
    ensures
        r == contains_seq(rendered@, "Error"@),
{
    contains_str(rendered, "Error")
}

/// Whether an attribute's trailing path segment is the async-trait
/// annotation.
pub fn is_async_trait_attr(last_segment: &str) -> (r: bool)
    ensures
        r == (last_segment@ == "async_trait"@),
{
    str_eq(last_segment, "async_trait")
}

/// Whether a rendered async-trait annotation opts out of `Send`, in
/// either spelling the renderer produces.
pub fn has_send_opt_out(rendered: &str) -> (r: bool)
    ensures
        r == (contains_seq(rendered@, "?Send"@) || contains_seq(rendered@, "? Send"@)),
{
    contains_str(rendered, "?Send") || contains_str(rendered, "? Send")
}

/// Whether an implemented trait's trailing path segment is `Into`.
pub fn is_into_trait(last_segment: &str) -> (r: bool)
    ensures
        r == (last_segment@ == "Into"@),
{
    str_eq(last_segment, "Into")
}

/// Whether a call path names an environment-filter constructor: a
/// `new` on a filter type.
pub fn is_env_ctor_path(first_segment: &str, last_segment: &str) -> (r: bool)
    ensures
        r == (last_segment@ == "new"@ && (first_segment@ == "EnvFilter"@ || first_segment@
            == "Env"@)),
{
    str_eq(last_segment, "new") && (str_eq(first_segment, "EnvFilter") || str_eq(
        first_segment,
        "Env",
    ))
}

/// Whether a call names the environment-based filter initializer whose
/// fallback closure is exempt from the literal-level finding.
pub fn is_env_init_name(name: &str) -> (r: bool)
    ensures
        r == (name@ == "try_from_default_env"@),
{
    str_eq(name, "try_from_default_env")
}

} // verus!
