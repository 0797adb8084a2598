//! Core types for lint violations and results.

use vstd::prelude::*;

verus! {

use crate::severity::{Severity, severity_at_least};
use crate::strutil::{
    dec_digits,
    fmt_usize,
    lex_le,
    lemma_lex_le_antisym,
    lemma_lex_le_total,
    lemma_lex_le_trans,
};

/// Source code location: a file path relative to the project root, a
/// 1-indexed line and column, and an optional byte span.
#[derive(Debug, Clone)]
pub struct Location {
    /// File path relative to project root.
    pub file: String,
    /// Line number (1-indexed).
    pub line: usize,
    /// Column number (1-indexed).
    pub column: usize,
    /// Byte offset in file.
    pub offset: usize,
    /// Length of the span in bytes.
    pub length: usize,
}

impl Location {
    /// Creates a new location with explicit values and an empty span.
    pub fn new(file: String, line: usize, column: usize) -> (r: Location)
        ensures
            r.file@ == file@,
            r.line == line,
            r.column == column,
            r.offset == 0,
            r.length == 0,
    {
        Location { file, line, column, offset: 0, length: 0 }
    }

    /// Sets the byte offset and length for this location.
    pub fn with_span(self, offset: usize, length: usize) -> (r: Location)
        ensures
            r.file@ == self.file@,
            r.line == self.line,
            r.column == self.column,
            r.offset == offset,
            r.length == length,
    {
        Location { offset, length, ..self }
    }
}

/// A labeled span for additional context in violations.
#[derive(Debug, Clone)]
pub struct Label {
    /// Location of the label.
    pub location: Location,
    /// Message for this label.
    pub message: String,
}

impl Label {
    /// Creates a new label.
    pub fn new(location: Location, message: String) -> (r: Label)
        ensures
            r.location == location,
            r.message@ == message@,
    {
        Label { location, message }
    }
}

/// An automatic code replacement.
#[derive(Debug, Clone)]
pub struct Replacement {
    /// Location to replace.
    pub location: Location,
    /// New text to insert.
    pub new_text: String,
}

impl Replacement {
    /// Creates a new replacement.
    pub fn new(location: Location, new_text: String) -> (r: Replacement)
        ensures
            r.location == location,
            r.new_text@ == new_text@,
    {
        Replacement { location, new_text }
    }
}

/// A suggested fix for a violation.
#[derive(Debug, Clone)]
pub struct Suggestion {
    /// Human-readable description of the fix.
    pub message: String,
    /// Optional automatic replacement.
    pub replacement: Option<Replacement>,
}

impl Suggestion {
    /// Creates a new suggestion without automatic fix.
    pub fn new(message: String) -> (r: Suggestion)
        ensures
            r.message@ == message@,
            r.replacement is None,
    {
        Suggestion { message, replacement: None }
    }

    /// Creates a new suggestion with automatic fix.
    pub fn with_fix(message: String, replacement: Replacement) -> (r: Suggestion)
        ensures
            r.message@ == message@,
            r.replacement is Some,
            r.replacement->0 == replacement,
    {
        Suggestion { message, replacement: Some(replacement) }
    }
}

/// A lint violation found during analysis.
#[derive(Debug, Clone)]
pub struct Violation {
    /// Rule code (e.g., `AL001`).
    pub code: String,
    /// Rule name (e.g., `no-unwrap-expect`).
    pub rule: String,
    /// Severity of this violation.
    pub severity: Severity,
    /// Primary location of the violation.
    pub location: Location,
    /// Human-readable message.
    pub message: String,
    /// Optional suggestion for fixing.
    pub suggestion: Option<Suggestion>,
    /// Additional labels for context.
    pub labels: Vec<Label>,
    /// Reference to a design document.
    pub doc_ref: Option<String>,
}

impl Violation {
    /// Creates a new violation with no suggestion, labels, or document
    /// reference.
    pub fn new(
        code: String,
        rule: String,
        severity: Severity,
        location: Location,
        message: String,
    ) -> (r: Violation)
        ensures
            r.code@ == code@,
            r.rule@ == rule@,
            r.severity == severity,
            r.location == location,
            r.message@ == message@,
            r.suggestion is None,
            r.labels@.len() == 0,
            r.doc_ref is None,
    {
        Violation {
            code,
            rule,
            severity,
            location,
            message,
            suggestion: None,
            labels: Vec::new(),
            doc_ref: None,
        }
    }

    /// Adds a design document reference to this violation.
    pub fn with_doc_ref(self, doc_ref: String) -> (r: Violation)
        ensures
            r == (Violation { doc_ref: Some(doc_ref), ..self }),
    {
        Violation { doc_ref: Some(doc_ref), ..self }
    }

    /// Adds a suggestion to this violation.
    pub fn with_suggestion(self, suggestion: Suggestion) -> (r: Violation)
        ensures
            r == (Violation { suggestion: Some(suggestion), ..self }),
    {
        Violation { suggestion: Some(suggestion), ..self }
    }

    /// Adds a label to this violation.
    pub fn with_label(self, label: Label) -> (r: Violation)
        ensures
            r.labels@ == self.labels@.push(label),
            r.code == self.code,
            r.rule == self.rule,
            r.severity == self.severity,
            r.location == self.location,
            r.message == self.message,
            r.suggestion == self.suggestion,
            r.doc_ref == self.doc_ref,
    {
        let mut labels = self.labels;
        labels.push(label);
        Violation { labels, ..self }
    }

    /// Formats the violation for terminal output.
    pub fn format(&self) -> (r: String)
        ensures
            r@ == spec_format_violation(self),
    {
        let mut out = self.code.clone();
        out.append(" ");
        out.append(self.rule.as_str());
        out.append(" at ");
        out.append(self.location.file.as_str());
        out.append(":");
        let line_s = fmt_usize(self.location.line);
        out.append(line_s.as_str());
        out.append(":");
        let col_s = fmt_usize(self.location.column);
        out.append(col_s.as_str());
        out.append("\n  ");
        out.append(self.severity.as_str());
        out.append(": ");
        out.append(self.message.as_str());
        out.append("\n");
        match &self.suggestion {
            Some(s) => {
                out.append("  = help: ");
                out.append(s.message.as_str());
                out.append("\n");
            },
            None => {},
        }
        match &self.doc_ref {
            Some(d) => {
                out.append("  = see: ");
                out.append(d.as_str());
                out.append("\n");
            },
            None => {},
        }
        proof {
            assert(out@ =~= spec_format_violation(self));
        }
        out
    }
}

/// The exact text of a formatted violation.
pub open spec fn spec_format_violation(v: &Violation) -> Seq<char> {
    let head = v.code@ + " "@ + v.rule@ + " at "@ + v.location.file@ + ":"@ + dec_digits(
        v.location.line as nat,
    ) + ":"@ + dec_digits(v.location.column as nat) + "\n  "@ + crate::severity::severity_name(
        v.severity,
    ) + ": "@ + v.message@ + "\n"@;
    let with_help = match v.suggestion {
        Some(s) => head + "  = help: "@ + s.message@ + "\n"@,
        None => head,
    };
    match v.doc_ref {
        Some(d) => with_help + "  = see: "@ + d@ + "\n"@,
        None => with_help,
    }
}

/// The mathematical content of a violation: code, rule, severity, file,
/// line, column, message, document reference, and suggestion message.
pub open spec fn vmodel(v: Violation) -> (
    Seq<char>,
    Seq<char>,
    Severity,
    Seq<char>,
    nat,
    nat,
    Seq<char>,
    Option<Seq<char>>,
    Option<Seq<char>>,
) {
    (
        v.code@,
        v.rule@,
        v.severity,
        v.location.file@,
        v.location.line as nat,
        v.location.column as nat,
        v.message@,
        match v.doc_ref {
            Some(d) => Some(d@),
            None => None,
        },
        match v.suggestion {
            Some(s) => Some(s.message@),
            None => None,
        },
    )
}

/// Sort key order on violations: by file path, then line, then column.
pub open spec fn violation_le(a: Violation, b: Violation) -> bool {
    if a.location.file@ != b.location.file@ {
        lex_le(a.location.file@, b.location.file@)
    } else if a.location.line != b.location.line {
        a.location.line < b.location.line
    } else {
        a.location.column <= b.location.column
    }
}

/// Violations ordered by (file, line, column), ascending.
pub open spec fn violations_sorted(s: Seq<Violation>) -> bool {
    forall|i: int, j: int| 0 <= i < j < s.len() ==> violation_le(#[trigger] s[i], #[trigger] s[j])
}

/// The violation order is total.
pub proof fn lemma_violation_le_total(a: Violation, b: Violation)
    ensures
        violation_le(a, b) || violation_le(b, a),
{
    lemma_lex_le_total(a.location.file@, b.location.file@);
}

/// The violation order is transitive.
pub proof fn lemma_violation_le_trans(a: Violation, b: Violation, c: Violation)
    requires
        violation_le(a, b),
        violation_le(b, c),
    ensures
        violation_le(a, c),
{
    let fa = a.location.file@;
    let fb = b.location.file@;
    let fc = c.location.file@;
    if fa != fb && fb != fc {
        lemma_lex_le_trans(fa, fb, fc);
        if fa == fc {
            // Then fb is both at most and at least fa, so fb == fa,
            // contradicting fa != fb.
            lemma_lex_le_antisym(fb, fc);
        }
    }
}

/// Whether a comparison function call decides `violation_le`.
pub fn violation_le_exec(a: &Violation, b: &Violation) -> (r: bool)
    ensures
        r == violation_le(*a, *b),
{
    if !crate::strutil::str_eq(a.location.file.as_str(), b.location.file.as_str()) {
        crate::strutil::str_le(a.location.file.as_str(), b.location.file.as_str())
    } else if a.location.line != b.location.line {
        a.location.line < b.location.line
    } else {
        a.location.column <= b.location.column
    }
}

/// Result of running lint analysis: the accumulated violations and the
/// number of files checked.
#[derive(Debug)]
pub struct LintResult {
    /// All violations found.
    pub violations: Vec<Violation>,
    /// Number of files checked.
    pub files_checked: usize,
}

/// Count of the violations in `s` whose severity is exactly `sev`.
pub open spec fn count_with_severity(s: Seq<Violation>, sev: Severity) -> nat {
    s.filter(|v: Violation| v.severity == sev).len()
}

/// Some violation in `s` has severity at least `sev`.
pub open spec fn any_at_least(s: Seq<Violation>, sev: Severity) -> bool {
    exists|i: int| 0 <= i < s.len() && severity_at_least((#[trigger] s[i]).severity, sev)
}

impl LintResult {
    /// Creates a new empty result.
    pub fn new() -> (r: LintResult)
        ensures
            r.violations@.len() == 0,
            r.files_checked == 0,
    {
        LintResult { violations: Vec::new(), files_checked: 0 }
    }

    /// Returns true if there are any errors.
    pub fn has_errors(&self) -> (r: bool)
        ensures
            r == any_at_least(self.violations@, Severity::Error),
    {
        self.has_violations_at(Severity::Error)
    }

    /// Returns true if there are any warnings or errors.
    pub fn has_warnings(&self) -> (r: bool)
        ensures
            r == any_at_least(self.violations@, Severity::Warning),
    {
        self.has_violations_at(Severity::Warning)
    }

    /// Checks if any violations meet or exceed the given severity threshold.
    pub fn has_violations_at(&self, severity: Severity) -> (r: bool)
        ensures
            r == any_at_least(self.violations@, severity),
    {
        let n = self.violations.len();
        let mut i: usize = 0;
        while i < n
            invariant
                0 <= i <= n,
                n == self.violations@.len(),
                forall|j: int|
                    0 <= j < i ==> !severity_at_least(
                        (#[trigger] self.violations@[j]).severity,
                        severity,
                    ),
            decreases n - i,
        {
            if self.violations[i].severity.at_least(severity) {
                return true;
            }
            i = i + 1;
        }
        false
    }

    /// Returns the violations having exactly the given severity, in their
    /// original order.
    pub fn by_severity<'a>(&'a self, severity: Severity) -> (r: Vec<&'a Violation>)
        ensures
            r@.map_values(|v: &Violation| *v) == self.violations@.filter(
                |v: Violation| v.severity == severity,
            ),
            forall|i: int| 0 <= i < r@.len() ==> (#[trigger] r@[i]).severity == severity,
    {
        let n = self.violations.len();
        let mut out: Vec<&'a Violation> = Vec::new();
        let mut i: usize = 0;
        while i < n
            invariant
                0 <= i <= n,
                n == self.violations@.len(),
                out@.map_values(|v: &Violation| *v) =~= self.violations@.subrange(
                    0,
                    i as int,
                ).filter(|v: Violation| v.severity == severity),
                forall|k: int| 0 <= k < out@.len() ==> (#[trigger] out@[k]).severity == severity,
            decreases n - i,
        {
            proof {
                lemma_filter_push(
                    self.violations@.subrange(0, i as int),
                    self.violations@[i as int],
                    |v: Violation| v.severity == severity,
                );
                assert(self.violations@.subrange(0, i + 1) =~= self.violations@.subrange(
                    0,
                    i as int,
                ).push(self.violations@[i as int]));
            }
            let ghost old_out = out@;
            if self.violations[i].severity == severity {
                out.push(&self.violations[i]);
                proof {
                    assert(out@.map_values(|v: &Violation| *v) =~= old_out.map_values(
                        |v: &Violation| *v,
                    ).push(self.violations@[i as int]));
                }
            }
            i = i + 1;
        }
        proof {
            assert(self.violations@.subrange(0, n as int) =~= self.violations@);
        }
        out
    }

    /// Counts violations by severity: `(errors, warnings, infos)`.
    pub fn count_by_severity(&self) -> (r: (usize, usize, usize))
        ensures
            r.0 == count_with_severity(self.violations@, Severity::Error),
            r.1 == count_with_severity(self.violations@, Severity::Warning),
            r.2 == count_with_severity(self.violations@, Severity::Info),
    {
        let n = self.violations.len();
        let mut errors: usize = 0;
        let mut warnings: usize = 0;
        let mut infos: usize = 0;
        let mut i: usize = 0;
        while i < n
            invariant
                0 <= i <= n,
                n == self.violations@.len(),
                errors == count_with_severity(self.violations@.subrange(0, i as int), Severity::Error),
                warnings == count_with_severity(
                    self.violations@.subrange(0, i as int),
                    Severity::Warning,
                ),
                infos == count_with_severity(self.violations@.subrange(0, i as int), Severity::Info),
                errors + warnings + infos <= i,
            decreases n - i,
        {
            proof {
                let pre = self.violations@.subrange(0, i as int);
                let v = self.violations@[i as int];
                lemma_filter_push(pre, v, |x: Violation| x.severity == Severity::Error);
                lemma_filter_push(pre, v, |x: Violation| x.severity == Severity::Warning);
                lemma_filter_push(pre, v, |x: Violation| x.severity == Severity::Info);
                assert(self.violations@.subrange(0, i + 1) =~= pre.push(v));
            }
            match self.violations[i].severity {
                Severity::Error => {
                    errors = errors + 1;
                },
                Severity::Warning => {
                    warnings = warnings + 1;
                },
                Severity::Info => {
                    infos = infos + 1;
                },
            }
            i = i + 1;
        }
        proof {
            assert(self.violations@.subrange(0, n as int) =~= self.violations@);
        }
        (errors, warnings, infos)
    }

    /// Adds violations and the file count from another result.
    pub fn extend(&mut self, other: LintResult)
        requires
            old(self).violations@.len() + other.violations@.len() <= usize::MAX,
            old(self).files_checked + other.files_checked <= usize::MAX,
        ensures
            final(self).violations@ == old(self).violations@ + other.violations@,
            final(self).files_checked == old(self).files_checked + other.files_checked,
    {
        let mut vs = other.violations;
        self.violations.append(&mut vs);
        self.files_checked = self.files_checked + other.files_checked;
    }
}

/// Filtering a sequence extended by one element keeps the filtered prefix
/// and appends the element exactly when it satisfies the predicate.
pub proof fn lemma_filter_push<A>(s: Seq<A>, x: A, p: spec_fn(A) -> bool)
    ensures
        s.push(x).filter(p) == if p(x) {
            s.filter(p).push(x)
        } else {
            s.filter(p)
        },
    decreases s.len(),
{
    reveal(Seq::filter);
    assert(s.push(x).drop_last() =~= s);
    assert(s.push(x).last() == x);
}

/// The text of one entry of the test report.
pub open spec fn spec_report_entry(v: Violation) -> Seq<char> {
    let head = v.rule@ + " ["@ + v.code@ + "] at "@ + v.location.file@ + ":"@ + dec_digits(
        v.location.line as nat,
    ) + ":"@ + dec_digits(v.location.column as nat) + "\n"@ + "  "@
        + crate::severity::severity_name(v.severity) + ": "@ + v.message@ + "\n"@;
    let with_help = match v.suggestion {
        Some(s) => head + "  = help: "@ + s.message@ + "\n"@,
        None => head,
    };
    let with_see = match v.doc_ref {
        Some(d) => with_help + "  = see: "@ + d@ + "\n"@,
        None => with_help,
    };
    with_see + "\n"@
}

/// Appends one finding's report entry to the report text.
#[verifier::rlimit(60)]
fn append_report_entry(report: &mut String, v: &Violation)
    ensures
        final(report)@ == old(report)@ + spec_report_entry(*v),
{
    report.append(v.rule.as_str());
    report.append(" [");
    report.append(v.code.as_str());
    report.append("] at ");
    report.append(v.location.file.as_str());
    report.append(":");
    let line_s = fmt_usize(v.location.line);
    report.append(line_s.as_str());
    report.append(":");
    let col_s = fmt_usize(v.location.column);
    report.append(col_s.as_str());
    report.append("\n");
    report.append("  ");
    report.append(v.severity.as_str());
    report.append(": ");
    report.append(v.message.as_str());
    report.append("\n");
    match &v.suggestion {
        Some(sg) => {
            report.append("  = help: ");
            report.append(sg.message.as_str());
            report.append("\n");
        },
        None => {},
    }
    match &v.doc_ref {
        Some(d) => {
            report.append("  = see: ");
            report.append(d.as_str());
            report.append("\n");
        },
        None => {},
    }
    report.append("\n");
    proof {
        assert(report@ =~= old(report)@ + spec_report_entry(*v));
    }
}

/// The text of the whole test report: a header counting the failing
/// findings, one entry per finding at or above the threshold, and the
/// totals by severity.
pub open spec fn spec_test_report(
    violations: Seq<Violation>,
    files_checked: nat,
    fail_on: Severity,
) -> Seq<char> {
    let failing = violations.filter(|v: Violation| severity_at_least(v.severity, fail_on));
    "\n=== arch-lint: "@ + dec_digits(failing.len()) + " violation(s) ===\n\n"@
        + crate::sequtil::concat_map(failing, |v: Violation| spec_report_entry(v)) + "Total: "@
        + dec_digits(count_with_severity(violations, Severity::Error)) + " error(s), "@
        + dec_digits(count_with_severity(violations, Severity::Warning)) + " warning(s), "@
        + dec_digits(count_with_severity(violations, Severity::Info)) + " info(s) in "@
        + dec_digits(files_checked) + " file(s)\n"@
}

impl LintResult {
    /// Formats the findings at or above the threshold as a
    /// human-readable failure report.
    pub fn format_test_report(&self, fail_on: Severity) -> (r: String)
        ensures
            r@ == spec_test_report(self.violations@, self.files_checked as nat, fail_on),
    {
        let ghost pred = |v: Violation| severity_at_least(v.severity, fail_on);
        let ghost entry = |v: Violation| spec_report_entry(v);
        let n = self.violations.len();

        // Count the failing findings first, for the header.
        let mut failing_count: usize = 0;
        let mut i: usize = 0;
        while i < n
            invariant
                0 <= i <= n,
                n == self.violations@.len(),
                pred == |v: Violation| severity_at_least(v.severity, fail_on),
                failing_count == self.violations@.subrange(0, i as int).filter(pred).len(),
                failing_count <= i,
            decreases n - i,
        {
            proof {
                lemma_filter_push(
                    self.violations@.subrange(0, i as int),
                    self.violations@[i as int],
                    pred,
                );
                assert(self.violations@.subrange(0, i + 1) =~= self.violations@.subrange(
                    0,
                    i as int,
                ).push(self.violations@[i as int]));
            }
            if self.violations[i].severity.at_least(fail_on) {
                failing_count = failing_count + 1;
            }
            i = i + 1;
        }
        proof {
            assert(self.violations@.subrange(0, n as int) =~= self.violations@);
        }

        let mut report = "\n=== arch-lint: ".to_owned();
        let count_s = fmt_usize(failing_count);
        report.append(count_s.as_str());
        report.append(" violation(s) ===\n\n");

        let ghost header = report@;
        let mut i2: usize = 0;
        proof {
            assert(self.violations@.subrange(0, 0).filter(pred) =~= Seq::<Violation>::empty());
            assert(report@ =~= header + crate::sequtil::concat_map(
                self.violations@.subrange(0, 0).filter(pred),
                entry,
            ));
        }
        while i2 < n
            invariant
                0 <= i2 <= n,
                n == self.violations@.len(),
                pred == |v: Violation| severity_at_least(v.severity, fail_on),
                entry == |v: Violation| spec_report_entry(v),
                report@ == header + crate::sequtil::concat_map(
                    self.violations@.subrange(0, i2 as int).filter(pred),
                    entry,
                ),
            decreases n - i2,
        {
            let v = &self.violations[i2];
            proof {
                lemma_filter_push(
                    self.violations@.subrange(0, i2 as int),
                    self.violations@[i2 as int],
                    pred,
                );
                assert(self.violations@.subrange(0, i2 + 1) =~= self.violations@.subrange(
                    0,
                    i2 as int,
                ).push(self.violations@[i2 as int]));
            }
            if v.severity.at_least(fail_on) {
                append_report_entry(&mut report, v);
                proof {
                    crate::sequtil::lemma_concat_map_push(
                        self.violations@.subrange(0, i2 as int).filter(pred),
                        self.violations@[i2 as int],
                        entry,
                    );
                    assert(report@ =~= header + crate::sequtil::concat_map(
                        self.violations@.subrange(0, i2 + 1).filter(pred),
                        entry,
                    ));
                }
            }
            i2 = i2 + 1;
        }
        proof {
            assert(self.violations@.subrange(0, n as int) =~= self.violations@);
        }

        let (errors, warnings, infos) = self.count_by_severity();
        report.append("Total: ");
        let e_s = fmt_usize(errors);
        report.append(e_s.as_str());
        report.append(" error(s), ");
        let w_s = fmt_usize(warnings);
        report.append(w_s.as_str());
        report.append(" warning(s), ");
        let i_s = fmt_usize(infos);
        report.append(i_s.as_str());
        report.append(" info(s) in ");
        let f_s = fmt_usize(self.files_checked);
        report.append(f_s.as_str());
        report.append(" file(s)\n");
        proof {
            assert(report@ =~= spec_test_report(
                self.violations@,
                self.files_checked as nat,
                fail_on,
            ));
        }
        report
    }
}

} // verus!
