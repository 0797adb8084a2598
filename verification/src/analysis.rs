//! Analysis plumbing: rule gating by configuration, severity
//! overrides, path exclusion, and the deterministic ordering of the
//! final result.

use vstd::prelude::*;

verus! {

use crate::config::{Config, spec_rule_enabled, spec_rule_severity};
use crate::globpat::{GlobPattern, spec_glob_hit};
use crate::severity::Severity;
use crate::strutil::{contains_seq, contains_str};
use crate::types::{
    lemma_violation_le_total,
    lemma_violation_le_trans,
    LintResult,
    Violation,
    violation_le,
    violations_sorted,
};

/// `s` with every left-to-right `**` pair removed.
pub open spec fn strip_stars(s: Seq<char>) -> Seq<char>
    decreases s.len(),
{
    if s.len() >= 2 && s[0] == '*' && s[1] == '*' {
        strip_stars(s.subrange(2, s.len() as int))
    } else if s.len() > 0 {
        seq![s[0]] + strip_stars(s.subrange(1, s.len() as int))
    } else {
        Seq::empty()
    }
}

/// Removes every `**` from a pattern, scanning left to right.
fn remove_globstars(s: &str) -> (r: String)
    ensures
        r@ == strip_stars(s@),
{
    let len = s.unicode_len();
    let mut out = String::new();
    let mut i: usize = 0;
    proof {
        assert(s@.subrange(0, len as int) =~= s@);
        assert(out@ + strip_stars(s@) =~= strip_stars(s@));
    }
    while i < len
        invariant
            0 <= i <= len,
            len == s@.len(),
            strip_stars(s@) =~= out@ + strip_stars(s@.subrange(i as int, len as int)),
        ensures
            i >= len,
            strip_stars(s@) =~= out@ + strip_stars(s@.subrange(i as int, len as int)),
        decreases len - i,
    {
        let ghost rest = s@.subrange(i as int, len as int);
        proof {
            assert(rest[0] == s@[i as int]);
            if i + 1 < len {
                assert(rest[1] == s@[i + 1]);
            }
        }
        if s.get_char(i) == '*' && i + 1 < len && s.get_char(i + 1) == '*' {
            proof {
                assert(rest.subrange(2, rest.len() as int) =~= s@.subrange(i + 2, len as int));
            }
            i = i + 2;
        } else {
            let piece = s.substring_char(i, i + 1);
            let ghost old_out = out@;
            out.append(piece);
            proof {
                assert(piece@ =~= seq![s@[i as int]]);
                assert(rest.subrange(1, rest.len() as int) =~= s@.subrange(i + 1, len as int));
                assert(strip_stars(rest) =~= seq![s@[i as int]] + strip_stars(
                    s@.subrange(i + 1, len as int),
                ));
            }
            i = i + 1;
        }
    }
    proof {
        assert(s@.subrange(len as int, len as int).len() == 0);
        assert(strip_stars(s@.subrange(len as int, len as int)) =~= Seq::<char>::empty());
        assert(out@ + Seq::<char>::empty() =~= out@);
    }
    out
}

/// A path is excluded by a pattern: the pattern covers it as a glob,
/// or the pattern with its `**` markers removed occurs in the path.
/// The substring fallback is deliberate: `**/target/**` is meant to
/// hit any path containing `/target/`.
pub open spec fn spec_excluded_by(pattern: GlobPattern, path: Seq<char>) -> bool {
    spec_glob_hit(pattern@, path) || (strip_stars(pattern@).len() > 0 && contains_seq(
        path,
        strip_stars(pattern@),
    ))
}

/// Checks if a path should be excluded by any of the patterns.
pub fn should_exclude(patterns: &Vec<GlobPattern>, path: &str) -> (r: bool)
    ensures
        r == exists|i: int|
            0 <= i < patterns@.len() && spec_excluded_by(#[trigger] patterns@[i], path@),
{
    let n = patterns.len();
    let mut i: usize = 0;
    while i < n
        invariant
            0 <= i <= n,
            n == patterns@.len(),
            forall|j: int| 0 <= j < i ==> !spec_excluded_by(#[trigger] patterns@[j], path@),
        decreases n - i,
    {
        if patterns[i].matches(path) {
            return true;
        }
        let stripped = remove_globstars(patterns[i].as_str());
        if stripped.as_str().unicode_len() > 0 && contains_str(path, stripped.as_str()) {
            return true;
        }
        i = i + 1;
    }
    false
}

/// A violation with only its severity replaced.
pub open spec fn with_severity(v: Violation, sev: Severity) -> Violation {
    Violation { severity: sev, ..v }
}

/// Applies the configured severity override of a rule to its findings:
/// when the configuration sets a severity for the rule, every finding
/// gets it; otherwise the findings are unchanged.
pub fn apply_severity_override(config: &Config, rule_name: &str, violations: Vec<Violation>) -> (r:
    Vec<Violation>)
    ensures
        match spec_rule_severity(config.rules@, rule_name@) {
            Some(sev) => r@.len() == violations@.len() && forall|i: int|
                0 <= i < r@.len() ==> r@[i] == with_severity(#[trigger] violations@[i], sev),
            None => r@ == violations@,
        },
{
    let sev = match config.rule_severity(rule_name) {
        Some(s) => s,
        None => {
            return violations;
        },
    };
    let mut out = violations;
    let n = out.len();
    let ghost orig = out@;
    let mut i: usize = 0;
    while i < n
        invariant
            0 <= i <= n,
            n == out@.len(),
            orig.len() == n,
            forall|j: int| 0 <= j < i ==> out@[j] == with_severity(#[trigger] orig[j], sev),
            forall|j: int| i <= j < n ==> out@[j] == #[trigger] orig[j],
        decreases n - i,
    {
        let mut v = out.remove(i);
        v.severity = sev;
        out.insert(i, v);
        proof {
            assert(out@[i as int] == with_severity(orig[i as int], sev));
            assert forall|j: int| 0 <= j < i implies out@[j] == with_severity(
                #[trigger] orig[j],
                sev,
            ) by {}
        }
        i = i + 1;
    }
    out
}

/// Gates one rule's findings through the configuration: a disabled
/// rule contributes nothing; an enabled rule contributes its findings
/// with the configured severity override applied.
pub fn gate_rule_violations(config: &Config, rule_name: &str, violations: Vec<Violation>) -> (r:
    Vec<Violation>)
    ensures
        !spec_rule_enabled(config.rules@, rule_name@) ==> r@.len() == 0,
        spec_rule_enabled(config.rules@, rule_name@) ==> match spec_rule_severity(
            config.rules@,
            rule_name@,
        ) {
            Some(sev) => r@.len() == violations@.len() && forall|i: int|
                0 <= i < r@.len() ==> r@[i] == with_severity(#[trigger] violations@[i], sev),
            None => r@ == violations@,
        },
{
    if !config.is_rule_enabled(rule_name) {
        return Vec::new();
    }
    apply_severity_override(config, rule_name, violations)
}

/// When the two sorted pieces meet with the boundary ordered, the
/// whole prefix through `i` is sorted.
proof fn lemma_insert_done(vs: Seq<Violation>, j: int, i: int)
    requires
        0 <= j <= i < vs.len(),
        violations_sorted(vs.subrange(0, j)),
        violations_sorted(vs.subrange(j, i + 1)),
        j > 0 ==> violation_le(vs[j - 1], vs[j]),
        forall|a: int, b: int|
            0 <= a < j && j < b <= i ==> violation_le(#[trigger] vs[a], #[trigger] vs[b]),
    ensures
        violations_sorted(vs.subrange(0, i + 1)),
{
    let whole = vs.subrange(0, i + 1);
    assert forall|a: int, b: int| 0 <= a < b < whole.len() implies violation_le(
        #[trigger] whole[a],
        #[trigger] whole[b],
    ) by {
        assert(whole[a] == vs[a]);
        assert(whole[b] == vs[b]);
        if b < j {
            assert(vs.subrange(0, j)[a] == vs[a]);
            assert(vs.subrange(0, j)[b] == vs[b]);
        } else if a >= j {
            assert(vs.subrange(j, i + 1)[a - j] == vs[a]);
            assert(vs.subrange(j, i + 1)[b - j] == vs[b]);
        } else if b == j {
            if a == j - 1 {
            } else {
                assert(vs.subrange(0, j)[a] == vs[a]);
                assert(vs.subrange(0, j)[j - 1] == vs[j - 1]);
                lemma_violation_le_trans(vs[a], vs[j - 1], vs[j]);
            }
        }
    }
}

/// Swapping an out-of-order adjacent pair keeps both pieces sorted and
/// the cross-boundary ordering.
proof fn lemma_swap_keeps_order(before: Seq<Violation>, after: Seq<Violation>, j: int, i: int)
    requires
        0 < j <= i < before.len(),
        after == before.update(j - 1, before[j]).update(j, before[j - 1]),
        violations_sorted(before.subrange(0, j)),
        violations_sorted(before.subrange(j, i + 1)),
        !violation_le(before[j - 1], before[j]),
        forall|a: int, b: int|
            0 <= a < j && j < b <= i ==> violation_le(#[trigger] before[a], #[trigger] before[b]),
    ensures
        violations_sorted(after.subrange(0, j - 1)),
        violations_sorted(after.subrange(j - 1, i + 1)),
        forall|a: int, b: int|
            0 <= a < j - 1 && j - 1 < b <= i ==> violation_le(
                #[trigger] after[a],
                #[trigger] after[b],
            ),
{
    lemma_violation_le_total(before[j - 1], before[j]);
    assert(violation_le(before[j], before[j - 1]));
    assert forall|a: int, b: int|
        0 <= a < b < after.subrange(0, j - 1).len() implies violation_le(
        #[trigger] after.subrange(0, j - 1)[a],
        #[trigger] after.subrange(0, j - 1)[b],
    ) by {
        assert(after.subrange(0, j - 1)[a] == before[a]);
        assert(after.subrange(0, j - 1)[b] == before[b]);
        assert(before.subrange(0, j)[a] == before[a]);
        assert(before.subrange(0, j)[b] == before[b]);
    }
    assert forall|a: int, b: int|
        0 <= a < b < after.subrange(j - 1, i + 1).len() implies violation_le(
        #[trigger] after.subrange(j - 1, i + 1)[a],
        #[trigger] after.subrange(j - 1, i + 1)[b],
    ) by {
        let aa = a + j - 1;
        let bb = b + j - 1;
        assert(after.subrange(j - 1, i + 1)[a] == after[aa]);
        assert(after.subrange(j - 1, i + 1)[b] == after[bb]);
        if aa == j - 1 {
            // The moved-up element orders before the old front of the
            // tail and, through it, before everything past it.
            if bb == j {
            } else {
                assert(before.subrange(j, i + 1)[0] == before[j]);
                assert(before.subrange(j, i + 1)[bb - j] == before[bb]);
                assert(after[bb] == before[bb]);
                assert(violation_le(before[j], before[bb]));
            }
        } else if aa == j {
            if bb > j {
                assert(after[bb] == before[bb]);
                assert(0 <= j - 1 < j && j < bb <= i);
                assert(violation_le(before[j - 1], before[bb]));
            }
        } else {
            assert(after[aa] == before[aa]);
            assert(after[bb] == before[bb]);
            assert(before.subrange(j, i + 1)[aa - j] == before[aa]);
            assert(before.subrange(j, i + 1)[bb - j] == before[bb]);
        }
    }
    assert forall|a: int, b: int|
        0 <= a < j - 1 && j - 1 < b <= i implies violation_le(
        #[trigger] after[a],
        #[trigger] after[b],
    ) by {
        assert(after[a] == before[a]);
        assert(before.subrange(0, j)[a] == before[a]);
        if b == j - 1 {
        } else if b == j {
            assert(after[b] == before[j - 1]);
            assert(before.subrange(0, j)[j - 1] == before[j - 1]);
        } else {
            assert(after[b] == before[b]);
        }
    }
}

/// Sorts violations by (file, line, column), ascending, keeping the
/// same multiset of findings.
pub fn sort_violations(violations: Vec<Violation>) -> (r: Vec<Violation>)
    ensures
        violations_sorted(r@),
        r@.to_multiset() == violations@.to_multiset(),
{
    let mut out = violations;
    let n = out.len();
    if n <= 1 {
        return out;
    }
    let mut i: usize = 1;
    while i < n
        invariant
            1 <= i <= n,
            n == out@.len(),
            out@.to_multiset() == violations@.to_multiset(),
            violations_sorted(out@.subrange(0, i as int)),
        decreases n - i,
    {
        let mut j: usize = i;
        while j > 0
            invariant
                0 <= j <= i < n,
                n == out@.len(),
                out@.to_multiset() == violations@.to_multiset(),
                violations_sorted(out@.subrange(0, j as int)),
                violations_sorted(out@.subrange(j as int, i + 1)),
                forall|a: int, b: int|
                    0 <= a < j && j < b <= i ==> violation_le(
                        #[trigger] out@[a],
                        #[trigger] out@[b],
                    ),
            ensures
                n == out@.len(),
                out@.to_multiset() == violations@.to_multiset(),
                violations_sorted(out@.subrange(0, i + 1)),
            decreases j,
        {
            if crate::types::violation_le_exec(&out[j - 1], &out[j]) {
                proof {
                    lemma_insert_done(out@, j as int, i as int);
                }
                break;
            }
            let ghost before = out@;
            let x = out.remove(j);
            out.insert(j - 1, x);
            proof {
                assert(out@ =~= before.update(j - 1, before[j as int]).update(
                    j as int,
                    before[j - 1],
                ));
                crate::sequtil::lemma_adjacent_swap_multiset(before, out@, j - 1);
                lemma_swap_keeps_order(before, out@, j as int, i as int);
            }
            j = j - 1;
        }
        i = i + 1;
    }
    proof {
        assert(out@.subrange(0, n as int) =~= out@);
    }
    out
}

/// Builds the final result: the findings sorted by (file, line,
/// column) and the number of files checked.
pub fn finish_result(violations: Vec<Violation>, files_checked: usize) -> (r: LintResult)
    ensures
        violations_sorted(r.violations@),
        r.violations@.to_multiset() == violations@.to_multiset(),
        r.files_checked == files_checked,
{
    let sorted = sort_violations(violations);
    LintResult { violations: sorted, files_checked }
}

/// Determinism: two runs over the same configuration and extracted
/// file facts produce findings with the same content, because every
/// check's contract pins its findings to a function of those inputs.
/// Analyzing the same input twice therefore yields the same result.
pub proof fn lemma_analysis_deterministic(
    config: crate::model::DeclarativeConfig,
    rel: Seq<char>,
    trees: Seq<crate::declarative::UseTree>,
    r1: Seq<Violation>,
    r2: Seq<Violation>,
)
    requires
        r1.map_values(|v: Violation| crate::types::vmodel(v)) == crate::declarative::spec_restrict_models(
            config,
            rel,
            trees,
        ),
        r2.map_values(|v: Violation| crate::types::vmodel(v)) == crate::declarative::spec_restrict_models(
            config,
            rel,
            trees,
        ),
    ensures
        r1.map_values(|v: Violation| crate::types::vmodel(v)) == r2.map_values(
            |v: Violation| crate::types::vmodel(v),
        ),
{
}

/// Determinism of the layer engine: two runs over the same
/// configuration and file analysis produce findings with the same
/// content.
pub proof fn lemma_engine_deterministic(
    config: crate::arch_config::ArchConfig,
    rows: Seq<(Seq<char>, Seq<char>)>,
    analysis: crate::extractor::FileAnalysis,
    r1: Seq<Violation>,
    r2: Seq<Violation>,
)
    requires
        r1.map_values(|v: Violation| crate::types::vmodel(v)) == crate::engine::spec_layer_dep_models(
            config,
            rows,
            analysis,
        ) + crate::engine::spec_pattern_models(config, rows, analysis)
            + crate::engine::spec_naming_models(config, rows, analysis),
        r2.map_values(|v: Violation| crate::types::vmodel(v)) == crate::engine::spec_layer_dep_models(
            config,
            rows,
            analysis,
        ) + crate::engine::spec_pattern_models(config, rows, analysis)
            + crate::engine::spec_naming_models(config, rows, analysis),
    ensures
        r1.map_values(|v: Violation| crate::types::vmodel(v)) == r2.map_values(
            |v: Violation| crate::types::vmodel(v),
        ),
{
}

/// The root an analysis walks: the caller's explicit choice when one
/// is given, else the configuration's root, else the current
/// directory.
pub fn effective_root(given: Option<&str>, config_root: &str) -> (r: String)
    ensures
        given matches Some(g) ==> r@ == g@,
        given is None && config_root@.len() > 0 ==> r@ == config_root@,
        given is None && config_root@.len() == 0 ==> r@ == "."@,
{
    match given {
        Some(g) => g.to_owned(),
        None => {
            if config_root.unicode_len() > 0 {
                config_root.to_owned()
            } else {
                ".".to_owned()
            }
        },
    }
}

/// The exclude patterns an analysis uses: the caller's merged with the
/// configuration's; the build and vendor trees only when neither
/// names any.
pub fn effective_excludes(given: &Vec<String>, config: &Vec<String>) -> (r: Vec<String>)
    ensures
        given@.len() + config@.len() > 0 ==> crate::strutil::str_views(r@)
            == crate::strutil::str_views(given@) + crate::strutil::str_views(config@),
        given@.len() == 0 && config@.len() == 0 ==> (r@.len() == 2 && r@[0]@ == "**/target/**"@
            && r@[1]@ == "**/vendor/**"@),
{
    let mut out: Vec<String> = Vec::new();
    if given.len() == 0 && config.len() == 0 {
        out.push("**/target/**".to_owned());
        out.push("**/vendor/**".to_owned());
        return out;
    }
    let n = given.len();
    let mut i: usize = 0;
    proof {
        assert(crate::strutil::str_views(out@) =~= crate::strutil::str_views(
            given@,
        ).subrange(0, 0));
    }
    while i < n
        invariant
            0 <= i <= n,
            n == given@.len(),
            out@.len() == i,
            crate::strutil::str_views(out@) == crate::strutil::str_views(given@).subrange(
                0,
                i as int,
            ),
        decreases n - i,
    {
        let ghost out0 = out@;
        out.push(given[i].as_str().to_owned());
        proof {
            assert(crate::strutil::str_views(out@) =~= crate::strutil::str_views(out0).push(
                given@[i as int]@,
            ));
            assert(crate::strutil::str_views(out@) =~= crate::strutil::str_views(
                given@,
            ).subrange(0, i + 1));
        }
        i = i + 1;
    }
    let m = config.len();
    let mut j: usize = 0;
    proof {
        assert(crate::strutil::str_views(given@).subrange(0, n as int) =~= crate::strutil::str_views(
            given@,
        ));
        assert(crate::strutil::str_views(out@) =~= crate::strutil::str_views(given@)
            + crate::strutil::str_views(config@).subrange(0, 0));
    }
    while j < m
        invariant
            0 <= j <= m,
            m == config@.len(),
            crate::strutil::str_views(out@) == crate::strutil::str_views(given@)
                + crate::strutil::str_views(config@).subrange(0, j as int),
        decreases m - j,
    {
        let ghost out0 = out@;
        out.push(config[j].as_str().to_owned());
        proof {
            assert(crate::strutil::str_views(out@) =~= crate::strutil::str_views(out0).push(
                config@[j as int]@,
            ));
            assert(crate::strutil::str_views(out@) =~= crate::strutil::str_views(given@)
                + crate::strutil::str_views(config@).subrange(0, j + 1));
        }
        j = j + 1;
    }
    proof {
        assert(crate::strutil::str_views(config@).subrange(0, m as int) =~= crate::strutil::str_views(
            config@,
        ));
    }
    out
}

} // verus!
