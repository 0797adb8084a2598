//! Comment-based allowance directives.
//!
//! A directive has the form
//! `// arch-lint: allow(rule-1, rule-2) reason="explanation"`,
//! with `//` or `///` comment prefixes. The special rule name `all`
//! covers every rule. A directive suppresses a finding on its own line
//! or on the line directly below.

use vstd::prelude::*;

verus! {

use crate::strutil::{
    after_prefix,
    find_char,
    first_idx,
    is_prefix,
    split_char,
    split_on,
    str_eq,
    str_views,
    strip_prefix_str,
    trim,
    trim_str,
};

/// State of allowance for a rule.
#[derive(Debug, Clone, Copy, PartialEq, Eq, Structural)]
pub enum AllowState {
    /// Rule is not allowed (default).
    Denied,
    /// Rule is explicitly allowed.
    Allowed,
}

impl AllowState {
    /// Returns true if allowed.
    pub fn is_allowed(self) -> (r: bool)
        ensures
            r == (self is Allowed),
    {
        match self {
            AllowState::Allowed => true,
            AllowState::Denied => false,
        }
    }
}

/// Result of checking for an allow directive.
#[derive(Debug, Clone)]
pub enum AllowCheck {
    /// Rule is not allowed.
    Denied,
    /// Rule is allowed with optional reason.
    Allowed {
        /// The reason provided, if any.
        reason: Option<String>,
    },
}

impl AllowCheck {
    /// Returns true if allowed.
    pub fn is_allowed(&self) -> (r: bool)
        ensures
            r == (*self is Allowed),
    {
        match self {
            AllowCheck::Allowed { .. } => true,
            AllowCheck::Denied => false,
        }
    }

    /// Returns the reason if allowed.
    pub fn reason(&self) -> (r: Option<&str>)
        ensures
            match self {
                AllowCheck::Allowed { reason: Some(s) } => r is Some && r->0@ == s@,
                _ => r is None,
            },
    {
        match self {
            AllowCheck::Allowed { reason: Some(s) } => Some(s.as_str()),
            _ => None,
        }
    }
}

/// Parsed allowance directive: the rule names covered and the optional
/// reason.
#[derive(Debug, Clone)]
pub struct AllowDirective {
    /// Rule names that are allowed, in order of appearance.
    pub rules: Vec<String>,
    /// Optional reason for the allowance.
    pub reason: Option<String>,
}

/// The comment text of a line: what follows `///` or `//`, trimmed, or
/// nothing for a non-comment line.
pub open spec fn spec_comment_content(line: Seq<char>) -> Option<Seq<char>> {
    let t = trim(line);
    if is_prefix("///"@, t) {
        Some(trim(after_prefix(t, "///"@)))
    } else if is_prefix("//"@, t) {
        Some(trim(after_prefix(t, "//"@)))
    } else {
        None
    }
}

/// The text after `arch-lint:` and `allow(` in a comment, trimmed, when
/// the line is such a directive.
pub open spec fn spec_allow_body(line: Seq<char>) -> Option<Seq<char>> {
    match spec_comment_content(line) {
        None => None,
        Some(content) => if is_prefix("arch-lint:"@, content) {
            let directive = trim(after_prefix(content, "arch-lint:"@));
            if is_prefix("allow("@, directive) {
                Some(trim(after_prefix(directive, "allow("@)))
            } else {
                None
            }
        } else {
            None
        },
    }
}

/// The rule names listed before the closing parenthesis: comma-split,
/// trimmed, empty entries dropped.
pub open spec fn spec_rule_list(rules_str: Seq<char>) -> Seq<Seq<char>> {
    split_on(rules_str, ',').map_values(|p: Seq<char>| trim(p)).filter(
        |p: Seq<char>| p.len() > 0,
    )
}

/// The parsed directive of a line: its rule names and optional reason.
/// Nothing when the line is no directive, lists no rule, or opens a
/// reason quote without closing it.
pub open spec fn spec_parse_allow(line: Seq<char>) -> Option<(Seq<Seq<char>>, Option<Seq<char>>)> {
    match spec_allow_body(line) {
        None => None,
        Some(body) => {
            let paren = first_idx(body, ')');
            if paren < 0 {
                None
            } else {
                let rules = spec_rule_list(body.subrange(0, paren));
                if rules.len() == 0 {
                    None
                } else {
                    let rest = trim(body.subrange(paren + 1, body.len() as int));
                    if is_prefix("reason="@, rest) {
                        let rp = trim(after_prefix(rest, "reason="@));
                        if rp.len() > 1 && rp[0] == '"' {
                            let e = first_idx(rp.subrange(1, rp.len() as int), '"');
                            if e < 0 {
                                None
                            } else {
                                Some((rules, Some(rp.subrange(1, 1 + e))))
                            }
                        } else {
                            Some((rules, None))
                        }
                    } else {
                        Some((rules, None))
                    }
                }
            }
        },
    }
}

/// Parses an allowance directive from one comment line.
pub fn parse_allow_directive(line: &str) -> (r: Option<AllowDirective>)
    ensures
        match r {
            Some(d) => {
                &&& spec_parse_allow(line@) is Some
                &&& str_views(d.rules@) == (spec_parse_allow(line@)->0).0
                &&& match d.reason {
                    Some(s) => (spec_parse_allow(line@)->0).1 == Some(s@),
                    None => (spec_parse_allow(line@)->0).1 is None,
                }
            },
            None => spec_parse_allow(line@) is None,
        },
{
    let t = trim_str(line);
    let comment_content = match strip_prefix_str(t, "///") {
        Some(rest) => trim_str(rest),
        None => match strip_prefix_str(t, "//") {
            Some(rest) => trim_str(rest),
            None => {
                return None;
            },
        },
    };
    let directive = match strip_prefix_str(comment_content, "arch-lint:") {
        Some(rest) => trim_str(rest),
        None => {
            return None;
        },
    };
    let body = match strip_prefix_str(directive, "allow(") {
        Some(rest) => trim_str(rest),
        None => {
            return None;
        },
    };
    let paren = match find_char(body, ')') {
        Some(p) => p,
        None => {
            return None;
        },
    };
    let rules_str = body.substring_char(0, paren);
    let parts = split_char(rules_str, ',');
    let mut rules: Vec<String> = Vec::new();
    let np = parts.len();
    let mut i: usize = 0;
    let ghost mapped = split_on(rules_str@, ',').map_values(|p: Seq<char>| trim(p));
    let ghost keep = |p: Seq<char>| p.len() > 0;
    proof {
        assert(str_views(rules@) =~= mapped.subrange(0, 0).filter(keep));
    }
    while i < np
        invariant
            0 <= i <= np,
            np == parts@.len(),
            str_views(parts@) == split_on(rules_str@, ','),
            mapped == split_on(rules_str@, ',').map_values(|p: Seq<char>| trim(p)),
            keep == |p: Seq<char>| p.len() > 0,
            str_views(rules@) == mapped.subrange(0, i as int).filter(keep),
        decreases np - i,
    {
        let piece = trim_str(parts[i].as_str());
        proof {
            assert(mapped[i as int] == trim(parts@[i as int]@));
            crate::types::lemma_filter_push(mapped.subrange(0, i as int), mapped[i as int], keep);
            assert(mapped.subrange(0, i + 1) =~= mapped.subrange(0, i as int).push(
                mapped[i as int],
            ));
        }
        let ghost old_rules = rules@;
        if piece.unicode_len() > 0 {
            rules.push(piece.to_owned());
            proof {
                assert(str_views(rules@) =~= str_views(old_rules).push(trim(parts@[i as int]@)));
            }
        }
        i = i + 1;
    }
    proof {
        assert(mapped.subrange(0, np as int) =~= mapped);
    }
    if rules.len() == 0 {
        return None;
    }
    let blen = body.unicode_len();
    let rest = trim_str(body.substring_char(paren + 1, blen));
    proof {
        assert(body@.subrange(paren + 1, blen as int) == body@.subrange(
            paren as int + 1,
            body@.len() as int,
        ));
    }
    let reason: Option<String> = match strip_prefix_str(rest, "reason=") {
        Some(rp_raw) => {
            let rp = trim_str(rp_raw);
            let rplen = rp.unicode_len();
            if rplen > 1 && rp.get_char(0) == '"' {
                let tail = rp.substring_char(1, rplen);
                match find_char(tail, '"') {
                    Some(e) => {
                        proof {
                            assert(tail@ == rp@.subrange(1, rp@.len() as int));
                            assert(tail@.subrange(0, e as int) =~= rp@.subrange(1, 1 + e));
                        }
                        Some(tail.substring_char(0, e).to_owned())
                    },
                    None => {
                        return None;
                    },
                }
            } else {
                None
            }
        },
        None => None,
    };
    Some(AllowDirective { rules, reason })
}

/// The rule names cover `rule`: it is listed, or `all` is.
pub open spec fn spec_rules_cover(rules: Seq<Seq<char>>, rule: Seq<char>) -> bool {
    exists|i: int| 0 <= i < rules.len() && (rules[i] == rule || rules[i] == "all"@)
}

/// Whether the listed rules cover `rule`, directly or through `all`.
fn rules_cover(rules: &Vec<String>, rule: &str) -> (r: bool)
    ensures
        r == spec_rules_cover(str_views(rules@), rule@),
{
    let n = rules.len();
    let mut i: usize = 0;
    while i < n
        invariant
            0 <= i <= n,
            n == rules@.len(),
            forall|j: int|
                0 <= j < i ==> !((#[trigger] str_views(rules@)[j]) == rule@ || str_views(
                    rules@,
                )[j] == "all"@),
        decreases n - i,
    {
        if str_eq(rules[i].as_str(), rule) || str_eq(rules[i].as_str(), "all") {
            assert(str_views(rules@)[i as int] == rule@ || str_views(rules@)[i as int] == "all"@);
            return true;
        }
        i = i + 1;
    }
    false
}

/// The verdict of one line for one rule: the directive's reason when the
/// line carries a directive covering the rule, nothing otherwise.
pub open spec fn spec_line_verdict(line: Seq<char>, rule: Seq<char>) -> Option<
    Option<Seq<char>>,
> {
    match spec_parse_allow(line) {
        None => None,
        Some((rules, reason)) => if spec_rules_cover(rules, rule) {
            Some(reason)
        } else {
            None
        },
    }
}

/// The lines of a source text, split on newline characters.
pub open spec fn spec_lines(content: Seq<char>) -> Seq<Seq<char>> {
    split_on(content, '\n')
}

/// The allowance verdict for a site at `line` (1-indexed): the verdict
/// of the preceding line when it has one, else the verdict of the line
/// itself; out-of-range lines contribute nothing.
pub open spec fn spec_check_allow(content: Seq<char>, line: int, rule: Seq<char>) -> Option<
    Option<Seq<char>>,
> {
    let lines = spec_lines(content);
    let prev: Option<Option<Seq<char>>> = if 2 <= line && line - 1 <= lines.len() {
        spec_line_verdict(lines[line - 2], rule)
    } else {
        None
    };
    let own: Option<Option<Seq<char>>> = if 1 <= line && line <= lines.len() {
        spec_line_verdict(lines[line - 1], rule)
    } else {
        None
    };
    if prev is Some {
        prev
    } else {
        own
    }
}

/// Checks one line for a directive covering the rule.
fn check_one_line(l: &str, rule_name: &str) -> (r: Option<Option<String>>)
    ensures
        match r {
            Some(reason) => {
                &&& spec_line_verdict(l@, rule_name@) is Some
                &&& match reason {
                    Some(s) => spec_line_verdict(l@, rule_name@)->0 == Some(s@),
                    None => spec_line_verdict(l@, rule_name@)->0 is None,
                }
            },
            None => spec_line_verdict(l@, rule_name@) is None,
        },
{
    match parse_allow_directive(l) {
        None => None,
        Some(d) => {
            if rules_cover(&d.rules, rule_name) {
                Some(d.reason)
            } else {
                None
            }
        },
    }
}

/// Checks source code for allowance comments with reason: a directive
/// on the line itself or the line before that covers the rule.
pub fn check_allow_with_reason(content: &str, line: usize, rule_name: &str) -> (r: AllowCheck)
    ensures
        match r {
            AllowCheck::Allowed { reason } => {
                &&& spec_check_allow(content@, line as int, rule_name@) is Some
                &&& match reason {
                    Some(s) => spec_check_allow(content@, line as int, rule_name@)->0 == Some(s@),
                    None => spec_check_allow(content@, line as int, rule_name@)->0 is None,
                }
            },
            AllowCheck::Denied => spec_check_allow(content@, line as int, rule_name@) is None,
        },
{
    let lines = split_char(content, '\n');
    let n = lines.len();
    if line >= 2 && line - 1 <= n {
        proof {
            assert(str_views(lines@)[line - 2] == lines@[line - 2]@);
        }
        match check_one_line(lines[line - 2].as_str(), rule_name) {
            Some(reason) => {
                return AllowCheck::Allowed { reason };
            },
            None => {},
        }
    }
    if line >= 1 && line <= n {
        proof {
            assert(str_views(lines@)[line - 1] == lines@[line - 1]@);
        }
        match check_one_line(lines[line - 1].as_str(), rule_name) {
            Some(reason) => {
                return AllowCheck::Allowed { reason };
            },
            None => {},
        }
    }
    AllowCheck::Denied
}

/// Checks source code for allowance comments, without the reason.
pub fn check_allow_comment(content: &str, line: usize, rule_name: &str) -> (r: AllowState)
    ensures
        r is Allowed <==> spec_check_allow(content@, line as int, rule_name@) is Some,
{
    match check_allow_with_reason(content, line, rule_name) {
        AllowCheck::Allowed { .. } => AllowState::Allowed,
        AllowCheck::Denied => AllowState::Denied,
    }
}

} // verus!
