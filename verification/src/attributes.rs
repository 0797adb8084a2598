//! Attribute-based allowance: recognizing suppression attributes on
//! enclosing items from their extracted form.

use vstd::prelude::*;

verus! {

use crate::allowance::{AllowCheck, AllowDirective};
use crate::strutil::{
    contains_seq,
    contains_str,
    find_char,
    is_prefix,
    str_eq,
    str_views,
    starts_with,
    strip_prefix_str,
    trim_str,
};

/// One attribute of an item, in extracted form: its path segments, the
/// tokens of its argument list, its full rendering, and the string
/// value of a name-value form.
#[derive(Debug, Clone)]
pub struct AttrInfo {
    /// The attribute path's segments (e.g., `cfg` or `arch_lint`,
    /// `allow`).
    pub segments: Vec<String>,
    /// The tokens inside the argument list, rendered as text.
    pub tokens: String,
    /// The whole attribute rendered as text, spaces included.
    pub rendered: String,
    /// The string value of a `name = "value"` attribute, if any.
    pub value: Option<String>,
}

/// An attribute's path is the single identifier `name`.
pub open spec fn attr_is_ident(a: AttrInfo, name: Seq<char>) -> bool {
    a.segments@.len() == 1 && a.segments@[0]@ == name
}

/// Whether an attribute's path is one identifier.
fn is_ident(a: &AttrInfo, name: &str) -> (r: bool)
    ensures
        r == attr_is_ident(*a, name@),
{
    a.segments.len() == 1 && str_eq(a.segments[0].as_str(), name)
}

/// Checks if the attributes contain a specific single-identifier
/// attribute.
pub fn has_attr(attrs: &Vec<AttrInfo>, name: &str) -> (r: bool)
    ensures
        r == exists|i: int| 0 <= i < attrs@.len() && attr_is_ident(#[trigger] attrs@[i], name@),
{
    let n = attrs.len();
    let mut i: usize = 0;
    while i < n
        invariant
            0 <= i <= n,
            n == attrs@.len(),
            forall|j: int| 0 <= j < i ==> !attr_is_ident(#[trigger] attrs@[j], name@),
        decreases n - i,
    {
        if is_ident(&attrs[i], name) {
            return true;
        }
        i = i + 1;
    }
    false
}

/// Checks if the attributes contain a `test` attribute.
pub fn has_test_attr(attrs: &Vec<AttrInfo>) -> (r: bool)
    ensures
        r == exists|i: int|
            0 <= i < attrs@.len() && attr_is_ident(#[trigger] attrs@[i], "test"@),
{
    has_attr(attrs, "test")
}

/// A conditional-compilation test attribute: a `cfg` whose rendering
/// mentions `test`.
pub open spec fn attr_is_cfg_test(a: AttrInfo) -> bool {
    attr_is_ident(a, "cfg"@) && contains_seq(a.rendered@, "test"@)
}

/// Checks if the attributes contain a `cfg(test)`-style attribute.
pub fn has_cfg_test(attrs: &Vec<AttrInfo>) -> (r: bool)
    ensures
        r == exists|i: int| 0 <= i < attrs@.len() && attr_is_cfg_test(#[trigger] attrs@[i]),
{
    let n = attrs.len();
    let mut i: usize = 0;
    while i < n
        invariant
            0 <= i <= n,
            n == attrs@.len(),
            forall|j: int| 0 <= j < i ==> !attr_is_cfg_test(#[trigger] attrs@[j]),
        decreases n - i,
    {
        if is_ident(&attrs[i], "cfg") && contains_str(attrs[i].rendered.as_str(), "test") {
            return true;
        }
        i = i + 1;
    }
    false
}

/// The characters of `s` without spaces.
pub open spec fn despaced(s: Seq<char>) -> Seq<char> {
    s.filter(|c: char| c != ' ')
}

/// Removes every space character.
fn remove_spaces(s: &str) -> (r: String)
    ensures
        r@ == despaced(s@),
{
    let len = s.unicode_len();
    let mut out = String::new();
    let ghost keep = |c: char| c != ' ';
    let mut i: usize = 0;
    proof {
        assert(out@ =~= s@.subrange(0, 0).filter(keep));
    }
    while i < len
        invariant
            0 <= i <= len,
            len == s@.len(),
            keep == |c: char| c != ' ',
            out@ == s@.subrange(0, i as int).filter(keep),
        decreases len - i,
    {
        proof {
            crate::types::lemma_filter_push(s@.subrange(0, i as int), s@[i as int], keep);
            assert(s@.subrange(0, i + 1) =~= s@.subrange(0, i as int).push(s@[i as int]));
        }
        if s.get_char(i) != ' ' {
            let piece = s.substring_char(i, i + 1);
            let ghost old_out = out@;
            out.append(piece);
            proof {
                assert(piece@ =~= seq![s@[i as int]]);
                assert(out@ =~= old_out.push(s@[i as int]));
            }
        }
        i = i + 1;
    }
    proof {
        assert(s@.subrange(0, len as int) =~= s@);
    }
    out
}

/// An `allow` attribute whose space-free rendering mentions the
/// space-free lint name.
pub open spec fn attr_allows_lint(a: AttrInfo, lint: Seq<char>) -> bool {
    attr_is_ident(a, "allow"@) && contains_seq(despaced(a.rendered@), despaced(lint))
}

/// Checks if the attributes carry an `allow` for one of the lints.
pub fn has_allow_attr(attrs: &Vec<AttrInfo>, lint_names: &Vec<String>) -> (r: bool)
    ensures
        r == exists|i: int, k: int|
            0 <= i < attrs@.len() && 0 <= k < lint_names@.len() && attr_allows_lint(
                #[trigger] attrs@[i],
                (#[trigger] lint_names@[k])@,
            ),
{
    let n = attrs.len();
    let mut i: usize = 0;
    while i < n
        invariant
            0 <= i <= n,
            n == attrs@.len(),
            forall|j: int, k: int|
                0 <= j < i && 0 <= k < lint_names@.len() ==> !attr_allows_lint(
                    #[trigger] attrs@[j],
                    (#[trigger] lint_names@[k])@,
                ),
        decreases n - i,
    {
        if is_ident(&attrs[i], "allow") {
            let rendered = remove_spaces(attrs[i].rendered.as_str());
            let nl = lint_names.len();
            let mut k: usize = 0;
            while k < nl
                invariant
                    0 <= k <= nl,
                    0 <= i < attrs@.len(),
                    nl == lint_names@.len(),
                    attr_is_ident(attrs@[i as int], "allow"@),
                    rendered@ == despaced(attrs@[i as int].rendered@),
                    forall|q: int|
                        0 <= q < k ==> !attr_allows_lint(
                            attrs@[i as int],
                            (#[trigger] lint_names@[q])@,
                        ),
                decreases nl - k,
            {
                let lint = remove_spaces(lint_names[k].as_str());
                if contains_str(rendered.as_str(), lint.as_str()) {
                    return true;
                }
                k = k + 1;
            }
        }
        i = i + 1;
    }
    false
}

/// Extracts the value of the first `name = "value"` attribute with the
/// given name.
pub fn get_attr_value(attrs: &Vec<AttrInfo>, name: &str) -> (r: Option<String>)
    ensures
        r is None ==> forall|i: int|
            0 <= i < attrs@.len() ==> !(attr_is_ident(#[trigger] attrs@[i], name@)
                && attrs@[i].value is Some),
{
    let n = attrs.len();
    let mut i: usize = 0;
    while i < n
        invariant
            0 <= i <= n,
            n == attrs@.len(),
            forall|j: int|
                0 <= j < i ==> !(attr_is_ident(#[trigger] attrs@[j], name@)
                    && attrs@[j].value is Some),
        decreases n - i,
    {
        if is_ident(&attrs[i], name) {
            match &attrs[i].value {
                Some(v) => {
                    return Some(v.clone());
                },
                None => {},
            }
        }
        i = i + 1;
    }
    None
}

/// An attribute path that the suppression system recognizes: the
/// two-segment `arch_lint::allow` or `arch_lint_macros::allow`.
pub open spec fn spec_is_arch_allow_path(a: AttrInfo) -> bool {
    a.segments@.len() == 2 && (a.segments@[0]@ == "arch_lint"@ || a.segments@[0]@
        == "arch_lint_macros"@) && a.segments@[1]@ == "allow"@
}

/// Checks if an attribute is a recognized allow attribute.
pub fn is_arch_lint_allow_path(attr: &AttrInfo) -> (r: bool)
    ensures
        r == spec_is_arch_allow_path(*attr),
{
    if attr.segments.len() != 2 {
        return false;
    }
    (str_eq(attr.segments[0].as_str(), "arch_lint") || str_eq(
        attr.segments[0].as_str(),
        "arch_lint_macros",
    )) && str_eq(attr.segments[1].as_str(), "allow")
}

/// A token separator inside an allow attribute's argument list: a
/// comma or whitespace.
pub open spec fn is_tok_sep(c: char) -> bool {
    c == ',' || crate::strutil::is_space(c)
}

/// The index of the first token separator at or after `i`, or the
/// length when there is none.
pub open spec fn word_end_from(s: Seq<char>, i: int) -> int
    decreases s.len() - i,
{
    if i < 0 || i >= s.len() {
        s.len() as int
    } else if is_tok_sep(s[i]) {
        i
    } else {
        word_end_from(s, i + 1)
    }
}

/// When the characters from `i` to `k` are non-separators and `k` ends
/// the word, `k` is the word end.
proof fn lemma_word_end_at(s: Seq<char>, i: int, k: int)
    requires
        0 <= i <= k <= s.len(),
        forall|j: int| i <= j < k ==> !is_tok_sep(#[trigger] s[j]),
        k == s.len() || is_tok_sep(s[k]),
    ensures
        word_end_from(s, i) == k,
    decreases k - i,
{
    if i < k {
        lemma_word_end_at(s, i + 1, k);
    }
}

/// The index of the first non-space character at or after `i`, or the
/// length when there is none.
pub open spec fn ws_end_from(s: Seq<char>, i: int) -> int
    decreases s.len() - i,
{
    if i < 0 || i >= s.len() {
        s.len() as int
    } else if crate::strutil::is_space(s[i]) {
        ws_end_from(s, i + 1)
    } else {
        i
    }
}

/// When the characters from `i` to `k` are spaces and `k` ends them,
/// `k` is the whitespace end.
proof fn lemma_ws_end_at(s: Seq<char>, i: int, k: int)
    requires
        0 <= i <= k <= s.len(),
        forall|j: int| i <= j < k ==> crate::strutil::is_space(#[trigger] s[j]),
        k == s.len() || !crate::strutil::is_space(s[k]),
    ensures
        ws_end_from(s, i) == k,
    decreases k - i,
{
    if i < k {
        lemma_ws_end_at(s, i + 1, k);
    }
}

/// The index of the first occurrence of `c` at or after `i`, or `-1`.
pub open spec fn first_idx_from(s: Seq<char>, i: int, c: char) -> int
    decreases s.len() - i,
{
    if i < 0 || i >= s.len() {
        -1
    } else if s[i] == c {
        i
    } else {
        first_idx_from(s, i + 1, c)
    }
}

/// When `c` stands at `k` and nowhere between `i` and `k`, `k` is the
/// first occurrence from `i`.
proof fn lemma_first_idx_from_at(s: Seq<char>, i: int, c: char, k: int)
    requires
        0 <= i <= k < s.len(),
        s[k] == c,
        forall|j: int| i <= j < k ==> #[trigger] s[j] != c,
    ensures
        first_idx_from(s, i, c) == k,
    decreases k - i,
{
    if i < k {
        lemma_first_idx_from_at(s, i + 1, c, k);
    }
}

/// When `c` is nowhere at or after `i`, there is no occurrence.
proof fn lemma_first_idx_from_none(s: Seq<char>, i: int, c: char)
    requires
        forall|j: int| i <= j < s.len() ==> #[trigger] s[j] != c,
    ensures
        first_idx_from(s, i, c) < 0,
    decreases s.len() - i,
{
    if 0 <= i && i < s.len() {
        lemma_first_idx_from_none(s, i + 1, c);
    }
}

/// The scan of an allow attribute's tokens from position `i`: the rule
/// names in order, the last `reason = "..."` assignment, and whether
/// every opened reason quote was closed. A bare `reason` word without
/// an assignment is dropped.
pub open spec fn spec_scan_tokens(s: Seq<char>, i: int) -> (
    Seq<Seq<char>>,
    Option<Seq<char>>,
    bool,
)
    decreases s.len() - i,
{
    if i < 0 || i >= s.len() {
        (Seq::empty(), None::<Seq<char>>, true)
    } else if is_tok_sep(s[i]) {
        spec_scan_tokens(s, i + 1)
    } else {
        let e_raw = word_end_from(s, i);
        let e = if e_raw <= i {
            i + 1
        } else if e_raw > s.len() {
            s.len() as int
        } else {
            e_raw
        };
        let word = s.subrange(i, e);
        if word == "reason"@ {
            let q = ws_end_from(s, e);
            if 0 <= q && q < s.len() && s[q] == '=' {
                let q2 = ws_end_from(s, q + 1);
                if 0 <= q2 && q2 < s.len() && s[q2] == '"' {
                    let close = first_idx_from(s, q2 + 1, '"');
                    if close < q2 + 1 || close >= s.len() {
                        (Seq::empty(), None::<Seq<char>>, false)
                    } else {
                        let nxt = if close + 1 <= i {
                            i + 1
                        } else {
                            close + 1
                        };
                        let rest = spec_scan_tokens(s, nxt);
                        (
                            rest.0,
                            if rest.1 is Some {
                                rest.1
                            } else {
                                Some(s.subrange(q2 + 1, close))
                            },
                            rest.2,
                        )
                    }
                } else {
                    spec_scan_tokens(s, e)
                }
            } else {
                spec_scan_tokens(s, e)
            }
        } else {
            let rest = spec_scan_tokens(s, e);
            (seq![word] + rest.0, rest.1, rest.2)
        }
    }
}

/// The parsed directive of an allow attribute's tokens: its rule names
/// and optional reason. Nothing when no rule is listed or a reason
/// quote is left unclosed.
pub open spec fn spec_parse_attr_tokens(tokens: Seq<char>) -> Option<
    (Seq<Seq<char>>, Option<Seq<char>>),
> {
    let scan = spec_scan_tokens(tokens, 0);
    if !scan.2 || scan.0.len() == 0 {
        None
    } else {
        Some((scan.0, scan.1))
    }
}

/// Scans an allow attribute's tokens from position `i`.
fn scan_tokens(s: &str, i: usize) -> (r: (Vec<String>, Option<String>, bool))
    requires
        i <= s@.len(),
    ensures
        ({
            let spec = spec_scan_tokens(s@, i as int);
            &&& str_views(r.0@) == spec.0
            &&& match r.1 {
                Some(re) => spec.1 == Some(re@),
                None => spec.1 is None,
            }
            &&& r.2 == spec.2
        }),
    decreases s@.len() - i,
{
    let len = s.unicode_len();
    if i >= len {
        let empty: Vec<String> = Vec::new();
        proof {
            assert(str_views(empty@) =~= Seq::<Seq<char>>::empty());
        }
        return (empty, None, true);
    }
    if s.get_char(i) == ',' || crate::strutil::is_space_char(s.get_char(i)) {
        return scan_tokens(s, i + 1);
    }
    // Scan the word up to the next separator.
    let mut e: usize = i;
    while e < len && s.get_char(e) != ',' && !crate::strutil::is_space_char(s.get_char(e))
        invariant
            i <= e <= len,
            len == s@.len(),
            forall|j: int| i <= j < e ==> !is_tok_sep(#[trigger] s@[j]),
        decreases len - e,
    {
        e = e + 1;
    }
    proof {
        lemma_word_end_at(s@, i as int, e as int);
    }
    let word = s.substring_char(i, e);
    if str_eq(word, "reason") {
        // Try to read `= "..."` after the word.
        let mut q: usize = e;
        while q < len && crate::strutil::is_space_char(s.get_char(q))
            invariant
                e <= q <= len,
                len == s@.len(),
                forall|j: int| e <= j < q ==> crate::strutil::is_space(#[trigger] s@[j]),
            decreases len - q,
        {
            q = q + 1;
        }
        proof {
            lemma_ws_end_at(s@, e as int, q as int);
        }
        if q < len && s.get_char(q) == '=' {
            let mut q2: usize = q + 1;
            while q2 < len && crate::strutil::is_space_char(s.get_char(q2))
                invariant
                    q + 1 <= q2 <= len,
                    len == s@.len(),
                    forall|j: int| q + 1 <= j < q2 ==> crate::strutil::is_space(#[trigger] s@[j]),
                decreases len - q2,
            {
                q2 = q2 + 1;
            }
            proof {
                lemma_ws_end_at(s@, q + 1, q2 as int);
            }
            if q2 < len && s.get_char(q2) == '"' {
                // Find the closing quote.
                let mut close: usize = q2 + 1;
                while close < len && s.get_char(close) != '"'
                    invariant
                        q2 + 1 <= close <= len,
                        len == s@.len(),
                        forall|j: int| q2 + 1 <= j < close ==> #[trigger] s@[j] != '"',
                    decreases len - close,
                {
                    close = close + 1;
                }
                if close >= len {
                    proof {
                        lemma_first_idx_from_none(s@, q2 + 1, '"');
                    }
                    let empty: Vec<String> = Vec::new();
                    proof {
                        assert(str_views(empty@) =~= Seq::<Seq<char>>::empty());
                    }
                    return (empty, None, false);
                }
                proof {
                    lemma_first_idx_from_at(s@, q2 + 1, '"', close as int);
                }
                let r0 = s.substring_char(q2 + 1, close);
                let rest = scan_tokens(s, close + 1);
                let reason = match rest.1 {
                    Some(re) => Some(re),
                    None => Some(r0.to_owned()),
                };
                return (rest.0, reason, rest.2);
            }
        }
        // No assignment followed; drop the bare word.
        return scan_tokens(s, e);
    }
    let rest = scan_tokens(s, e);
    let mut rules = rest.0;
    let ghost old_rules = rules@;
    rules.insert(0, word.to_owned());
    proof {
        assert(str_views(rules@) =~= seq![word@] + str_views(old_rules));
    }
    (rules, rest.1, rest.2)
}

/// Parses the tokens inside an allow attribute's argument list:
/// comma-separated rule names with an optional quoted `reason`
/// assignment. At least one rule name must be found, and an opened
/// reason quote must be closed.
pub fn parse_allow_attr_tokens(tokens: &str) -> (r: Option<AllowDirective>)
    ensures
        match r {
            Some(d) => {
                &&& spec_parse_attr_tokens(tokens@) is Some
                &&& str_views(d.rules@) == (spec_parse_attr_tokens(tokens@)->0).0
                &&& match d.reason {
                    Some(re) => (spec_parse_attr_tokens(tokens@)->0).1 == Some(re@),
                    None => (spec_parse_attr_tokens(tokens@)->0).1 is None,
                }
            },
            None => spec_parse_attr_tokens(tokens@) is None,
        },
{
    let (rules, reason, ok) = scan_tokens(tokens, 0);
    if !ok || rules.len() == 0 {
        return None;
    }
    Some(AllowDirective { rules, reason })
}

/// An attribute covers a rule: it is a recognized allow attribute
/// whose parsed rule list names the rule (kebab-case and snake_case
/// treated alike) or `all`.
pub open spec fn spec_attr_covers(a: AttrInfo, rule: Seq<char>) -> bool {
    spec_is_arch_allow_path(a) && match spec_parse_attr_tokens(a.tokens@) {
        Some((rules, _)) => exists|i: int|
            0 <= i < rules.len() && (underscored(#[trigger] rules[i]) == underscored(rule)
                || rules[i] == "all"@),
        None => false,
    }
}

/// The verdict of an attribute list for a rule: the first covering
/// attribute's reason, or nothing when none covers it.
pub open spec fn spec_arch_allow(attrs: Seq<AttrInfo>, rule: Seq<char>) -> Option<
    Option<Seq<char>>,
>
    decreases attrs.len(),
{
    if attrs.len() == 0 {
        None
    } else if spec_attr_covers(attrs[0], rule) {
        Some((spec_parse_attr_tokens(attrs[0].tokens@)->0).1)
    } else {
        spec_arch_allow(attrs.subrange(1, attrs.len() as int), rule)
    }
}

/// Checks the attributes for a recognized allow covering the rule,
/// matching names with kebab-case and snake_case treated alike: the
/// first covering attribute's reason decides.
pub fn check_arch_lint_allow(attrs: &Vec<AttrInfo>, rule_name: &str) -> (r: AllowCheck)
    ensures
        match r {
            AllowCheck::Allowed { reason } => {
                &&& spec_arch_allow(attrs@, rule_name@) is Some
                &&& match reason {
                    Some(re) => spec_arch_allow(attrs@, rule_name@)->0 == Some(re@),
                    None => spec_arch_allow(attrs@, rule_name@)->0 is None,
                }
            },
            AllowCheck::Denied => spec_arch_allow(attrs@, rule_name@) is None,
        },
{
    let normalized_rule = dashes_to_underscores(rule_name);
    let n = attrs.len();
    let mut i: usize = 0;
    proof {
        assert(attrs@.subrange(0, n as int) =~= attrs@);
    }
    while i < n
        invariant
            0 <= i <= n,
            n == attrs@.len(),
            normalized_rule@ == underscored(rule_name@),
            spec_arch_allow(attrs@, rule_name@) == spec_arch_allow(
                attrs@.subrange(i as int, n as int),
                rule_name@,
            ),
        decreases n - i,
    {
        let ghost suffix = attrs@.subrange(i as int, n as int);
        proof {
            assert(suffix[0] == attrs@[i as int]);
        }
        if is_arch_lint_allow_path(&attrs[i]) {
            match parse_allow_attr_tokens(attrs[i].tokens.as_str()) {
                Some(directive) => {
                    let nr = directive.rules.len();
                    let ghost spec_rules = (spec_parse_attr_tokens(attrs@[i as int].tokens@)->0).0;
                    let mut k: usize = 0;
                    while k < nr
                        invariant
                            0 <= k <= nr,
                            0 <= i < attrs@.len(),
                            n == attrs@.len(),
                            nr == directive.rules@.len(),
                            str_views(directive.rules@) == spec_rules,
                            normalized_rule@ == underscored(rule_name@),
                            spec_is_arch_allow_path(attrs@[i as int]),
                            spec_parse_attr_tokens(attrs@[i as int].tokens@) is Some,
                            spec_rules == (spec_parse_attr_tokens(attrs@[i as int].tokens@)->0).0,
                            match directive.reason {
                                Some(re) => (spec_parse_attr_tokens(
                                    attrs@[i as int].tokens@,
                                )->0).1 == Some(re@),
                                None => (spec_parse_attr_tokens(attrs@[i as int].tokens@)->0).1
                                    is None,
                            },
                            spec_arch_allow(attrs@, rule_name@) == spec_arch_allow(
                                attrs@.subrange(i as int, n as int),
                                rule_name@,
                            ),
                            forall|j: int|
                                0 <= j < k ==> !(underscored(#[trigger] spec_rules[j])
                                    == underscored(rule_name@) || spec_rules[j] == "all"@),
                        decreases nr - k,
                    {
                        let nr2 = dashes_to_underscores(directive.rules[k].as_str());
                        if str_eq(nr2.as_str(), normalized_rule.as_str()) || str_eq(
                            directive.rules[k].as_str(),
                            "all",
                        ) {
                            proof {
                                assert(spec_rules[k as int] == directive.rules@[k as int]@);
                                assert(underscored(spec_rules[k as int]) == underscored(
                                    rule_name@,
                                ) || spec_rules[k as int] == "all"@);
                                assert(spec_attr_covers(attrs@[i as int], rule_name@));
                                assert(attrs@.subrange(i as int, n as int)[0]
                                    == attrs@[i as int]);
                                assert(spec_arch_allow(
                                    attrs@.subrange(i as int, n as int),
                                    rule_name@,
                                ) == Some(
                                    (spec_parse_attr_tokens(attrs@[i as int].tokens@)->0).1,
                                ));
                            }
                            return AllowCheck::Allowed { reason: directive.reason };
                        }
                        k = k + 1;
                    }
                    proof {
                        assert(!spec_attr_covers(attrs@[i as int], rule_name@));
                    }
                },
                None => {
                    proof {
                        assert(!spec_attr_covers(attrs@[i as int], rule_name@));
                    }
                },
            }
        } else {
            proof {
                assert(!spec_attr_covers(attrs@[i as int], rule_name@));
            }
        }
        proof {
            assert(suffix.subrange(1, suffix.len() as int) =~= attrs@.subrange(i + 1, n as int));
        }
        i = i + 1;
    }
    proof {
        assert(attrs@.subrange(n as int, n as int).len() == 0);
    }
    AllowCheck::Denied
}

/// The characters of `s` with dashes turned into underscores.
pub open spec fn underscored(s: Seq<char>) -> Seq<char> {
    Seq::new(s.len(), |i: int| if s[i] == '-' {
        '_'
    } else {
        s[i]
    })
}

/// Replaces every dash with an underscore.
pub fn dashes_to_underscores(s: &str) -> (r: String)
    ensures
        r@ == underscored(s@),
{
    let len = s.unicode_len();
    let mut out = String::new();
    let mut i: usize = 0;
    proof {
        assert(out@ =~= underscored(s@).subrange(0, 0));
    }
    while i < len
        invariant
            0 <= i <= len,
            len == s@.len(),
            out@ == underscored(s@).subrange(0, i as int),
        decreases len - i,
    {
        let ghost old_out = out@;
        if s.get_char(i) == '-' {
            out.append("_");
            proof {
                reveal_strlit("_");
                assert(out@ =~= old_out.push('_'));
            }
        } else {
            let piece = s.substring_char(i, i + 1);
            out.append(piece);
            proof {
                assert(piece@ =~= seq![s@[i as int]]);
                assert(out@ =~= old_out.push(s@[i as int]));
            }
        }
        proof {
            assert(underscored(s@).subrange(0, i + 1) =~= underscored(s@).subrange(
                0,
                i as int,
            ).push(underscored(s@)[i as int]));
        }
        i = i + 1;
    }
    proof {
        assert(underscored(s@).subrange(0, len as int) =~= underscored(s@));
    }
    out
}

} // verus!
