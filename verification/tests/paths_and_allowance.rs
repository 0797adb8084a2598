//! Use-path pattern matching and the comment-based allowance system.

use arch_lint::allowance::{check_allow_comment, check_allow_with_reason, parse_allow_directive, AllowState};
use arch_lint::attributes::{check_arch_lint_allow, parse_allow_attr_tokens, AttrInfo};
use arch_lint::paths::{is_from_module, last_segment, path_matches, path_to_string, split_path};

#[test]
fn test_path_matches_literal() {
    assert!(path_matches("std::fs::read", "std::fs::read"));
    assert!(!path_matches("std::fs::read", "std::fs::write"));
}

#[test]
fn test_path_matches_wildcard() {
    assert!(path_matches("std::fs::read", "std::fs::*"));
    assert!(path_matches("std::fs::write", "std::fs::*"));
    assert!(!path_matches("std::io::read", "std::fs::*"));
}

#[test]
fn test_path_matches_globstar() {
    assert!(path_matches("std::fs::read", "std::**"));
    assert!(path_matches("std::fs::read", "std::fs::**"));
    assert!(path_matches("std::collections::hash_map::HashMap", "std::**"));
}

#[test]
fn test_last_segment() {
    assert_eq!(last_segment("std::fs::read"), "read");
    assert_eq!(last_segment("read"), "read");
}

#[test]
fn test_is_from_module() {
    assert!(is_from_module("std::fs::read", "std"));
    assert!(is_from_module("std::fs::read", "std::fs"));
    assert!(!is_from_module("tokio::fs::read", "std"));
}

#[test]
fn split_and_join_round_trip() {
    let parts = split_path("a::b::c");
    assert_eq!(parts, vec!["a".to_string(), "b".to_string(), "c".to_string()]);
    assert_eq!(path_to_string(&parts), "a::b::c");
}

#[test]
fn globstar_matches_zero_segments() {
    assert!(path_matches("std::fs", "std::fs::**"));
    assert!(!path_matches("std::io::read", "std::fs::**"));
}

#[test]
fn test_parse_allow_directive() {
    let directive = parse_allow_directive("// arch-lint: allow(no-unwrap-expect)");
    assert!(directive.is_some());
    let directive = directive.unwrap();
    assert!(directive.rules.contains(&"no-unwrap-expect".to_string()));
    assert!(directive.reason.is_none());
}

#[test]
fn test_parse_allow_directive_with_reason() {
    let directive =
        parse_allow_directive("// arch-lint: allow(no-sync-io) reason=\"startup only\"");
    assert!(directive.is_some());
    let directive = directive.unwrap();
    assert!(directive.rules.contains(&"no-sync-io".to_string()));
    assert_eq!(directive.reason, Some("startup only".to_string()));
}

#[test]
fn test_parse_multiple_rules() {
    let directive = parse_allow_directive("// arch-lint: allow(rule1, rule2, rule3)");
    assert!(directive.is_some());
    let directive = directive.unwrap();
    assert!(directive.rules.contains(&"rule1".to_string()));
    assert!(directive.rules.contains(&"rule2".to_string()));
    assert!(directive.rules.contains(&"rule3".to_string()));
}

#[test]
fn test_check_allow_comment() {
    let content = "fn foo() {\n    // arch-lint: allow(no-unwrap-expect)\n    value.unwrap();\n}";

    assert_eq!(
        check_allow_comment(content, 3, "no-unwrap-expect"),
        AllowState::Allowed
    );
    assert_eq!(
        check_allow_comment(content, 3, "other-rule"),
        AllowState::Denied
    );
}

#[test]
fn test_check_allow_with_reason() {
    let content = "fn foo() {\n    // arch-lint: allow(no-unwrap-expect) reason=\"Guaranteed by loop invariant\"\n    value.unwrap();\n}";

    let result = check_allow_with_reason(content, 3, "no-unwrap-expect");
    assert!(result.is_allowed());
    assert_eq!(result.reason(), Some("Guaranteed by loop invariant"));
}

#[test]
fn test_check_allow_without_reason() {
    let content = "fn foo() {\n    // arch-lint: allow(no-unwrap-expect)\n    value.unwrap();\n}";

    let result = check_allow_with_reason(content, 3, "no-unwrap-expect");
    assert!(result.is_allowed());
    assert_eq!(result.reason(), None);
}

#[test]
fn test_check_allow_denied() {
    let content = "fn foo() {\n    value.unwrap();\n}";

    let result = check_allow_with_reason(content, 2, "no-unwrap-expect");
    assert!(!result.is_allowed());
    assert_eq!(result.reason(), None);
}

#[test]
fn allow_all_covers_every_rule() {
    let content = "// arch-lint: allow(all) reason=\"migration\"\nvalue.unwrap();";
    let result = check_allow_with_reason(content, 2, "no-sync-io");
    assert!(result.is_allowed());
    assert_eq!(result.reason(), Some("migration"));
}

#[test]
fn directive_on_own_line_applies() {
    let content = "value.unwrap(); // arch-lint: allow(no-unwrap-expect)";
    // A trailing comment is not a comment line, so nothing is allowed.
    let result = check_allow_with_reason(content, 1, "no-unwrap-expect");
    assert!(!result.is_allowed());

    let content2 = "// arch-lint: allow(no-unwrap-expect)";
    let result2 = check_allow_with_reason(content2, 1, "no-unwrap-expect");
    assert!(result2.is_allowed());
}

fn arch_allow_attr(tokens: &str) -> AttrInfo {
    AttrInfo {
        segments: vec!["arch_lint".to_string(), "allow".to_string()],
        tokens: tokens.to_string(),
        rendered: String::new(),
        value: None,
    }
}

#[test]
fn test_parse_allow_attr_tokens() {
    let directive = parse_allow_attr_tokens("no_unwrap_expect").unwrap();
    assert!(directive.rules.contains(&"no_unwrap_expect".to_string()));
    assert!(directive.reason.is_none());

    let directive =
        parse_allow_attr_tokens("no_unwrap_expect, reason = \"test reason\"").unwrap();
    assert!(directive.rules.contains(&"no_unwrap_expect".to_string()));
    assert_eq!(directive.reason, Some("test reason".to_string()));

    let directive = parse_allow_attr_tokens("rule1, rule2, reason = \"multi\"").unwrap();
    assert!(directive.rules.contains(&"rule1".to_string()));
    assert!(directive.rules.contains(&"rule2".to_string()));
    assert_eq!(directive.reason, Some("multi".to_string()));
}

#[test]
fn attr_tokens_unclosed_quote_is_rejected() {
    assert!(parse_allow_attr_tokens("rule1, reason = \"open").is_none());
    assert!(parse_allow_attr_tokens("").is_none());
}

#[test]
fn test_check_arch_lint_allow_kebab_case_normalization() {
    let attrs = vec![arch_allow_attr("no_unwrap_expect")];
    assert!(check_arch_lint_allow(&attrs, "no-unwrap-expect").is_allowed());
    assert!(check_arch_lint_allow(&attrs, "no_unwrap_expect").is_allowed());
    assert!(!check_arch_lint_allow(&attrs, "other-rule").is_allowed());
}

#[test]
fn check_arch_lint_allow_reads_reason() {
    let attrs = vec![arch_allow_attr("no_sync_io, reason = \"validated\"")];
    let r = check_arch_lint_allow(&attrs, "no-sync-io");
    assert!(r.is_allowed());
    assert_eq!(r.reason(), Some("validated"));
    let plain = vec![AttrInfo {
        segments: vec!["allow".to_string()],
        tokens: "unused".to_string(),
        rendered: String::new(),
        value: None,
    }];
    assert!(!check_arch_lint_allow(&plain, "no-sync-io").is_allowed());
}
