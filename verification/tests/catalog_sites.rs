//! Site decisions of the built-in rule catalog: panic macros,
//! synchronous I/O, silent result drops, conversion impls, error
//! types, and async traits.

use arch_lint::catalog::{
    is_action_enum, is_handler_function, AsyncTraitSendCheck, DocItemKind, HandlerComplexity,
    NoErrorSwallowing, NoPanicInLib, NoSilentResultDrop, NoSyncIo, PreferFromOverInto,
    RequireDocComments, RequireThiserror, RuntimeMode, StmtFact,
};
use arch_lint::severity::Severity;

#[test]
fn panic_macro_is_flagged_outside_tests() {
    let rule = NoPanicInLib::new();
    let v = rule.check_macro_site("", "src/lib.rs", "panic", 3, 4, false, false);
    assert_eq!(v.len(), 1);
    assert_eq!(v[0].code, "AL011");
    assert_eq!(v[0].severity, Severity::Error);
}

#[test]
fn panic_macro_is_allowed_in_tests() {
    let rule = NoPanicInLib::new();
    let v = rule.check_macro_site("", "src/lib.rs", "todo", 3, 4, true, false);
    assert!(v.is_empty());
}

#[test]
fn ordinary_macro_is_not_flagged() {
    let rule = NoPanicInLib::new();
    let v = rule.check_macro_site("", "src/lib.rs", "println", 3, 4, false, false);
    assert!(v.is_empty());
}

#[test]
fn sync_io_call_is_flagged() {
    let rule = NoSyncIo::new();
    let v = rule.check_call_site("", "src/lib.rs", "std::fs::read_to_string", 7, 8, );
    assert_eq!(v.len(), 1);
    assert_eq!(v[0].code, "AL002");
    assert!(v[0].message.contains("std::fs::read_to_string"));
}

#[test]
fn async_alternative_is_allowed() {
    let rule = NoSyncIo::new();
    let v = rule.check_call_site("", "src/lib.rs", "tokio::fs::read_to_string", 7, 8);
    assert!(v.is_empty());
}

#[test]
fn silent_drop_flags_unwrap_or() {
    let rule = NoSilentResultDrop::new();
    let v = rule.check_method_site("", "src/lib.rs", "unwrap_or", 2, 10, false);
    assert_eq!(v.len(), 1);
    assert_eq!(v[0].code, "AL013");
}

#[test]
fn silent_drop_can_allow_ok() {
    let rule = NoSilentResultDrop::new().allow_ok(true);
    assert!(rule.check_method_site("", "src/lib.rs", "ok", 2, 10, false).is_empty());
    let strict = NoSilentResultDrop::new();
    assert_eq!(strict.check_method_site("", "src/lib.rs", "ok", 2, 10, false).len(), 1);
}

#[test]
fn silent_drop_let_underscore_configurable() {
    let rule = NoSilentResultDrop::new();
    assert_eq!(rule.check_let_underscore_site("", "src/lib.rs", 4, 4, false).len(), 1);
    let relaxed = NoSilentResultDrop::new().allow_let_underscore(true);
    assert!(relaxed.check_let_underscore_site("", "src/lib.rs", 4, 4, false).is_empty());
}

#[test]
fn into_impl_is_flagged() {
    let rule = PreferFromOverInto::new();
    let v = rule.check_impl_site("", "src/convert.rs", 10, 0);
    assert_eq!(v.len(), 1);
    assert_eq!(v[0].code, "AL010");
    assert!(v[0].message.contains("From"));
}

#[test]
fn error_type_without_derive_is_flagged() {
    let rule = RequireThiserror::new();
    let v = rule.check_type_site("", "src/err.rs", "ParseError", 5, 0, false);
    assert_eq!(v.len(), 1);
    assert_eq!(v[0].code, "AL005");
    let ok = rule.check_type_site("", "src/err.rs", "ParseError", 5, 0, true);
    assert!(ok.is_empty());
    let other = rule.check_type_site("", "src/err.rs", "Parser", 5, 0, false);
    assert!(other.is_empty());
}

#[test]
fn error_type_allow_scans_from_attribute_line() {
    // The directive above the attribute stack covers the declaration.
    let content = "// arch-lint: allow(require-thiserror)\n#[non_exhaustive]\npub struct IoError;";
    let rule = RequireThiserror::new();
    let v = rule.check_type_site(content, "src/err.rs", "IoError", 2, 0, false);
    assert!(v.is_empty());
}

#[test]
fn async_trait_without_opt_out_is_flagged() {
    let rule = AsyncTraitSendCheck::new();
    let v = rule.check_trait_site("", "src/port.rs", "Repository", 3, 0, true, false, false);
    assert_eq!(v.len(), 1);
    assert_eq!(v[0].code, "AL009");
    assert!(rule
        .check_trait_site("", "src/port.rs", "Repository", 3, 0, true, true, false)
        .is_empty());
    let multi = AsyncTraitSendCheck::new().runtime_mode(RuntimeMode::MultiThread);
    assert!(multi
        .check_trait_site("", "src/port.rs", "Repository", 3, 0, true, false, false)
        .is_empty());
}

#[test]
fn handler_and_action_name_patterns() {
    assert!(is_handler_function("handle_login"));
    assert!(is_handler_function("process_order"));
    assert!(is_handler_function("on_click"));
    assert!(is_handler_function("update"));
    assert!(!is_handler_function("compute"));
    assert!(is_action_enum("UserAction"));
    assert!(is_action_enum("Msg"));
    assert!(!is_action_enum("State"));
}

#[test]
fn handler_complexity_builders_set_limits() {
    let rule = HandlerComplexity::new()
        .max_handler_lines(100)
        .max_match_arms(10)
        .max_enum_variants(5)
        .severity(Severity::Error);
    assert_eq!(rule.config.max_handler_lines, 100);
    assert_eq!(rule.config.max_match_arms, 10);
    assert_eq!(rule.config.max_enum_variants, 5);
    assert_eq!(rule.severity, Severity::Error);
}

#[test]
fn sync_io_path_method_is_flagged() {
    let rule = NoSyncIo::new();
    let v = rule.check_method_site("", "src/lib.rs", "exists", 4, 10);
    assert_eq!(v.len(), 1);
    assert_eq!(v[0].code, "AL002");
    assert!(v[0].message.contains("exists"));
    assert!(rule.check_method_site("", "src/lib.rs", "push", 4, 10).is_empty());
}

#[test]
fn error_swallowing_flags_logging_only_arms() {
    let rule = NoErrorSwallowing::new();
    let logging_only = vec![
        StmtFact::LoggingMacro { path: "log::error".to_string() },
        StmtFact::BareReturnUnit,
    ];
    let v = rule.check_err_arm_site("", "src/svc.rs", 8, 12, &logging_only, false);
    assert_eq!(v.len(), 1);
    assert_eq!(v[0].code, "AL003");
    assert_eq!(v[0].severity, Severity::Warning);
}

#[test]
fn error_swallowing_allows_real_handling() {
    let rule = NoErrorSwallowing::new();
    let handles = vec![
        StmtFact::LoggingMacro { path: "log::error".to_string() },
        StmtFact::Other,
    ];
    assert!(rule.check_err_arm_site("", "src/svc.rs", 8, 12, &handles, false).is_empty());
    // An empty body is not a logging-only body.
    assert!(rule.check_err_arm_site("", "src/svc.rs", 8, 12, &vec![], false).is_empty());
    // Test contexts are skipped.
    assert!(rule
        .check_err_arm_site(
            "",
            "src/svc.rs",
            8,
            12,
            &vec![StmtFact::BareReturnUnit],
            true,
        )
        .is_empty());
}

#[test]
fn handler_budget_decisions() {
    let rule = HandlerComplexity::new().max_handler_lines(10).max_match_arms(3).max_enum_variants(
        2,
    );
    assert_eq!(
        rule.check_handler_site("", "src/h.rs", "handle_login", 11, 2, 0).len(),
        1
    );
    assert!(rule.check_handler_site("", "src/h.rs", "handle_login", 10, 2, 0).is_empty());
    assert!(rule.check_handler_site("", "src/h.rs", "compute", 99, 2, 0).is_empty());
    assert_eq!(rule.check_match_site("", "src/h.rs", 4, 5, 0).len(), 1);
    assert!(rule.check_match_site("", "src/h.rs", 3, 5, 0).is_empty());
    assert_eq!(rule.check_enum_site("", "src/h.rs", "UserAction", 3, 7, 0).len(), 1);
    assert!(rule.check_enum_site("", "src/h.rs", "State", 9, 7, 0).is_empty());
}

#[test]
fn doc_comments_decisions() {
    let rule = RequireDocComments::new();
    let v = rule.check_item_doc_site("", "src/api.rs", DocItemKind::Function, "run", true, false, 3, 0);
    assert_eq!(v.len(), 1);
    assert_eq!(v[0].code, "AL012");
    assert!(rule
        .check_item_doc_site("", "src/api.rs", DocItemKind::Function, "run", true, true, 3, 0)
        .is_empty());
    assert!(rule
        .check_item_doc_site("", "src/api.rs", DocItemKind::Struct, "Inner", false, false, 3, 0)
        .is_empty());
    let relaxed = RequireDocComments::new().require_enum_docs(false);
    assert!(relaxed
        .check_item_doc_site("", "src/api.rs", DocItemKind::Enum, "Kind", true, false, 3, 0)
        .is_empty());
}
