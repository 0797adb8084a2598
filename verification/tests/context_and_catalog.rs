//! File contexts, configuration sources, the rule traits, and the
//! built-in rule catalog's site decisions.

use arch_lint::catalog::{NoUnwrapExpect, TracingEnvInit};
use arch_lint::config_resolver::ConfigSource;
use arch_lint::context::{compute_module_path, detect_test_file, FileContext, ProjectContext};
use arch_lint::declarative::UseTree;
use arch_lint::required_crate::RequiredCrateRule;
use arch_lint::rule::Rule;
use arch_lint::runner::{resolve_fail_on, resolve_preset};
use arch_lint::config::Config;
use arch_lint::presets::Preset;
use arch_lint::severity::Severity;
use arch_lint::types::{Location, Violation};

#[test]
fn test_detect_test_file() {
    assert!(detect_test_file("src/tests/foo.rs"));
    assert!(detect_test_file("tests/integration.rs"));
    assert!(detect_test_file("src/foo_test.rs"));
    assert!(detect_test_file("src/test_foo.rs"));
    assert!(!detect_test_file("src/foo.rs"));
    assert!(!detect_test_file("src/lib.rs"));
}

#[test]
fn test_module_path() {
    assert_eq!(
        compute_module_path("src/foo/bar.rs"),
        vec!["crate".to_string(), "src".to_string(), "foo".to_string(), "bar".to_string()]
    );
    assert_eq!(
        compute_module_path("src/foo/mod.rs"),
        vec!["crate".to_string(), "src".to_string(), "foo".to_string()]
    );
}

#[test]
fn test_offset_calculation() {
    let ctx = FileContext::new("test.rs", "line1\nline2\nline3", ".");
    assert_eq!(ctx.offset_for(1, 1), 0);
    assert_eq!(ctx.offset_for(2, 1), 6);
    assert_eq!(ctx.offset_for(2, 3), 8);
}

#[test]
fn project_context_builders_keep_files() {
    let ctx = ProjectContext::new(".".to_string())
        .with_source_files(vec!["src/lib.rs".to_string()])
        .with_cargo_files(vec!["Cargo.toml".to_string()]);
    assert_eq!(ctx.source_files.len(), 1);
    assert_eq!(ctx.cargo_files.len(), 1);
}

#[test]
fn config_source_path_returns_none_for_default() {
    assert!(ConfigSource::Default.path().is_none());
}

#[test]
fn is_global_only_true_for_global() {
    assert!(!ConfigSource::Explicit(String::new()).is_global());
    assert!(!ConfigSource::Project(String::new()).is_global());
    assert!(ConfigSource::Global(String::new()).is_global());
    assert!(!ConfigSource::Default.is_global());
}

struct TestRule;

impl Rule for TestRule {
    fn name(&self) -> &'static str {
        "test-rule"
    }
    fn code(&self) -> &'static str {
        "TEST001"
    }
    fn description(&self) -> &'static str {
        "A test rule"
    }

    fn check(&self, ctx: &FileContext, _uses: &Vec<UseTree>) -> Vec<Violation> {
        vec![Violation::new(
            self.code().to_string(),
            self.name().to_string(),
            self.default_severity(),
            Location::new(ctx.path.clone(), 1, 1),
            "Test violation".to_string(),
        )]
    }
}

#[test]
fn test_rule_trait() {
    let rule = TestRule;
    assert_eq!(rule.name(), "test-rule");
    assert_eq!(rule.code(), "TEST001");
    assert_eq!(rule.default_severity(), Severity::Error);
}

#[test]
fn test_severity_setting() {
    let rule = RequiredCrateRule::new("TEST003", "test-rule")
        .prefer("tracing")
        .over(&["log"])
        .severity(Severity::Error)
        .detect_macro_path();

    assert_eq!(rule.default_severity(), Severity::Error);
}

#[test]
fn macro_path_detection_flags_discouraged_crate() {
    let rule = RequiredCrateRule::new("TEST001", "test-rule")
        .prefer("tracing")
        .over(&["log"])
        .detect_macro_path();

    let violations = rule.check_macro_site("", "test.rs", "log::info", 3, 4, false);
    assert_eq!(violations.len(), 1);
    assert!(violations[0].message.contains("tracing::info"));

    let none = rule.check_macro_site("", "test.rs", "tracing::info", 3, 4, false);
    assert!(none.is_empty());
}

#[test]
fn unwrap_site_detects_unwrap() {
    let rule = NoUnwrapExpect::new();
    let content = "fn foo() {\n    let x = Some(1).unwrap();\n}";
    let violations =
        rule.check_method_call_site(content, "test.rs", "unwrap", 2, 20, false, false, false);
    assert_eq!(violations.len(), 1);
    assert_eq!(violations[0].code, "AL001");
    assert_eq!(violations[0].severity, Severity::Error);
}

#[test]
fn unwrap_site_allows_with_comment_but_warns_missing_reason() {
    let rule = NoUnwrapExpect::new();
    let content = "fn foo() {\n    // arch-lint: allow(no-unwrap-expect)\n    let x = Some(1).unwrap();\n}";
    let violations =
        rule.check_method_call_site(content, "test.rs", "unwrap", 3, 20, false, false, false);
    assert_eq!(violations.len(), 1);
    assert!(violations[0].message.contains("missing required reason"));
    assert_eq!(violations[0].severity, Severity::Warning);
    // The notice carries the suggestion to add a reason.
    let suggestion = violations[0].suggestion.as_ref().unwrap();
    assert!(suggestion.message.contains("reason"));
}

#[test]
fn unwrap_site_accepts_reason() {
    let rule = NoUnwrapExpect::new();
    let content = "fn foo() {\n    // arch-lint: allow(no-unwrap-expect) reason=\"Startup initialization, cannot fail\"\n    let x = Some(1).unwrap();\n}";
    let violations =
        rule.check_method_call_site(content, "test.rs", "unwrap", 3, 20, false, false, false);
    assert!(violations.is_empty());
}

#[test]
fn unwrap_site_skips_test_context() {
    let rule = NoUnwrapExpect::new();
    let violations =
        rule.check_method_call_site("", "test.rs", "unwrap", 1, 1, false, true, false);
    assert!(violations.is_empty());
}

#[test]
fn unwrap_site_notes_partial_cmp() {
    let rule = NoUnwrapExpect::new();
    let violations =
        rule.check_method_call_site("", "test.rs", "unwrap", 1, 1, true, false, false);
    assert_eq!(violations.len(), 1);
    assert!(violations[0].message.contains("NaN comparison danger"));
}

#[test]
fn unwrap_site_can_allow_expect() {
    let rule = NoUnwrapExpect::new().allow_expect(true);
    let violations =
        rule.check_method_call_site("", "test.rs", "expect", 1, 1, false, false, false);
    assert!(violations.is_empty());
}

#[test]
fn env_filter_fallback_is_exempt() {
    let rule = TracingEnvInit::new();
    let content = "fn init() {\n    let f = Env::try_from_default_env().unwrap_or_else(|_| Env::new(\"info\"));\n    let g = Env::new(\"info\");\n}";
    // The literal inside the fallback lambda of an environment-based
    // initializer is not flagged; a standalone literal is, and the
    // finding names the literal level.
    let inside = rule.check_env_filter_site(content, "src/startup.rs", "info", 2, 40, true, false);
    assert!(inside.is_empty());
    let standalone =
        rule.check_env_filter_site(content, "src/startup.rs", "info", 3, 12, false, false);
    assert_eq!(standalone.len(), 1);
    assert_eq!(standalone[0].code, "AL007");
    assert!(standalone[0].message.contains("info"));
}

#[test]
fn env_filter_honors_allow_directive() {
    let rule = TracingEnvInit::new();
    let content = "// arch-lint: allow(tracing-env-init) reason=\"startup\"\nlet g = Env::new(\"info\");";
    let v = rule.check_env_filter_site(content, "src/startup.rs", "info", 2, 8, false, false);
    assert!(v.is_empty());
}

#[test]
fn resolve_preset_defaults_to_recommended() {
    let config = Config::new();
    assert_eq!(resolve_preset(None, &config), Some(Preset::Recommended));
}

#[test]
fn resolve_preset_macro_arg_takes_precedence() {
    let mut config = Config::new();
    config.preset = Some("minimal".to_string());
    assert_eq!(resolve_preset(Some("strict"), &config), Some(Preset::Strict));
}

#[test]
fn resolve_preset_unknown_is_rejected() {
    let config = Config::new();
    assert_eq!(resolve_preset(Some("nonexistent"), &config), None);
}

#[test]
fn resolve_fail_on_defaults_to_error() {
    let config = Config::new();
    assert_eq!(resolve_fail_on(None, &config), Some(Severity::Error));
}

#[test]
fn resolve_fail_on_macro_arg_overrides_config() {
    let mut config = Config::new();
    config.fail_on = Some("info".to_string());
    assert_eq!(resolve_fail_on(Some("warning"), &config), Some(Severity::Warning));
}

#[test]
fn preset_bundles_are_nonempty() {
    assert!(!Preset::Recommended.rules().is_empty());
    assert!(!Preset::Strict.rules().is_empty());
    assert!(!Preset::Minimal.rules().is_empty());
}

#[test]
fn parse_config_reads_rules_table() {
    let toml = "[analyzer]\nroot = \"./src\"\nexclude = [\"**/generated/**\"]\n\n[rules.no-unwrap-expect]\nenabled = true\nseverity = \"warning\"\nallow_in_tests = true\n";
    let config = Config::parse(toml).expect("parse failed");
    assert_eq!(config.analyzer.root, "./src");
    assert!(config.is_rule_enabled("no-unwrap-expect"));
    assert_eq!(
        config.rule_severity("no-unwrap-expect"),
        Some(Severity::Warning)
    );
    let rc = config.rule_config("no-unwrap-expect").unwrap();
    assert!(rc.get_bool("allow_in_tests", false));
}

#[test]
fn effective_root_precedence() {
    assert_eq!(arch_lint::analysis::effective_root(Some("proj"), "./src"), "proj");
    assert_eq!(arch_lint::analysis::effective_root(None, "./src"), "./src");
    assert_eq!(arch_lint::analysis::effective_root(None, ""), ".");
}

#[test]
fn effective_excludes_defaults_and_merge() {
    let none: Vec<String> = Vec::new();
    let d = arch_lint::analysis::effective_excludes(&none, &none);
    assert_eq!(d, vec!["**/target/**".to_string(), "**/vendor/**".to_string()]);
    let cfg = vec!["**/gen/**".to_string()];
    let given = vec!["**/tmp/**".to_string()];
    assert_eq!(
        arch_lint::analysis::effective_excludes(&given, &cfg),
        vec!["**/tmp/**".to_string(), "**/gen/**".to_string()]
    );
    assert_eq!(
        arch_lint::analysis::effective_excludes(&none, &cfg),
        vec!["**/gen/**".to_string()]
    );
}

#[test]
fn attribute_and_path_predicates() {
    assert!(arch_lint::catalog::derive_names_error("# [derive (Debug , Error)]"));
    assert!(!arch_lint::catalog::derive_names_error("# [derive (Debug , Clone)]"));
    assert!(arch_lint::catalog::is_async_trait_attr("async_trait"));
    assert!(!arch_lint::catalog::is_async_trait_attr("derive"));
    assert!(arch_lint::catalog::has_send_opt_out("# [async_trait (? Send)]"));
    assert!(arch_lint::catalog::has_send_opt_out("#[async_trait(?Send)]"));
    assert!(!arch_lint::catalog::has_send_opt_out("# [async_trait]"));
    assert!(arch_lint::catalog::is_into_trait("Into"));
    assert!(!arch_lint::catalog::is_into_trait("From"));
    assert!(arch_lint::catalog::is_env_ctor_path("EnvFilter", "new"));
    assert!(arch_lint::catalog::is_env_ctor_path("Env", "new"));
    assert!(!arch_lint::catalog::is_env_ctor_path("Filter", "new"));
    assert!(!arch_lint::catalog::is_env_ctor_path("Env", "from_env"));
    assert!(arch_lint::catalog::is_env_init_name("try_from_default_env"));
    assert!(!arch_lint::catalog::is_env_init_name("unwrap_or_else"));
}
