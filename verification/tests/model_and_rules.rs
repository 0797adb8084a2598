//! The declarative model, import expansion, and the three declarative
//! rule kinds, end to end on concrete inputs.

use std::sync::Arc;

use arch_lint::declarative::{
    expand_use_tree, RequireUseRule, ResolvedUse, RestrictUseRule, ScopeDepRule, UseTree,
};
use arch_lint::globpat::GlobPattern;
use arch_lint::loader::load_declarative_rules;
use arch_lint::model::{
    DeclarativeConfig, ModelError, RequireUse, RestrictUse, Scope, ScopeDep, ScopeName, ScopeRef,
    UsePattern,
};
use arch_lint::severity::Severity;

#[test]
fn scope_name_valid() {
    assert!(ScopeName::new("domain").is_ok());
    assert!(ScopeName::new("my-scope-123").is_ok());
}

#[test]
fn scope_name_empty_rejected() {
    assert!(matches!(ScopeName::new(""), Err(ModelError::EmptyScopeName)));
}

#[test]
fn scope_name_invalid_chars_rejected() {
    assert!(matches!(
        ScopeName::new("Domain"),
        Err(ModelError::InvalidScopeName { .. })
    ));
    assert!(matches!(
        ScopeName::new("my_scope"),
        Err(ModelError::InvalidScopeName { .. })
    ));
}

#[test]
fn use_pattern_valid() {
    assert!(UsePattern::new("sqlx::*").is_ok());
    assert!(UsePattern::new("std::fs::**").is_ok());
}

#[test]
fn use_pattern_empty_rejected() {
    assert!(matches!(
        UsePattern::new(""),
        Err(ModelError::EmptyUsePattern)
    ));
}

#[test]
fn use_pattern_matches() {
    let pat = UsePattern::new("sqlx::*").unwrap();
    assert!(pat.matches("sqlx::Pool"));
    assert!(pat.matches("sqlx::query"));
    assert!(!pat.matches("sqlx::pool::Pool"));
    assert!(!pat.matches("diesel::Pool"));
}

#[test]
fn use_pattern_globstar_matches() {
    let pat = UsePattern::new("std::fs::**").unwrap();
    assert!(pat.matches("std::fs::read"));
    assert!(pat.matches("std::fs::read_to_string"));
    assert!(pat.matches("std::fs"));
    assert!(!pat.matches("std::io::read"));
}

#[test]
fn scope_dep_is_denied() {
    let dep = ScopeDep::new(
        ScopeName::new("domain").unwrap(),
        vec![
            ScopeName::new("infrastructure").unwrap(),
            ScopeName::new("presentation").unwrap(),
        ],
        "Domain must not depend on infra.".to_string(),
        None,
        Severity::Error,
    );
    assert!(dep.is_denied(&ScopeName::new("infrastructure").unwrap()));
    assert!(!dep.is_denied(&ScopeName::new("application").unwrap()));
}

#[test]
fn glob_pattern_matches_file() {
    let pat = GlobPattern::new("src/domain/**").unwrap();
    assert!(pat.matches("src/domain/entity.rs"));
    assert!(pat.matches("src/domain/sub/deep.rs"));
    assert!(!pat.matches("src/infra/db.rs"));
}

#[test]
fn glob_pattern_empty_rejected() {
    assert!(matches!(
        GlobPattern::new(""),
        Err(ModelError::EmptyGlobPattern)
    ));
}

// ── import expansion ──

fn name_leaf(ident: &str, line: usize, column: usize) -> UseTree {
    UseTree::Name { ident: ident.to_string(), line, column }
}

fn paths_of(resolved: &[ResolvedUse]) -> Vec<String> {
    resolved.iter().map(|u| u.path.clone()).collect()
}

fn path_node(ident: &str, line: usize, column: usize, rest: UseTree) -> UseTree {
    UseTree::Path { ident: ident.to_string(), line, column, rest: Box::new(rest) }
}

#[test]
fn expand_simple_path() {
    let tree = path_node("sqlx", 1, 4, name_leaf("Pool", 1, 10));
    let paths = expand_use_tree(&tree, "");
    assert_eq!(paths_of(&paths), vec!["sqlx::Pool".to_string()]);
    // The resolved position is the head of the path.
    assert_eq!((paths[0].line, paths[0].column), (1, 4));
}

#[test]
fn expand_grouped_paths() {
    let tree = path_node(
        "std",
        1,
        4,
        path_node(
            "collections",
            1,
            9,
            UseTree::Group {
                items: vec![name_leaf("HashMap", 1, 22), name_leaf("BTreeMap", 1, 31)],
            },
        ),
    );
    let paths = expand_use_tree(&tree, "");
    let strs = paths_of(&paths);
    assert_eq!(strs.len(), 2);
    assert!(strs.contains(&"std::collections::HashMap".to_string()));
    assert!(strs.contains(&"std::collections::BTreeMap".to_string()));
}

#[test]
fn expand_nested_group() {
    let tree = path_node(
        "std",
        1,
        4,
        UseTree::Group {
            items: vec![
                path_node(
                    "collections",
                    1,
                    10,
                    UseTree::Group {
                        items: vec![name_leaf("HashMap", 1, 24), name_leaf("HashSet", 1, 33)],
                    },
                ),
                path_node("io", 1, 44, name_leaf("Read", 1, 46)),
            ],
        },
    );
    let paths = expand_use_tree(&tree, "");
    let strs = paths_of(&paths);
    assert_eq!(strs.len(), 3);
    assert!(strs.contains(&"std::collections::HashMap".to_string()));
    assert!(strs.contains(&"std::collections::HashSet".to_string()));
    assert!(strs.contains(&"std::io::Read".to_string()));
}

#[test]
fn expand_glob() {
    let tree = path_node("sqlx", 1, 4, UseTree::Glob { line: 1, column: 10 });
    let paths = expand_use_tree(&tree, "");
    assert_eq!(paths_of(&paths), vec!["sqlx::*".to_string()]);
}

#[test]
fn expand_rename() {
    let tree = path_node(
        "sqlx",
        1,
        4,
        UseTree::Rename {
            ident: "Pool".to_string(),
            rename: "DbPool".to_string(),
            line: 1,
            column: 10,
        },
    );
    let paths = expand_use_tree(&tree, "");
    assert_eq!(paths_of(&paths), vec!["sqlx::Pool".to_string()]);
}

#[test]
fn expand_single_ident() {
    let tree = name_leaf("serde", 1, 4);
    let paths = expand_use_tree(&tree, "");
    assert_eq!(paths_of(&paths), vec!["serde".to_string()]);
}

// ── declarative rules ──

fn make_restrict_config() -> Arc<DeclarativeConfig> {
    let scopes = vec![Scope::new(
        ScopeName::new("domain").unwrap(),
        vec![GlobPattern::new("src/domain/**").unwrap()],
    )];
    let restrict = vec![RestrictUse::new(
        "no-sqlx".to_string(),
        ScopeRef::Named(ScopeName::new("domain").unwrap()),
        vec![UsePattern::new("sqlx::*").unwrap()],
        "No DB in domain.".to_string(),
        Some("ARCHITECTURE.md L85".to_string()),
        Severity::Error,
    )];
    Arc::new(DeclarativeConfig::new(scopes, restrict, vec![], vec![]).unwrap())
}

fn sqlx_pool_use() -> UseTree {
    // `use sqlx::Pool;` with the head `sqlx` at 0-indexed column 4.
    path_node("sqlx", 1, 4, name_leaf("Pool", 1, 10))
}

#[test]
fn restrict_detects_denied_import() {
    let rule = RestrictUseRule::new(make_restrict_config());
    let violations = rule.check("src/domain/service.rs", &vec![sqlx_pool_use()]);

    assert_eq!(violations.len(), 1);
    assert_eq!(violations[0].rule, "no-sqlx");
    assert_eq!(violations[0].code, "ALD001");
    assert_eq!(violations[0].severity, Severity::Error);
    assert_eq!(violations[0].location.file, "src/domain/service.rs");
    assert_eq!(violations[0].location.line, 1);
    assert_eq!(violations[0].location.column, 5);
    assert!(violations[0].message.contains("No DB in domain."));
    assert!(violations[0].message.contains("sqlx::Pool"));
    assert_eq!(violations[0].doc_ref.as_deref(), Some("ARCHITECTURE.md L85"));
}

#[test]
fn restrict_skips_file_outside_scope() {
    let rule = RestrictUseRule::new(make_restrict_config());
    let violations = rule.check("src/infra/db.rs", &vec![sqlx_pool_use()]);
    assert!(violations.is_empty());
}

#[test]
fn restrict_empty_file_no_violations() {
    let rule = RestrictUseRule::new(make_restrict_config());
    let violations = rule.check("src/domain/service.rs", &vec![]);
    assert!(violations.is_empty());
}

#[test]
fn restrict_detects_grouped_denied_import() {
    let rule = RestrictUseRule::new(make_restrict_config());
    let tree = path_node(
        "sqlx",
        1,
        4,
        UseTree::Group { items: vec![name_leaf("Pool", 1, 10), name_leaf("query", 1, 16)] },
    );
    let violations = rule.check("src/domain/service.rs", &vec![tree]);
    assert_eq!(violations.len(), 2);
    // Both findings point at the head of the denied path.
    assert_eq!(violations[0].location.line, violations[1].location.line);
    assert_eq!(violations[0].location.column, 5);
    assert_eq!(violations[1].location.column, 5);
    assert!(violations[0].message.contains("sqlx::Pool"));
    assert!(violations[1].message.contains("sqlx::query"));
}

#[test]
fn require_detects_discouraged_import() {
    let config = Arc::new(
        DeclarativeConfig::new(
            vec![],
            vec![],
            vec![RequireUse::new(
                "require-tracing".to_string(),
                ScopeRef::Inline(vec![GlobPattern::new("src/**").unwrap()]),
                "tracing".to_string(),
                vec!["log".to_string()],
                "Use tracing, not log.".to_string(),
                None,
                Severity::Warning,
            )],
            vec![],
        )
        .unwrap(),
    );
    let rule = RequireUseRule::new(config);
    let tree = path_node("log", 1, 4, name_leaf("info", 1, 9));
    let violations = rule.check("src/app/handler.rs", &vec![tree]);

    assert_eq!(violations.len(), 1);
    assert_eq!(violations[0].code, "ALD002");
    assert_eq!(violations[0].severity, Severity::Warning);
    assert!(violations[0].message.contains("tracing"));
    assert!(violations[0].message.contains("log"));
}

fn make_scope_dep_config() -> Arc<DeclarativeConfig> {
    let scopes = vec![
        Scope::new(
            ScopeName::new("domain").unwrap(),
            vec![GlobPattern::new("src/domain/**").unwrap()],
        ),
        Scope::new(
            ScopeName::new("infra").unwrap(),
            vec![GlobPattern::new("src/infra/**").unwrap()],
        ),
    ];
    let deps = vec![ScopeDep::new(
        ScopeName::new("domain").unwrap(),
        vec![ScopeName::new("infra").unwrap()],
        "Domain must not depend on infra.".to_string(),
        None,
        Severity::Error,
    )];
    Arc::new(DeclarativeConfig::new(scopes, vec![], vec![], deps).unwrap())
}

#[test]
fn scope_dep_detects_forbidden_dependency() {
    let rule = ScopeDepRule::new(make_scope_dep_config());
    let tree = path_node(
        "crate",
        1,
        4,
        path_node("infra", 1, 11, path_node("db", 1, 18, name_leaf("Pool", 1, 22))),
    );
    let violations = rule.check("src/domain/service.rs", &vec![tree]);

    assert_eq!(violations.len(), 1);
    assert_eq!(violations[0].code, "ALD003");
    assert_eq!(violations[0].severity, Severity::Error);
    assert!(violations[0].message.contains("domain"));
    assert!(violations[0].message.contains("infra"));
}

#[test]
fn scope_dep_allows_same_scope_dependency() {
    let rule = ScopeDepRule::new(make_scope_dep_config());
    let tree = path_node(
        "crate",
        1,
        4,
        path_node("domain", 1, 11, path_node("entity", 1, 19, name_leaf("User", 1, 27))),
    );
    let violations = rule.check("src/domain/service.rs", &vec![tree]);
    assert!(violations.is_empty());
}

#[test]
fn scope_dep_allows_external_crate() {
    let rule = ScopeDepRule::new(make_scope_dep_config());
    let violations = rule.check("src/domain/service.rs", &vec![sqlx_pool_use()]);
    assert!(violations.is_empty());
}

#[test]
fn load_declarative_rules_creates_restrict_use_rule() {
    let toml = "[[scopes]]\nname = \"domain\"\npaths = [\"src/domain/**\"]\n\n[[restrict-use]]\nname = \"no-sqlx\"\nscope = \"domain\"\ndeny = [\"sqlx::*\"]\nmessage = \"No DB in domain.\"\n";
    let rules = load_declarative_rules(toml).unwrap();
    assert_eq!(rules.len(), 1);
    assert_eq!(rules[0].name(), "restrict-use");
}

#[test]
fn load_declarative_rules_empty_content_yields_none() {
    let rules = load_declarative_rules("").unwrap();
    assert!(rules.is_empty());
}

#[test]
fn declarative_config_rejects_unknown_scope_ref() {
    let restrict = vec![RestrictUse::new(
        "no-sqlx".to_string(),
        ScopeRef::Named(ScopeName::new("domain").unwrap()),
        vec![UsePattern::new("sqlx::*").unwrap()],
        "No DB in domain.".to_string(),
        None,
        Severity::Error,
    )];
    let result = DeclarativeConfig::new(vec![], restrict, vec![], vec![]);
    assert!(result.is_err());
    assert!(!result.unwrap_err().is_empty());
}
