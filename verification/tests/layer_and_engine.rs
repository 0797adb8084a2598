//! The layer resolver and the cross-language rule engine.

use arch_lint::arch_config::{ArchConfig, Constraint, DepEntry, LayerDef};
use arch_lint::engine::ArchRuleEngine;
use arch_lint::extractor::{DeclInfo, DeclKind, FileAnalysis, ImportInfo, PackageInfo};
use arch_lint::layer::LayerResolver;
use arch_lint::severity::Severity;

fn make_config() -> ArchConfig {
    ArchConfig {
        root: ".".to_string(),
        exclude: vec![],
        layers: vec![
            LayerDef {
                name: "domain".to_string(),
                packages: vec!["com.example.domain".to_string()],
            },
            LayerDef {
                name: "app".to_string(),
                packages: vec!["com.example.app".to_string()],
            },
            LayerDef {
                name: "infra".to_string(),
                packages: vec![
                    "com.example.infra".to_string(),
                    "com.example.infra.db".to_string(),
                ],
            },
        ],
        dependencies: vec![
            DepEntry { layer: "domain".to_string(), allowed: vec![] },
            DepEntry { layer: "app".to_string(), allowed: vec!["domain".to_string()] },
            DepEntry {
                layer: "infra".to_string(),
                allowed: vec!["domain".to_string(), "app".to_string()],
            },
        ],
        constraints: vec![],
    }
}

#[test]
fn resolves_exact_match() {
    let r = LayerResolver::new(&make_config());
    assert_eq!(r.resolve("com.example.domain"), Some("domain"));
}

#[test]
fn resolves_subpackage() {
    let r = LayerResolver::new(&make_config());
    assert_eq!(r.resolve("com.example.domain.model.User"), Some("domain"));
}

#[test]
fn resolves_longest_prefix() {
    let r = LayerResolver::new(&make_config());
    assert_eq!(r.resolve("com.example.infra.db.Repo"), Some("infra"));
}

#[test]
fn unknown_package_returns_none() {
    let r = LayerResolver::new(&make_config());
    assert_eq!(r.resolve("org.other.Foo"), None);
}

#[test]
fn no_false_prefix_match() {
    let r = LayerResolver::new(&make_config());
    assert_eq!(r.resolve("com.example.domains.Foo"), None);
}

fn make_analysis(pkg: &str, imports: &[&str]) -> FileAnalysis {
    FileAnalysis {
        file_path: "test.kt".to_string(),
        package: Some(PackageInfo { line: 1, path: pkg.to_string() }),
        imports: imports
            .iter()
            .enumerate()
            .map(|(i, p)| ImportInfo { line: i + 2, column: 0, path: (*p).to_string() })
            .collect(),
        declarations: vec![],
    }
}

#[test]
fn allows_valid_dependency() {
    let engine = ArchRuleEngine::new(make_config());
    let a = make_analysis("com.example.app.service", &["com.example.domain.User"]);
    assert!(engine.check(&a).is_empty());
}

#[test]
fn detects_forbidden_dependency() {
    let engine = ArchRuleEngine::new(make_config());
    let a = make_analysis("com.example.domain.model", &["com.example.infra.db.Repo"]);
    let v = engine.check(&a);
    assert_eq!(v.len(), 1);
    assert_eq!(v[0].code, "LAYER001");
    assert_eq!(v[0].severity, Severity::Error);
    assert!(v[0].message.contains("domain -> infra"));
}

#[test]
fn same_layer_import_is_ok() {
    let engine = ArchRuleEngine::new(make_config());
    let a = make_analysis(
        "com.example.domain.model",
        &["com.example.domain.event.Created"],
    );
    assert!(engine.check(&a).is_empty());
}

#[test]
fn unknown_import_target_is_ok() {
    let engine = ArchRuleEngine::new(make_config());
    let a = make_analysis("com.example.domain.model", &["kotlinx.coroutines.Flow"]);
    assert!(engine.check(&a).is_empty());
}

#[test]
fn no_package_skips_check() {
    let engine = ArchRuleEngine::new(make_config());
    let a = FileAnalysis {
        file_path: "script.kt".to_string(),
        package: None,
        imports: vec![ImportInfo {
            line: 1,
            column: 0,
            path: "com.example.infra.Foo".to_string(),
        }],
        declarations: vec![],
    };
    assert!(engine.check(&a).is_empty());
}

fn make_pattern_constraint(pattern: &str, in_layers: &[&str], message: &str) -> Constraint {
    Constraint {
        kind: "no-import-pattern".to_string(),
        pattern: pattern.to_string(),
        in_layers: in_layers.iter().map(|s| (*s).to_string()).collect(),
        severity: Severity::Warning,
        message: message.to_string(),
        import_matches: String::new(),
        source_must_match: String::new(),
        source_must_not_match: String::new(),
    }
}

#[test]
fn pattern_constraint_triggers() {
    let mut config = make_config();
    config.constraints.push(make_pattern_constraint(
        "java.sql",
        &["domain"],
        "No JDBC in domain",
    ));

    let engine = ArchRuleEngine::new(config);
    let a = make_analysis("com.example.domain.model", &["java.sql.Connection"]);
    let v = engine.check(&a);
    assert_eq!(v.len(), 1);
    assert_eq!(v[0].code, "PATTERN001");
    assert_eq!(v[0].severity, Severity::Warning);
}

#[test]
fn pattern_constraint_ignores_other_layers() {
    let mut config = make_config();
    config.constraints.push(make_pattern_constraint(
        "java.sql",
        &["domain"],
        "No JDBC in domain",
    ));

    let engine = ArchRuleEngine::new(config);
    let a = make_analysis("com.example.infra.db", &["java.sql.Connection"]);
    assert!(engine.check(&a).is_empty());
}

#[test]
fn validate_accepts_consistent_config() {
    assert!(make_config().validate().is_ok());
}

#[test]
fn validate_catches_unknown_layer_in_deps() {
    let mut config = make_config();
    config.dependencies.push(DepEntry {
        layer: "domain".to_string(),
        allowed: vec!["nonexistent".to_string()],
    });
    assert!(config.validate().is_err());
}

#[test]
fn validate_catches_missing_dep_entry() {
    let mut config = make_config();
    config.layers.push(LayerDef {
        name: "web".to_string(),
        packages: vec!["com.example.web".to_string()],
    });
    assert!(config.validate().is_err());
}

#[test]
fn validate_catches_self_dependency() {
    let mut config = make_config();
    config.dependencies[0].allowed.push("domain".to_string());
    assert!(config.validate().is_err());
}

#[test]
fn parse_minimal_arch_config() {
    let toml = "[[layers]]\nname = \"domain\"\npackages = [\"com.example.domain\"]\n\n[dependencies]\ndomain = []\n";
    let config = ArchConfig::parse(toml).expect("parse failed");
    assert_eq!(config.layers.len(), 1);
    assert_eq!(config.layers[0].name, "domain");
    assert!(config.validate().is_ok());
}

fn make_naming_constraint(
    import_matches: &str,
    source_must_match: &str,
    source_must_not_match: &str,
    in_layers: &[&str],
    message: &str,
) -> Constraint {
    Constraint {
        kind: "naming-rule".to_string(),
        pattern: String::new(),
        in_layers: in_layers.iter().map(|s| (*s).to_string()).collect(),
        severity: Severity::Error,
        message: message.to_string(),
        import_matches: import_matches.to_string(),
        source_must_match: source_must_match.to_string(),
        source_must_not_match: source_must_not_match.to_string(),
    }
}

fn make_analysis_with_decls(pkg: &str, imports: &[&str], decl_names: &[&str]) -> FileAnalysis {
    FileAnalysis {
        file_path: "test.kt".to_string(),
        package: Some(PackageInfo { line: 1, path: pkg.to_string() }),
        imports: imports
            .iter()
            .enumerate()
            .map(|(i, p)| ImportInfo { line: i + 2, column: 0, path: (*p).to_string() })
            .collect(),
        declarations: decl_names
            .iter()
            .enumerate()
            .map(|(i, n)| DeclInfo {
                line: i + 10,
                name: (*n).to_string(),
                kind: DeclKind::Class,
                package: pkg.to_string(),
            })
            .collect(),
    }
}

fn config_with_app_to_infra() -> ArchConfig {
    let mut config = make_config();
    for entry in &mut config.dependencies {
        if entry.layer == "app" {
            entry.allowed.push("infra".to_string());
        }
    }
    config
}

#[test]
fn naming_rule_source_must_match_allows_service() {
    let mut config = config_with_app_to_infra();
    config.constraints.push(make_naming_constraint(
        "RepositoryImpl",
        "Service",
        "",
        &["app"],
        "Only Service can import RepositoryImpl",
    ));

    let engine = ArchRuleEngine::new(config);
    let a = make_analysis_with_decls(
        "com.example.app.service",
        &["com.example.infra.db.UserRepositoryImpl"],
        &["UserService"],
    );
    assert!(engine.check(&a).is_empty());
}

#[test]
fn naming_rule_source_must_match_rejects_non_service() {
    let mut config = config_with_app_to_infra();
    config.constraints.push(make_naming_constraint(
        "RepositoryImpl",
        "Service",
        "",
        &["app"],
        "Only Service can import RepositoryImpl",
    ));

    let engine = ArchRuleEngine::new(config);
    let a = make_analysis_with_decls(
        "com.example.app.handler",
        &["com.example.infra.db.UserRepositoryImpl"],
        &["OrderController"],
    );
    let v = engine.check(&a);
    assert_eq!(v.len(), 1);
    assert_eq!(v[0].code, "NAMING001");
    assert!(v[0].message.contains("Only Service"));
}

#[test]
fn naming_rule_source_must_not_match() {
    let mut config = make_config();
    config.constraints.push(make_naming_constraint(
        "UseCase",
        "",
        "UseCase",
        &["app"],
        "UseCase should not depend on other UseCases",
    ));

    let engine = ArchRuleEngine::new(config);
    let a = make_analysis_with_decls(
        "com.example.app.usecase",
        &["com.example.app.usecase.CreateUserUseCase"],
        &["DeleteUserUseCase"],
    );
    let v = engine.check(&a);
    assert_eq!(v.len(), 1);
    assert_eq!(v[0].code, "NAMING001");
}

#[test]
fn naming_rule_ignores_non_matching_import() {
    let mut config = make_config();
    config.constraints.push(make_naming_constraint(
        "RepositoryImpl",
        "Service",
        "",
        &["app"],
        "Only Service can import RepositoryImpl",
    ));

    let engine = ArchRuleEngine::new(config);
    let a = make_analysis_with_decls(
        "com.example.app.handler",
        &["com.example.domain.model.User"],
        &["OrderController"],
    );
    assert!(engine.check(&a).is_empty());
}

#[test]
fn naming_rule_ignores_other_layers() {
    let mut config = make_config();
    config.constraints.push(make_naming_constraint(
        "RepositoryImpl",
        "Service",
        "",
        &["app"],
        "Only Service can import RepositoryImpl",
    ));

    let engine = ArchRuleEngine::new(config);
    let a = make_analysis_with_decls(
        "com.example.infra.db",
        &["com.example.infra.db.UserRepositoryImpl"],
        &["UserRepositoryConfig"],
    );
    assert!(engine.check(&a).is_empty());
}
