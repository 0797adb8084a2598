//! Error paths: invalid names, invalid patterns, unknown severities,
//! ambiguous scope references, and malformed documents.

use arch_lint::config::Config;
use arch_lint::globpat::GlobPattern;
use arch_lint::loader::{
    convert_restrict_use, convert_scope, convert_scope_dep, load, parse_severity,
    DeclarativeConfigDto, LoadError, LoadRulesError, RestrictUseDto, ScopeDepDto, ScopeDto,
};
use arch_lint::model::ModelError;
use arch_lint::severity::Severity;

#[test]
fn parse_severity_rejects_unknown_name() {
    let r = parse_severity("critical", "restrict-use 'x'");
    assert!(matches!(r, Err(LoadError::UnknownSeverity { .. })));
    assert_eq!(parse_severity("error", "x").unwrap(), Severity::Error);
}

#[test]
fn invalid_glob_pattern_is_rejected() {
    let r = GlobPattern::new("[");
    assert!(matches!(r, Err(ModelError::InvalidGlobPattern { .. })));
}

#[test]
fn convert_scope_rejects_bad_name() {
    let dto = ScopeDto { name: "Domain".to_string(), paths: vec!["src/**".to_string()] };
    let r = convert_scope(&dto, "scopes entry");
    assert!(matches!(r, Err(LoadError::Validation { .. })));
}

fn restrict_dto(scope: Option<&str>, files: Option<Vec<&str>>) -> RestrictUseDto {
    RestrictUseDto {
        name: "no-sqlx".to_string(),
        scope: scope.map(|s| s.to_string()),
        files: files.map(|fs| fs.into_iter().map(|f| f.to_string()).collect()),
        deny: vec!["sqlx::*".to_string()],
        message: "No direct DB.".to_string(),
        doc: None,
        severity: "error".to_string(),
    }
}

#[test]
fn both_scope_and_files_is_ambiguous() {
    let r = convert_restrict_use(&restrict_dto(Some("domain"), Some(vec!["src/**"])));
    assert!(matches!(r, Err(LoadError::AmbiguousScope { .. })));
}

#[test]
fn neither_scope_nor_files_is_ambiguous() {
    let r = convert_restrict_use(&restrict_dto(None, None));
    assert!(matches!(r, Err(LoadError::AmbiguousScope { .. })));
}

#[test]
fn inline_files_need_no_named_scope() {
    let r = convert_restrict_use(&restrict_dto(None, Some(vec!["src/handlers/**"])));
    assert!(r.is_ok());
}

#[test]
fn scope_dep_conversion_validates_names() {
    let dto = ScopeDepDto {
        name: None,
        from: "BAD".to_string(),
        to: vec!["infra".to_string()],
        message: "msg".to_string(),
        doc: None,
        severity: "error".to_string(),
    };
    let r = convert_scope_dep(&dto, "deny-scope-dep entry");
    assert!(matches!(r, Err(LoadError::Validation { .. })));
}

#[test]
fn load_collects_cross_reference_errors() {
    let dto = DeclarativeConfigDto {
        scopes: vec![],
        restrict_use: vec![restrict_dto(Some("domain"), None)],
        require_use: vec![],
        deny_scope_dep: vec![],
    };
    let r = load(&dto);
    assert!(matches!(r, Err(LoadError::CrossRef(es)) if !es.is_empty()));
}

#[test]
fn config_parse_rejects_malformed_document() {
    assert!(Config::parse("this is not a document").is_err());
}

#[test]
fn config_parse_rejects_unknown_rule_severity() {
    let toml = "[rules.no-unwrap-expect]\nseverity = \"critical\"\n";
    assert!(Config::parse(toml).is_err());
}

#[test]
fn load_declarative_rules_reports_missing_fields() {
    let toml = "[[restrict-use]]\nname = \"x\"\n";
    let r = arch_lint::loader::load_declarative_rules(toml);
    assert!(matches!(r, Err(LoadRulesError::Toml(_))));
}
