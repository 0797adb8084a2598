//! Conversion of raw configuration shapes into the validated domain
//! model, with field-level validation and located error messages.

use vstd::prelude::*;

verus! {

use crate::globpat::{glob_syntax_ok, GlobPattern};
use crate::model::{
    DeclarativeConfig,
    ModelError,
    RequireUse,
    RestrictUse,
    Scope,
    ScopeDep,
    ScopeName,
    ScopeRef,
    scope_name_ok,
    UsePattern,
};
use crate::severity::{spec_parse_severity, Severity};
use crate::strutil::str_views;

/// Raw shape of the declarative rule configuration, before validation.
#[derive(Debug, Clone, Default)]
pub struct DeclarativeConfigDto {
    /// Named scope definitions.
    pub scopes: Vec<ScopeDto>,
    /// Use-restriction rules.
    pub restrict_use: Vec<RestrictUseDto>,
    /// Use-requirement rules.
    pub require_use: Vec<RequireUseDto>,
    /// Scope dependency constraints.
    pub deny_scope_dep: Vec<ScopeDepDto>,
}

/// Raw shape of a named scope.
#[derive(Debug, Clone)]
pub struct ScopeDto {
    /// Scope name (e.g., `domain`).
    pub name: String,
    /// Glob patterns for file paths.
    pub paths: Vec<String>,
}

/// Raw shape of a restrict-use rule.
#[derive(Debug, Clone)]
pub struct RestrictUseDto {
    /// Rule name.
    pub name: String,
    /// Named scope reference; mutually exclusive with `files`.
    pub scope: Option<String>,
    /// Inline file patterns; mutually exclusive with `scope`.
    pub files: Option<Vec<String>>,
    /// Denied use-path patterns.
    pub deny: Vec<String>,
    /// Violation message.
    pub message: String,
    /// Document reference.
    pub doc: Option<String>,
    /// Severity name; `error` by default.
    pub severity: String,
}

/// Raw shape of a require-use rule.
#[derive(Debug, Clone)]
pub struct RequireUseDto {
    /// Rule name.
    pub name: String,
    /// Named scope reference; mutually exclusive with `files`.
    pub scope: Option<String>,
    /// Inline file patterns; mutually exclusive with `scope`.
    pub files: Option<Vec<String>>,
    /// Preferred crate.
    pub prefer: String,
    /// Discouraged crates.
    pub over: Vec<String>,
    /// Violation message.
    pub message: String,
    /// Document reference.
    pub doc: Option<String>,
    /// Severity name; `warning` by default.
    pub severity: String,
}

/// Raw shape of a scope dependency constraint.
#[derive(Debug, Clone)]
pub struct ScopeDepDto {
    /// Optional rule name.
    pub name: Option<String>,
    /// Source scope name.
    pub from: String,
    /// Denied target scope names.
    pub to: Vec<String>,
    /// Violation message.
    pub message: String,
    /// Document reference.
    pub doc: Option<String>,
    /// Severity name; `error` by default.
    pub severity: String,
}

/// Errors during conversion from the raw shape to the domain model.
#[derive(Debug)]
pub enum LoadError {
    /// A field-level validation error, with its location.
    Validation {
        /// Where the error occurred (e.g., `scopes[0].name`).
        context: String,
        /// The underlying model error.
        source: ModelError,
    },
    /// The `scope` and `files` fields are both set or both missing.
    AmbiguousScope {
        /// The rule that has the conflict.
        rule_name: String,
    },
    /// Unknown severity string.
    UnknownSeverity {
        /// Where the error occurred.
        context: String,
        /// The invalid value.
        value: String,
    },
    /// Cross-reference errors from aggregate root construction.
    CrossRef(Vec<ModelError>),
}

/// A severity name parsed for a located context.
pub fn parse_severity(value: &str, context: &str) -> (r: Result<Severity, LoadError>)
    ensures
        r is Ok <==> spec_parse_severity(value@) is Some,
        r matches Ok(s) ==> Some(s) == spec_parse_severity(value@),
        r matches Err(e) ==> (e matches LoadError::UnknownSeverity { context: c, value: v }
            && c@ == context@ && v@ == value@),
{
    match crate::severity::parse_severity(value) {
        Some(s) => Ok(s),
        None => Err(
            LoadError::UnknownSeverity { context: context.to_owned(), value: value.to_owned() },
        ),
    }
}

/// A scope's raw shape is valid: its name and every path pattern.
pub open spec fn scope_dto_ok(d: ScopeDto) -> bool {
    scope_name_ok(d.name@) && forall|i: int|
        0 <= i < d.paths@.len() ==> (#[trigger] d.paths@[i])@.len() > 0 && glob_syntax_ok(
            d.paths@[i]@,
        )
}

/// Converts a list of glob pattern texts, reporting the first failure.
fn convert_globs(paths: &Vec<String>, context: &str) -> (r: Result<Vec<GlobPattern>, LoadError>)
    ensures
        r is Ok <==> forall|i: int|
            0 <= i < paths@.len() ==> (#[trigger] paths@[i])@.len() > 0 && glob_syntax_ok(
                paths@[i]@,
            ),
        r matches Ok(v) ==> v@.map_values(|g: GlobPattern| g@) == str_views(paths@),
{
    let n = paths.len();
    let mut out: Vec<GlobPattern> = Vec::new();
    let mut i: usize = 0;
    proof {
        assert(out@.map_values(|g: GlobPattern| g@) =~= str_views(paths@).subrange(0, 0));
    }
    while i < n
        invariant
            0 <= i <= n,
            n == paths@.len(),
            forall|j: int|
                0 <= j < i ==> (#[trigger] paths@[j])@.len() > 0 && glob_syntax_ok(paths@[j]@),
            out@.map_values(|g: GlobPattern| g@) == str_views(paths@).subrange(0, i as int),
        decreases n - i,
    {
        match GlobPattern::new(paths[i].as_str()) {
            Ok(g) => {
                let ghost old_out = out@;
                out.push(g);
                proof {
                    assert(out@.map_values(|g: GlobPattern| g@) =~= old_out.map_values(
                        |g: GlobPattern| g@,
                    ).push(paths@[i as int]@));
                    assert(str_views(paths@).subrange(0, i + 1) =~= str_views(paths@).subrange(
                        0,
                        i as int,
                    ).push(str_views(paths@)[i as int]));
                }
            },
            Err(e) => {
                return Err(LoadError::Validation { context: context.to_owned(), source: e });
            },
        }
        i = i + 1;
    }
    proof {
        assert(str_views(paths@).subrange(0, n as int) =~= str_views(paths@));
    }
    Ok(out)
}

/// Converts one raw scope, validating its name and patterns.
pub fn convert_scope(dto: &ScopeDto, context: &str) -> (r: Result<Scope, LoadError>)
    ensures
        r is Ok <==> scope_dto_ok(*dto),
        r matches Ok(s) ==> s.spec_name() == dto.name@ && s.spec_patterns().map_values(
            |g: GlobPattern| g@,
        ) == str_views(dto.paths@),
{
    let name = match ScopeName::new(dto.name.as_str()) {
        Ok(n) => n,
        Err(e) => {
            return Err(LoadError::Validation { context: context.to_owned(), source: e });
        },
    };
    let patterns = match convert_globs(&dto.paths, context) {
        Ok(p) => p,
        Err(e) => {
            return Err(e);
        },
    };
    Ok(Scope::new(name, patterns))
}

/// A converted scope reference carries the raw shape's content: the
/// named reference's name, or the inline patterns' texts.
pub open spec fn ref_corresponds(
    sr: ScopeRef,
    scope: Option<String>,
    files: Option<Vec<String>>,
) -> bool {
    match sr {
        ScopeRef::Named(n) => scope matches Some(s0) && n@ == s0@,
        ScopeRef::Inline(ps) => files matches Some(fs) && ps@.map_values(|g: GlobPattern| g@)
            == str_views(fs@),
    }
}

/// A converted scope carries the raw shape's name and pattern texts.
pub open spec fn scope_corresponds(s: Scope, d: ScopeDto) -> bool {
    s.spec_name() == d.name@ && s.spec_patterns().map_values(|g: GlobPattern| g@) == str_views(
        d.paths@,
    )
}

/// A converted restrict-use rule carries the raw shape's content.
pub open spec fn restrict_corresponds(r: RestrictUse, d: RestrictUseDto) -> bool {
    &&& r.spec_name() == d.name@
    &&& ref_corresponds(r.spec_scope(), d.scope, d.files)
    &&& r.spec_deny().map_values(|p: UsePattern| p@) == str_views(d.deny@)
    &&& r.spec_message() == d.message@
    &&& Some(r.spec_severity()) == spec_parse_severity(d.severity@)
}

/// A converted require-use rule carries the raw shape's content.
pub open spec fn require_corresponds(r: RequireUse, d: RequireUseDto) -> bool {
    &&& r.spec_name() == d.name@
    &&& ref_corresponds(r.spec_scope(), d.scope, d.files)
    &&& r.spec_prefer() == d.prefer@
    &&& str_views(r.spec_over()) == str_views(d.over@)
    &&& r.spec_message() == d.message@
    &&& Some(r.spec_severity()) == spec_parse_severity(d.severity@)
}

/// A converted dependency constraint carries the raw shape's content.
pub open spec fn dep_corresponds(r: ScopeDep, d: ScopeDepDto) -> bool {
    &&& r.spec_from() == d.from@
    &&& crate::model::scope_name_views(r.spec_to()) == str_views(d.to@)
    &&& r.spec_message() == d.message@
    &&& Some(r.spec_severity()) == spec_parse_severity(d.severity@)
}

/// A raw scope reference is valid: exactly one of `scope` and `files`,
/// with a well-formed name or well-formed patterns.
pub open spec fn scope_ref_dto_ok(scope: Option<String>, files: Option<Vec<String>>) -> bool {
    match (scope, files) {
        (Some(name), None) => scope_name_ok(name@),
        (None, Some(fs)) => forall|i: int|
            0 <= i < fs@.len() ==> (#[trigger] fs@[i])@.len() > 0 && glob_syntax_ok(fs@[i]@),
        _ => false,
    }
}

/// Resolves the `scope`/`files` pair of a rule into a scope reference:
/// exactly one of the two must be present.
pub fn resolve_scope_ref(
    scope: &Option<String>,
    files: &Option<Vec<String>>,
    rule_name: &str,
) -> (r: Result<ScopeRef, LoadError>)
    ensures
        r is Ok <==> scope_ref_dto_ok(*scope, *files),
        r matches Ok(sr) ==> ref_corresponds(sr, *scope, *files),
{
    match (scope, files) {
        (Some(name), None) => {
            let n = match ScopeName::new(name.as_str()) {
                Ok(n) => n,
                Err(e) => {
                    let mut ctx = rule_name.to_owned();
                    ctx.append(".scope");
                    return Err(LoadError::Validation { context: ctx, source: e });
                },
            };
            Ok(ScopeRef::Named(n))
        },
        (None, Some(patterns)) => {
            let mut ctx = rule_name.to_owned();
            ctx.append(".files");
            let globs = match convert_globs(patterns, ctx.as_str()) {
                Ok(g) => g,
                Err(e) => {
                    return Err(e);
                },
            };
            Ok(ScopeRef::Inline(globs))
        },
        _ => Err(LoadError::AmbiguousScope { rule_name: rule_name.to_owned() }),
    }
}

/// Converts one raw restrict-use rule.
pub fn convert_restrict_use(dto: &RestrictUseDto) -> (r: Result<RestrictUse, LoadError>)
    ensures
        r is Ok <==> scope_ref_dto_ok(dto.scope, dto.files) && (forall|i: int|
            0 <= i < dto.deny@.len() ==> (#[trigger] dto.deny@[i])@.len() > 0)
            && spec_parse_severity(dto.severity@) is Some,
        r matches Ok(rule) ==> {
            &&& rule.spec_name() == dto.name@
            &&& ref_corresponds(rule.spec_scope(), dto.scope, dto.files)
            &&& rule.spec_deny().map_values(|p: UsePattern| p@) == str_views(dto.deny@)
            &&& rule.spec_message() == dto.message@
            &&& Some(rule.spec_severity()) == spec_parse_severity(dto.severity@)
        },
{
    let scope = match resolve_scope_ref(&dto.scope, &dto.files, dto.name.as_str()) {
        Ok(s) => s,
        Err(e) => {
            return Err(e);
        },
    };
    let nd = dto.deny.len();
    let mut deny: Vec<UsePattern> = Vec::new();
    let mut i: usize = 0;
    proof {
        assert(deny@.map_values(|p: UsePattern| p@) =~= str_views(dto.deny@).subrange(0, 0));
    }
    while i < nd
        invariant
            0 <= i <= nd,
            nd == dto.deny@.len(),
            forall|j: int| 0 <= j < i ==> (#[trigger] dto.deny@[j])@.len() > 0,
            deny@.map_values(|p: UsePattern| p@) == str_views(dto.deny@).subrange(0, i as int),
        decreases nd - i,
    {
        match UsePattern::new(dto.deny[i].as_str()) {
            Ok(p) => {
                let ghost old_deny = deny@;
                deny.push(p);
                proof {
                    assert(deny@.map_values(|p: UsePattern| p@) =~= old_deny.map_values(
                        |p: UsePattern| p@,
                    ).push(dto.deny@[i as int]@));
                    assert(str_views(dto.deny@).subrange(0, i + 1) =~= str_views(
                        dto.deny@,
                    ).subrange(0, i as int).push(str_views(dto.deny@)[i as int]));
                }
            },
            Err(e) => {
                let mut ctx = "restrict-use '".to_owned();
                ctx.append(dto.name.as_str());
                ctx.append("' deny entry");
                return Err(LoadError::Validation { context: ctx, source: e });
            },
        }
        i = i + 1;
    }
    proof {
        assert(str_views(dto.deny@).subrange(0, nd as int) =~= str_views(dto.deny@));
    }
    let mut sev_ctx = "restrict-use '".to_owned();
    sev_ctx.append(dto.name.as_str());
    sev_ctx.append("'");
    let severity = match parse_severity(dto.severity.as_str(), sev_ctx.as_str()) {
        Ok(s) => s,
        Err(e) => {
            return Err(e);
        },
    };
    Ok(
        RestrictUse::new(
            dto.name.clone(),
            scope,
            deny,
            dto.message.clone(),
            dto.doc.clone(),
            severity,
        ),
    )
}

/// Converts one raw require-use rule.
pub fn convert_require_use(dto: &RequireUseDto) -> (r: Result<RequireUse, LoadError>)
    ensures
        r is Ok <==> scope_ref_dto_ok(dto.scope, dto.files) && spec_parse_severity(
            dto.severity@,
        ) is Some,
        r matches Ok(rule) ==> {
            &&& rule.spec_name() == dto.name@
            &&& ref_corresponds(rule.spec_scope(), dto.scope, dto.files)
            &&& rule.spec_prefer() == dto.prefer@
            &&& str_views(rule.spec_over()) == str_views(dto.over@)
            &&& rule.spec_message() == dto.message@
            &&& Some(rule.spec_severity()) == spec_parse_severity(dto.severity@)
        },
{
    let scope = match resolve_scope_ref(&dto.scope, &dto.files, dto.name.as_str()) {
        Ok(s) => s,
        Err(e) => {
            return Err(e);
        },
    };
    let mut sev_ctx = "require-use '".to_owned();
    sev_ctx.append(dto.name.as_str());
    sev_ctx.append("'");
    let severity = match parse_severity(dto.severity.as_str(), sev_ctx.as_str()) {
        Ok(s) => s,
        Err(e) => {
            return Err(e);
        },
    };
    let over = clone_strings(&dto.over);
    Ok(
        RequireUse::new(
            dto.name.clone(),
            scope,
            dto.prefer.clone(),
            over,
            dto.message.clone(),
            dto.doc.clone(),
            severity,
        ),
    )
}

/// Clones a list of strings, keeping every text.
fn clone_strings(v: &Vec<String>) -> (r: Vec<String>)
    ensures
        str_views(r@) == str_views(v@),
{
    let n = v.len();
    let mut out: Vec<String> = Vec::new();
    let mut i: usize = 0;
    proof {
        assert(str_views(out@) =~= str_views(v@).subrange(0, 0));
    }
    while i < n
        invariant
            0 <= i <= n,
            n == v@.len(),
            str_views(out@) == str_views(v@).subrange(0, i as int),
        decreases n - i,
    {
        let ghost old_out = out@;
        out.push(v[i].clone());
        proof {
            assert(str_views(out@) =~= str_views(old_out).push(v@[i as int]@));
            assert(str_views(v@).subrange(0, i + 1) =~= str_views(v@).subrange(0, i as int).push(
                str_views(v@)[i as int],
            ));
        }
        i = i + 1;
    }
    proof {
        assert(str_views(v@).subrange(0, n as int) =~= str_views(v@));
    }
    out
}

/// Converts one raw scope dependency constraint.
pub fn convert_scope_dep(dto: &ScopeDepDto, context: &str) -> (r: Result<ScopeDep, LoadError>)
    ensures
        r is Ok <==> scope_name_ok(dto.from@) && (forall|i: int|
            0 <= i < dto.to@.len() ==> scope_name_ok((#[trigger] dto.to@[i])@))
            && spec_parse_severity(dto.severity@) is Some,
        r matches Ok(dep) ==> {
            &&& dep.spec_from() == dto.from@
            &&& crate::model::scope_name_views(dep.spec_to()) == str_views(dto.to@)
            &&& dep.spec_message() == dto.message@
            &&& Some(dep.spec_severity()) == spec_parse_severity(dto.severity@)
        },
{
    let from = match ScopeName::new(dto.from.as_str()) {
        Ok(n) => n,
        Err(e) => {
            let mut ctx = context.to_owned();
            ctx.append(".from");
            return Err(LoadError::Validation { context: ctx, source: e });
        },
    };
    let nt = dto.to.len();
    let mut to: Vec<ScopeName> = Vec::new();
    let mut i: usize = 0;
    proof {
        assert(crate::model::scope_name_views(to@) =~= str_views(dto.to@).subrange(0, 0));
    }
    while i < nt
        invariant
            0 <= i <= nt,
            nt == dto.to@.len(),
            forall|j: int| 0 <= j < i ==> scope_name_ok((#[trigger] dto.to@[j])@),
            crate::model::scope_name_views(to@) == str_views(dto.to@).subrange(0, i as int),
        decreases nt - i,
    {
        match ScopeName::new(dto.to[i].as_str()) {
            Ok(n) => {
                let ghost old_to = to@;
                to.push(n);
                proof {
                    assert(crate::model::scope_name_views(to@) =~= crate::model::scope_name_views(
                        old_to,
                    ).push(dto.to@[i as int]@));
                    assert(str_views(dto.to@).subrange(0, i + 1) =~= str_views(dto.to@).subrange(
                        0,
                        i as int,
                    ).push(str_views(dto.to@)[i as int]));
                }
            },
            Err(e) => {
                let mut ctx = context.to_owned();
                ctx.append(".to entry");
                return Err(LoadError::Validation { context: ctx, source: e });
            },
        }
        i = i + 1;
    }
    proof {
        assert(str_views(dto.to@).subrange(0, nt as int) =~= str_views(dto.to@));
    }
    let severity = match parse_severity(dto.severity.as_str(), context) {
        Ok(s) => s,
        Err(e) => {
            return Err(e);
        },
    };
    Ok(ScopeDep::new(from, to, dto.message.clone(), dto.doc.clone(), severity))
}

/// A raw restrict-use rule is valid: its scope reference, every deny
/// pattern, and its severity.
pub open spec fn restrict_dto_ok(d: RestrictUseDto) -> bool {
    &&& scope_ref_dto_ok(d.scope, d.files)
    &&& forall|i: int| 0 <= i < d.deny@.len() ==> (#[trigger] d.deny@[i])@.len() > 0
    &&& spec_parse_severity(d.severity@) is Some
}

/// A raw require-use rule is valid: its scope reference and severity.
pub open spec fn require_dto_ok(d: RequireUseDto) -> bool {
    scope_ref_dto_ok(d.scope, d.files) && spec_parse_severity(d.severity@) is Some
}

/// A raw dependency rule is valid: its names and severity.
pub open spec fn dep_dto_ok(d: ScopeDepDto) -> bool {
    &&& scope_name_ok(d.from@)
    &&& forall|i: int| 0 <= i < d.to@.len() ==> scope_name_ok((#[trigger] d.to@[i])@)
    &&& spec_parse_severity(d.severity@) is Some
}

/// Every piece of a raw configuration is valid.
pub open spec fn dto_pieces_ok(dto: DeclarativeConfigDto) -> bool {
    &&& forall|i: int| 0 <= i < dto.scopes@.len() ==> scope_dto_ok(#[trigger] dto.scopes@[i])
    &&& forall|i: int|
        0 <= i < dto.restrict_use@.len() ==> restrict_dto_ok(#[trigger] dto.restrict_use@[i])
    &&& forall|i: int|
        0 <= i < dto.require_use@.len() ==> require_dto_ok(#[trigger] dto.require_use@[i])
    &&& forall|i: int|
        0 <= i < dto.deny_scope_dep@.len() ==> dep_dto_ok(#[trigger] dto.deny_scope_dep@[i])
}

/// The scope names a raw configuration defines, in order.
pub open spec fn dto_scope_names(dto: DeclarativeConfigDto) -> Seq<Seq<char>> {
    dto.scopes@.map_values(|s: ScopeDto| s.name@)
}

/// A raw named reference resolves against the raw scopes.
pub open spec fn dto_ref_resolves(dto: DeclarativeConfigDto, scope: Option<String>) -> bool {
    match scope {
        Some(nm) => crate::arch_config::names_contain(dto_scope_names(dto), nm@),
        None => true,
    }
}

/// Every cross-reference of a raw configuration resolves.
pub open spec fn dto_refs_ok(dto: DeclarativeConfigDto) -> bool {
    &&& forall|i: int|
        0 <= i < dto.restrict_use@.len() ==> dto_ref_resolves(
            dto,
            (#[trigger] dto.restrict_use@[i]).scope,
        )
    &&& forall|i: int|
        0 <= i < dto.require_use@.len() ==> dto_ref_resolves(
            dto,
            (#[trigger] dto.require_use@[i]).scope,
        )
    &&& forall|i: int|
        0 <= i < dto.deny_scope_dep@.len() ==> (crate::arch_config::names_contain(
            dto_scope_names(dto),
            (#[trigger] dto.deny_scope_dep@[i]).from@,
        ) && forall|k: int|
            0 <= k < dto.deny_scope_dep@[i].to@.len() ==> crate::arch_config::names_contain(
                dto_scope_names(dto),
                (#[trigger] dto.deny_scope_dep@[i].to@[k])@,
            ))
}

/// Converts a raw declarative configuration to the validated model: the
/// scopes, then each rule list, then the cross-reference check of the
/// aggregate. The first field-level failure is reported; unresolved
/// scope references are collected and reported together.
pub fn load(dto: &DeclarativeConfigDto) -> (r: Result<DeclarativeConfig, LoadError>)
    ensures
        r is Ok <==> dto_pieces_ok(*dto) && dto_refs_ok(*dto),
        r matches Ok(c) ==> {
            &&& c.spec_scopes().len() == dto.scopes@.len()
            &&& c.spec_restrict_uses().len() == dto.restrict_use@.len()
            &&& c.spec_require_uses().len() == dto.require_use@.len()
            &&& c.spec_scope_deps().len() == dto.deny_scope_dep@.len()
            &&& forall|j: int|
                0 <= j < dto.scopes@.len() ==> scope_corresponds(
                    #[trigger] c.spec_scopes()[j],
                    dto.scopes@[j],
                )
            &&& forall|j: int|
                0 <= j < dto.restrict_use@.len() ==> restrict_corresponds(
                    #[trigger] c.spec_restrict_uses()[j],
                    dto.restrict_use@[j],
                )
            &&& forall|j: int|
                0 <= j < dto.require_use@.len() ==> require_corresponds(
                    #[trigger] c.spec_require_uses()[j],
                    dto.require_use@[j],
                )
            &&& forall|j: int|
                0 <= j < dto.deny_scope_dep@.len() ==> dep_corresponds(
                    #[trigger] c.spec_scope_deps()[j],
                    dto.deny_scope_dep@[j],
                )
            &&& crate::model::config_refs_ok(
                c.spec_scopes(),
                c.spec_restrict_uses(),
                c.spec_require_uses(),
                c.spec_scope_deps(),
            )
        },
{
    let ns = dto.scopes.len();
    let mut scopes: Vec<Scope> = Vec::new();
    let mut i: usize = 0;
    while i < ns
        invariant
            0 <= i <= ns,
            ns == dto.scopes@.len(),
            scopes@.len() == i,
            forall|j: int| 0 <= j < i ==> scope_dto_ok(#[trigger] dto.scopes@[j]),
            forall|j: int|
                0 <= j < i ==> scope_corresponds(#[trigger] scopes@[j], dto.scopes@[j]),
        decreases ns - i,
    {
        let mut ctx = "scopes entry '".to_owned();
        ctx.append(dto.scopes[i].name.as_str());
        ctx.append("'");
        match convert_scope(&dto.scopes[i], ctx.as_str()) {
            Ok(s) => {
                scopes.push(s);
            },
            Err(e) => {
                proof {
                    assert(!scope_dto_ok(dto.scopes@[i as int]));
                    assert(!dto_pieces_ok(*dto));
                }
                return Err(e);
            },
        }
        i = i + 1;
    }

    let nr = dto.restrict_use.len();
    let mut restrict_uses: Vec<RestrictUse> = Vec::new();
    let mut i2: usize = 0;
    while i2 < nr
        invariant
            0 <= i2 <= nr,
            nr == dto.restrict_use@.len(),
            restrict_uses@.len() == i2,
            forall|j: int| 0 <= j < i2 ==> restrict_dto_ok(#[trigger] dto.restrict_use@[j]),
            forall|j: int|
                0 <= j < i2 ==> restrict_corresponds(
                    #[trigger] restrict_uses@[j],
                    dto.restrict_use@[j],
                ),
        decreases nr - i2,
    {
        match convert_restrict_use(&dto.restrict_use[i2]) {
            Ok(rule) => {
                restrict_uses.push(rule);
            },
            Err(e) => {
                proof {
                    assert(!restrict_dto_ok(dto.restrict_use@[i2 as int]));
                    assert(!dto_pieces_ok(*dto));
                }
                return Err(e);
            },
        }
        i2 = i2 + 1;
    }

    let nq = dto.require_use.len();
    let mut require_uses: Vec<RequireUse> = Vec::new();
    let mut i3: usize = 0;
    while i3 < nq
        invariant
            0 <= i3 <= nq,
            nq == dto.require_use@.len(),
            require_uses@.len() == i3,
            forall|j: int| 0 <= j < i3 ==> require_dto_ok(#[trigger] dto.require_use@[j]),
            forall|j: int|
                0 <= j < i3 ==> require_corresponds(
                    #[trigger] require_uses@[j],
                    dto.require_use@[j],
                ),
        decreases nq - i3,
    {
        match convert_require_use(&dto.require_use[i3]) {
            Ok(rule) => {
                require_uses.push(rule);
            },
            Err(e) => {
                proof {
                    assert(!require_dto_ok(dto.require_use@[i3 as int]));
                    assert(!dto_pieces_ok(*dto));
                }
                return Err(e);
            },
        }
        i3 = i3 + 1;
    }

    let nd = dto.deny_scope_dep.len();
    let mut scope_deps: Vec<ScopeDep> = Vec::new();
    let mut i4: usize = 0;
    while i4 < nd
        invariant
            0 <= i4 <= nd,
            nd == dto.deny_scope_dep@.len(),
            scope_deps@.len() == i4,
            forall|j: int| 0 <= j < i4 ==> dep_dto_ok(#[trigger] dto.deny_scope_dep@[j]),
            forall|j: int|
                0 <= j < i4 ==> dep_corresponds(
                    #[trigger] scope_deps@[j],
                    dto.deny_scope_dep@[j],
                ),
        decreases nd - i4,
    {
        let mut ctx = "deny-scope-dep entry '".to_owned();
        ctx.append(dto.deny_scope_dep[i4].from.as_str());
        ctx.append("'");
        match convert_scope_dep(&dto.deny_scope_dep[i4], ctx.as_str()) {
            Ok(dep) => {
                scope_deps.push(dep);
            },
            Err(e) => {
                proof {
                    assert(!dep_dto_ok(dto.deny_scope_dep@[i4 as int]));
                    assert(!dto_pieces_ok(*dto));
                }
                return Err(e);
            },
        }
        i4 = i4 + 1;
    }

    // With every piece converted, the converted and the raw
    // cross-reference conditions agree.
    proof {
        assert(crate::model::scope_names_of(scopes@) =~= dto_scope_names(*dto)) by {
            assert forall|j: int|
                0 <= j < scopes@.len() implies crate::model::scope_names_of(scopes@)[j]
                == dto_scope_names(*dto)[j] by {
                assert(scope_corresponds(scopes@[j], dto.scopes@[j]));
            }
        }
        assert forall|j: int|
            0 <= j < restrict_uses@.len() implies (crate::model::scope_ref_resolves(
            scopes@,
            (#[trigger] restrict_uses@[j]).spec_scope(),
        ) <==> dto_ref_resolves(*dto, dto.restrict_use@[j].scope)) by {
            assert(restrict_corresponds(restrict_uses@[j], dto.restrict_use@[j]));
            assert(restrict_dto_ok(dto.restrict_use@[j]));
            match restrict_uses@[j].spec_scope() {
                crate::model::ScopeRef::Named(n) => {
                },
                crate::model::ScopeRef::Inline(ps) => {
                    if dto.restrict_use@[j].scope is Some {
                        assert(!scope_ref_dto_ok(
                            dto.restrict_use@[j].scope,
                            dto.restrict_use@[j].files,
                        ));
                    }
                },
            }
        }
        assert forall|j: int|
            0 <= j < require_uses@.len() implies (crate::model::scope_ref_resolves(
            scopes@,
            (#[trigger] require_uses@[j]).spec_scope(),
        ) <==> dto_ref_resolves(*dto, dto.require_use@[j].scope)) by {
            assert(require_corresponds(require_uses@[j], dto.require_use@[j]));
            assert(require_dto_ok(dto.require_use@[j]));
            match require_uses@[j].spec_scope() {
                crate::model::ScopeRef::Named(n) => {
                },
                crate::model::ScopeRef::Inline(ps) => {
                    if dto.require_use@[j].scope is Some {
                        assert(!scope_ref_dto_ok(
                            dto.require_use@[j].scope,
                            dto.require_use@[j].files,
                        ));
                    }
                },
            }
        }
        assert forall|j: int|
            0 <= j < scope_deps@.len() implies #[trigger] scope_deps@[j].spec_from()
            == dto.deny_scope_dep@[j].from@ by {
            assert(dep_corresponds(scope_deps@[j], dto.deny_scope_dep@[j]));
        }
        assert forall|j: int, k: int|
            0 <= j < scope_deps@.len() && 0 <= k < scope_deps@[j].spec_to().len() implies (
        #[trigger] scope_deps@[j].spec_to()[k])@ == dto.deny_scope_dep@[j].to@[k]@ by {
            assert(dep_corresponds(scope_deps@[j], dto.deny_scope_dep@[j]));
            assert(crate::model::scope_name_views(scope_deps@[j].spec_to()).len()
                == scope_deps@[j].spec_to().len());
            assert(str_views(dto.deny_scope_dep@[j].to@).len() == dto.deny_scope_dep@[j].to@.len());
            assert(0 <= k < dto.deny_scope_dep@[j].to@.len());
            assert(crate::model::scope_name_views(scope_deps@[j].spec_to())[k]
                == scope_deps@[j].spec_to()[k]@);
            assert(str_views(dto.deny_scope_dep@[j].to@)[k] == dto.deny_scope_dep@[j].to@[k]@);
            assert(crate::model::scope_name_views(scope_deps@[j].spec_to())[k] == str_views(
                dto.deny_scope_dep@[j].to@,
            )[k]);
        }
        assert forall|j: int|
            0 <= j < scope_deps@.len() implies #[trigger] scope_deps@[j].spec_to().len()
            == dto.deny_scope_dep@[j].to@.len() by {
            assert(dep_corresponds(scope_deps@[j], dto.deny_scope_dep@[j]));
            assert(crate::model::scope_name_views(scope_deps@[j].spec_to()).len()
                == scope_deps@[j].spec_to().len());
            assert(str_views(dto.deny_scope_dep@[j].to@).len() == dto.deny_scope_dep@[j].to@.len());
        }
        if crate::model::config_refs_ok(scopes@, restrict_uses@, require_uses@, scope_deps@) {
            assert forall|i: int|
                0 <= i < dto.restrict_use@.len() implies dto_ref_resolves(
                *dto,
                (#[trigger] dto.restrict_use@[i]).scope,
            ) by {
                assert(crate::model::scope_ref_resolves(scopes@, restrict_uses@[i].spec_scope()));
            }
            assert forall|i: int|
                0 <= i < dto.require_use@.len() implies dto_ref_resolves(
                *dto,
                (#[trigger] dto.require_use@[i]).scope,
            ) by {
                assert(crate::model::scope_ref_resolves(scopes@, require_uses@[i].spec_scope()));
            }
            assert forall|i: int|
                0 <= i < dto.deny_scope_dep@.len() implies (crate::arch_config::names_contain(
                dto_scope_names(*dto),
                (#[trigger] dto.deny_scope_dep@[i]).from@,
            ) && forall|k: int|
                0 <= k < dto.deny_scope_dep@[i].to@.len() ==> crate::arch_config::names_contain(
                    dto_scope_names(*dto),
                    (#[trigger] dto.deny_scope_dep@[i].to@[k])@,
                )) by {
                assert(crate::arch_config::names_contain(
                    crate::model::scope_names_of(scopes@),
                    scope_deps@[i].spec_from(),
                ));
                assert forall|k: int|
                    0 <= k < dto.deny_scope_dep@[i].to@.len() implies crate::arch_config::names_contain(
                    dto_scope_names(*dto),
                    (#[trigger] dto.deny_scope_dep@[i].to@[k])@,
                ) by {
                    assert(crate::arch_config::names_contain(
                        crate::model::scope_names_of(scopes@),
                        scope_deps@[i].spec_to()[k]@,
                    ));
                }
            }
            assert(dto_refs_ok(*dto));
        }
        if dto_refs_ok(*dto) {
            assert forall|i: int|
                0 <= i < restrict_uses@.len() implies crate::model::scope_ref_resolves(
                scopes@,
                (#[trigger] restrict_uses@[i]).spec_scope(),
            ) by {
                assert(dto_ref_resolves(*dto, dto.restrict_use@[i].scope));
            }
            assert forall|i: int|
                0 <= i < require_uses@.len() implies crate::model::scope_ref_resolves(
                scopes@,
                (#[trigger] require_uses@[i]).spec_scope(),
            ) by {
                assert(dto_ref_resolves(*dto, dto.require_use@[i].scope));
            }
            assert forall|i: int|
                0 <= i < scope_deps@.len() implies (crate::arch_config::names_contain(
                crate::model::scope_names_of(scopes@),
                (#[trigger] scope_deps@[i]).spec_from(),
            ) && forall|k: int|
                0 <= k < scope_deps@[i].spec_to().len() ==> crate::arch_config::names_contain(
                    crate::model::scope_names_of(scopes@),
                    (#[trigger] scope_deps@[i].spec_to()[k])@,
                )) by {
                assert(crate::arch_config::names_contain(
                    dto_scope_names(*dto),
                    dto.deny_scope_dep@[i].from@,
                ));
                assert forall|k: int|
                    0 <= k < scope_deps@[i].spec_to().len() implies crate::arch_config::names_contain(
                    crate::model::scope_names_of(scopes@),
                    (#[trigger] scope_deps@[i].spec_to()[k])@,
                ) by {
                    assert(crate::arch_config::names_contain(
                        dto_scope_names(*dto),
                        dto.deny_scope_dep@[i].to@[k]@,
                    ));
                }
            }
            assert(crate::model::config_refs_ok(scopes@, restrict_uses@, require_uses@, scope_deps@));
        }
    }

    match DeclarativeConfig::new(scopes, restrict_uses, require_uses, scope_deps) {
        Ok(c) => Ok(c),
        Err(es) => Err(LoadError::CrossRef(es)),
    }
}

/// Errors from parsing a document and loading declarative rules.
#[derive(Debug)]
pub enum LoadRulesError {
    /// Document parsing failed, with the parser's message.
    Toml(String),
    /// Domain model conversion or validation failed.
    Load(LoadError),
}

/// A read scope shape carries its table's content.
pub open spec fn scope_dto_corresponds(d: ScopeDto, st: toml::Table) -> bool {
    &&& crate::toml_data::spec_str_entry(st, "name"@) == Some(d.name@)
    &&& crate::toml_data::spec_str_array_entry(st, "paths"@) == Some(str_views(d.paths@))
}

/// An optional field carries its entry: present with the entry's text,
/// or absent together with it.
pub open spec fn opt_field_corresponds(o: Option<String>, t: toml::Table, key: Seq<char>) -> bool {
    crate::config::opt_str_view(o) == crate::toml_data::spec_str_entry(t, key)
}

/// An optional string-list field carries its entry.
pub open spec fn opt_list_corresponds(
    o: Option<Vec<String>>,
    t: toml::Table,
    key: Seq<char>,
) -> bool {
    match o {
        Some(fs) => crate::toml_data::spec_str_array_entry(t, key) == Some(str_views(fs@)),
        None => crate::toml_data::spec_str_array_entry(t, key) is None,
    }
}

/// The severity field: the entry's text, or the given default.
pub open spec fn severity_field_corresponds(
    sev: Seq<char>,
    t: toml::Table,
    default: Seq<char>,
) -> bool {
    sev == match crate::toml_data::spec_str_entry(t, "severity"@) {
        Some(sv) => sv,
        None => default,
    }
}

/// A read restrict-use shape carries its table's content.
pub open spec fn restrict_dto_corresponds(d: RestrictUseDto, rt: toml::Table) -> bool {
    &&& crate::toml_data::spec_str_entry(rt, "name"@) == Some(d.name@)
    &&& opt_field_corresponds(d.scope, rt, "scope"@)
    &&& opt_list_corresponds(d.files, rt, "files"@)
    &&& crate::toml_data::spec_str_array_entry(rt, "deny"@) == Some(str_views(d.deny@))
    &&& crate::toml_data::spec_str_entry(rt, "message"@) == Some(d.message@)
    &&& opt_field_corresponds(d.doc, rt, "doc"@)
    &&& severity_field_corresponds(d.severity@, rt, "error"@)
}

/// A read require-use shape carries its table's content.
pub open spec fn require_dto_corresponds(d: RequireUseDto, rt: toml::Table) -> bool {
    &&& crate::toml_data::spec_str_entry(rt, "name"@) == Some(d.name@)
    &&& opt_field_corresponds(d.scope, rt, "scope"@)
    &&& opt_list_corresponds(d.files, rt, "files"@)
    &&& crate::toml_data::spec_str_entry(rt, "prefer"@) == Some(d.prefer@)
    &&& crate::toml_data::spec_str_array_entry(rt, "over"@) == Some(str_views(d.over@))
    &&& crate::toml_data::spec_str_entry(rt, "message"@) == Some(d.message@)
    &&& opt_field_corresponds(d.doc, rt, "doc"@)
    &&& severity_field_corresponds(d.severity@, rt, "warning"@)
}

/// A read dependency shape carries its table's content.
pub open spec fn dep_dto_corresponds(d: ScopeDepDto, dt: toml::Table) -> bool {
    &&& opt_field_corresponds(d.name, dt, "name"@)
    &&& crate::toml_data::spec_str_entry(dt, "from"@) == Some(d.from@)
    &&& crate::toml_data::spec_str_array_entry(dt, "to"@) == Some(str_views(d.to@))
    &&& crate::toml_data::spec_str_entry(dt, "message"@) == Some(d.message@)
    &&& opt_field_corresponds(d.doc, dt, "doc"@)
    &&& severity_field_corresponds(d.severity@, dt, "error"@)
}

/// The text of an optional string entry, empty when absent.
pub open spec fn entry_text(t: toml::Table, key: Seq<char>) -> Seq<char> {
    match crate::toml_data::spec_str_entry(t, key) {
        Some(v) => v,
        None => Seq::empty(),
    }
}

/// The texts of an optional string-list entry, empty when absent.
pub open spec fn entry_texts(t: toml::Table, key: Seq<char>) -> Seq<Seq<char>> {
    match crate::toml_data::spec_str_array_entry(t, key) {
        Some(v) => v,
        None => Seq::empty(),
    }
}

/// The severity text of an entry, with the section's default.
pub open spec fn entry_severity(t: toml::Table, default: Seq<char>) -> Seq<char> {
    match crate::toml_data::spec_str_entry(t, "severity"@) {
        Some(v) => v,
        None => default,
    }
}

/// A scopes table holds its required fields: a name and a path list.
pub open spec fn scope_fields_ok(t: toml::Table) -> bool {
    &&& crate::toml_data::spec_str_entry(t, "name"@) is Some
    &&& crate::toml_data::spec_str_array_entry(t, "paths"@) is Some
}

/// A restrict-use table holds its required fields.
pub open spec fn restrict_fields_ok(t: toml::Table) -> bool {
    &&& crate::toml_data::spec_str_entry(t, "name"@) is Some
    &&& crate::toml_data::spec_str_array_entry(t, "deny"@) is Some
    &&& crate::toml_data::spec_str_entry(t, "message"@) is Some
}

/// A require-use table holds its required fields.
pub open spec fn require_fields_ok(t: toml::Table) -> bool {
    &&& crate::toml_data::spec_str_entry(t, "name"@) is Some
    &&& crate::toml_data::spec_str_entry(t, "prefer"@) is Some
    &&& crate::toml_data::spec_str_array_entry(t, "over"@) is Some
    &&& crate::toml_data::spec_str_entry(t, "message"@) is Some
}

/// A deny-scope-dep table holds its required fields.
pub open spec fn dep_fields_ok(t: toml::Table) -> bool {
    &&& crate::toml_data::spec_str_entry(t, "from"@) is Some
    &&& crate::toml_data::spec_str_array_entry(t, "to"@) is Some
    &&& crate::toml_data::spec_str_entry(t, "message"@) is Some
}

/// Every section entry of a document holds its required fields.
pub open spec fn doc_fields_ok(doc: toml::Table) -> bool {
    &&& forall|i: int|
        0 <= i < crate::toml_data::spec_array_tables_entry(doc, "scopes"@).len()
            ==> scope_fields_ok(#[trigger] crate::toml_data::spec_array_tables_entry(
            doc,
            "scopes"@,
        )[i])
    &&& forall|i: int|
        0 <= i < crate::toml_data::spec_array_tables_entry(doc, "restrict-use"@).len()
            ==> restrict_fields_ok(#[trigger] crate::toml_data::spec_array_tables_entry(
            doc,
            "restrict-use"@,
        )[i])
    &&& forall|i: int|
        0 <= i < crate::toml_data::spec_array_tables_entry(doc, "require-use"@).len()
            ==> require_fields_ok(#[trigger] crate::toml_data::spec_array_tables_entry(
            doc,
            "require-use"@,
        )[i])
    &&& forall|i: int|
        0 <= i < crate::toml_data::spec_array_tables_entry(doc, "deny-scope-dep"@).len()
            ==> dep_fields_ok(#[trigger] crate::toml_data::spec_array_tables_entry(
            doc,
            "deny-scope-dep"@,
        )[i])
}

/// A rule table's scope reference is well-shaped: exactly one of
/// `scope` and `files`, with a well-formed name or patterns.
pub open spec fn table_ref_shape_ok(t: toml::Table) -> bool {
    match (
        crate::toml_data::spec_str_entry(t, "scope"@),
        crate::toml_data::spec_str_array_entry(t, "files"@),
    ) {
        (Some(nm), None) => scope_name_ok(nm),
        (None, Some(fs)) => forall|i: int|
            0 <= i < fs.len() ==> (#[trigger] fs[i]).len() > 0 && glob_syntax_ok(fs[i]),
        _ => false,
    }
}

/// A scopes table's values are valid: a well-formed name and patterns.
pub open spec fn scope_table_valid(t: toml::Table) -> bool {
    &&& scope_name_ok(entry_text(t, "name"@))
    &&& forall|i: int|
        0 <= i < entry_texts(t, "paths"@).len() ==> (#[trigger] entry_texts(t, "paths"@)[i]).len()
            > 0 && glob_syntax_ok(entry_texts(t, "paths"@)[i])
}

/// A restrict-use table's values are valid.
pub open spec fn restrict_table_valid(t: toml::Table) -> bool {
    &&& table_ref_shape_ok(t)
    &&& forall|i: int|
        0 <= i < entry_texts(t, "deny"@).len() ==> (#[trigger] entry_texts(t, "deny"@)[i]).len()
            > 0
    &&& spec_parse_severity(entry_severity(t, "error"@)) is Some
}

/// A require-use table's values are valid.
pub open spec fn require_table_valid(t: toml::Table) -> bool {
    table_ref_shape_ok(t) && spec_parse_severity(entry_severity(t, "warning"@)) is Some
}

/// A deny-scope-dep table's values are valid.
pub open spec fn dep_table_valid(t: toml::Table) -> bool {
    &&& scope_name_ok(entry_text(t, "from"@))
    &&& forall|i: int|
        0 <= i < entry_texts(t, "to"@).len() ==> scope_name_ok(#[trigger] entry_texts(t, "to"@)[i])
    &&& spec_parse_severity(entry_severity(t, "error"@)) is Some
}

/// Every section entry of a document carries valid values.
pub open spec fn doc_tables_valid(doc: toml::Table) -> bool {
    &&& forall|i: int|
        0 <= i < crate::toml_data::spec_array_tables_entry(doc, "scopes"@).len()
            ==> scope_table_valid(#[trigger] crate::toml_data::spec_array_tables_entry(
            doc,
            "scopes"@,
        )[i])
    &&& forall|i: int|
        0 <= i < crate::toml_data::spec_array_tables_entry(doc, "restrict-use"@).len()
            ==> restrict_table_valid(#[trigger] crate::toml_data::spec_array_tables_entry(
            doc,
            "restrict-use"@,
        )[i])
    &&& forall|i: int|
        0 <= i < crate::toml_data::spec_array_tables_entry(doc, "require-use"@).len()
            ==> require_table_valid(#[trigger] crate::toml_data::spec_array_tables_entry(
            doc,
            "require-use"@,
        )[i])
    &&& forall|i: int|
        0 <= i < crate::toml_data::spec_array_tables_entry(doc, "deny-scope-dep"@).len()
            ==> dep_table_valid(#[trigger] crate::toml_data::spec_array_tables_entry(
            doc,
            "deny-scope-dep"@,
        )[i])
}

/// The scope names a document defines, in order.
pub open spec fn doc_scope_names(doc: toml::Table) -> Seq<Seq<char>> {
    crate::toml_data::spec_array_tables_entry(doc, "scopes"@).map_values(
        |t: toml::Table| entry_text(t, "name"@),
    )
}

/// A rule table's named scope reference resolves against the document.
pub open spec fn table_ref_resolves(doc: toml::Table, t: toml::Table) -> bool {
    match crate::toml_data::spec_str_entry(t, "scope"@) {
        Some(nm) => crate::arch_config::names_contain(doc_scope_names(doc), nm),
        None => true,
    }
}

/// Every cross-reference in a document resolves against its scopes.
pub open spec fn doc_refs_ok(doc: toml::Table) -> bool {
    &&& forall|i: int|
        0 <= i < crate::toml_data::spec_array_tables_entry(doc, "restrict-use"@).len()
            ==> table_ref_resolves(
            doc,
            #[trigger] crate::toml_data::spec_array_tables_entry(doc, "restrict-use"@)[i],
        )
    &&& forall|i: int|
        0 <= i < crate::toml_data::spec_array_tables_entry(doc, "require-use"@).len()
            ==> table_ref_resolves(
            doc,
            #[trigger] crate::toml_data::spec_array_tables_entry(doc, "require-use"@)[i],
        )
    &&& forall|i: int|
        0 <= i < crate::toml_data::spec_array_tables_entry(doc, "deny-scope-dep"@).len()
            ==> {
            let dt = #[trigger] crate::toml_data::spec_array_tables_entry(
                doc,
                "deny-scope-dep"@,
            )[i];
            crate::arch_config::names_contain(doc_scope_names(doc), entry_text(dt, "from"@))
                && forall|k: int|
                0 <= k < entry_texts(dt, "to"@).len() ==> crate::arch_config::names_contain(
                    doc_scope_names(doc),
                    #[trigger] entry_texts(dt, "to"@)[k],
                )
        }
}

/// A rule table's reference shape agrees with the shape read from it.
proof fn lemma_ref_shape_agree(scope: Option<String>, files: Option<Vec<String>>, t: toml::Table)
    requires
        opt_field_corresponds(scope, t, "scope"@),
        opt_list_corresponds(files, t, "files"@),
    ensures
        scope_ref_dto_ok(scope, files) <==> table_ref_shape_ok(t),
{
    match (scope, files) {
        (Some(nm), None) => {
            assert(crate::toml_data::spec_str_entry(t, "scope"@) == Some(nm@));
            assert(crate::toml_data::spec_str_array_entry(t, "files"@) is None);
            assert(scope_ref_dto_ok(scope, files) == scope_name_ok(nm@));
            assert(table_ref_shape_ok(t) == scope_name_ok(nm@));
            assert(scope_ref_dto_ok(scope, files) <==> table_ref_shape_ok(t));
        },
        (None, Some(fs)) => {
            assert(crate::toml_data::spec_str_entry(t, "scope"@) is None);
            assert(crate::toml_data::spec_str_array_entry(t, "files"@) == Some(str_views(fs@)));
            assert(str_views(fs@).len() == fs@.len());
            if forall|i: int|
                0 <= i < fs@.len() ==> (#[trigger] fs@[i])@.len() > 0 && glob_syntax_ok(
                    fs@[i]@,
                ) {
                assert forall|i: int|
                    0 <= i < str_views(fs@).len() implies (#[trigger] str_views(fs@)[i]).len() > 0
                    && glob_syntax_ok(str_views(fs@)[i]) by {
                    assert(str_views(fs@)[i] == fs@[i]@);
                }
            }
            if forall|i: int|
                0 <= i < str_views(fs@).len() ==> (#[trigger] str_views(fs@)[i]).len() > 0
                    && glob_syntax_ok(str_views(fs@)[i]) {
                assert forall|i: int|
                    0 <= i < fs@.len() implies (#[trigger] fs@[i])@.len() > 0 && glob_syntax_ok(
                    fs@[i]@,
                ) by {
                    assert(str_views(fs@)[i] == fs@[i]@);
                }
            }
            assert(scope_ref_dto_ok(scope, files) <==> table_ref_shape_ok(t));
        },
        (None, None) => {
            assert(crate::toml_data::spec_str_entry(t, "scope"@) is None);
            assert(crate::toml_data::spec_str_array_entry(t, "files"@) is None);
            assert(scope_ref_dto_ok(scope, files) <==> table_ref_shape_ok(t));
        },
        (Some(nm), Some(fs)) => {
            assert(crate::toml_data::spec_str_entry(t, "scope"@) == Some(nm@));
            assert(crate::toml_data::spec_str_array_entry(t, "files"@) == Some(str_views(fs@)));
            assert(scope_ref_dto_ok(scope, files) <==> table_ref_shape_ok(t));
        },
    }
}

/// The validity and cross-reference conditions of a read configuration
/// agree with those stated over the document it was read from.
proof fn lemma_dto_doc_agree(dto: DeclarativeConfigDto, doc: toml::Table)
    requires
        dto.scopes@.len() == crate::toml_data::spec_array_tables_entry(doc, "scopes"@).len(),
        forall|j: int|
            0 <= j < dto.scopes@.len() ==> scope_dto_corresponds(
                #[trigger] dto.scopes@[j],
                crate::toml_data::spec_array_tables_entry(doc, "scopes"@)[j],
            ),
        dto.restrict_use@.len() == crate::toml_data::spec_array_tables_entry(
            doc,
            "restrict-use"@,
        ).len(),
        forall|j: int|
            0 <= j < dto.restrict_use@.len() ==> restrict_dto_corresponds(
                #[trigger] dto.restrict_use@[j],
                crate::toml_data::spec_array_tables_entry(doc, "restrict-use"@)[j],
            ),
        dto.require_use@.len() == crate::toml_data::spec_array_tables_entry(
            doc,
            "require-use"@,
        ).len(),
        forall|j: int|
            0 <= j < dto.require_use@.len() ==> require_dto_corresponds(
                #[trigger] dto.require_use@[j],
                crate::toml_data::spec_array_tables_entry(doc, "require-use"@)[j],
            ),
        dto.deny_scope_dep@.len() == crate::toml_data::spec_array_tables_entry(
            doc,
            "deny-scope-dep"@,
        ).len(),
        forall|j: int|
            0 <= j < dto.deny_scope_dep@.len() ==> dep_dto_corresponds(
                #[trigger] dto.deny_scope_dep@[j],
                crate::toml_data::spec_array_tables_entry(doc, "deny-scope-dep"@)[j],
            ),
    ensures
        dto_pieces_ok(dto) <==> doc_tables_valid(doc),
        dto_refs_ok(dto) <==> doc_refs_ok(doc),
{
    let sts = crate::toml_data::spec_array_tables_entry(doc, "scopes"@);
    let rts = crate::toml_data::spec_array_tables_entry(doc, "restrict-use"@);
    let qts = crate::toml_data::spec_array_tables_entry(doc, "require-use"@);
    let dts = crate::toml_data::spec_array_tables_entry(doc, "deny-scope-dep"@);
    assert forall|j: int|
        0 <= j < dto.scopes@.len() implies (scope_dto_ok(#[trigger] dto.scopes@[j])
        <==> scope_table_valid(sts[j])) by {
        let d = dto.scopes@[j];
        let t = sts[j];
        assert(scope_dto_corresponds(d, t));
        assert(entry_text(t, "name"@) == d.name@);
        assert(entry_texts(t, "paths"@) == str_views(d.paths@));
        assert(str_views(d.paths@).len() == d.paths@.len());
        if scope_dto_ok(d) {
            assert forall|k: int|
                0 <= k < entry_texts(t, "paths"@).len() implies (#[trigger] entry_texts(
                t,
                "paths"@,
            )[k]).len() > 0 && glob_syntax_ok(entry_texts(t, "paths"@)[k]) by {
                assert(str_views(d.paths@)[k] == d.paths@[k]@);
            }
            assert(scope_table_valid(t));
        }
        if scope_table_valid(t) {
            assert forall|k: int|
                0 <= k < d.paths@.len() implies (#[trigger] d.paths@[k])@.len() > 0
                && glob_syntax_ok(d.paths@[k]@) by {
                assert(str_views(d.paths@)[k] == d.paths@[k]@);
                assert(entry_texts(t, "paths"@)[k].len() > 0 && glob_syntax_ok(
                    entry_texts(t, "paths"@)[k],
                ));
            }
            assert(scope_dto_ok(d));
        }
    }
    assert forall|j: int|
        0 <= j < dto.restrict_use@.len() implies (restrict_dto_ok(#[trigger] dto.restrict_use@[j])
        <==> restrict_table_valid(rts[j])) by {
        let d = dto.restrict_use@[j];
        let t = rts[j];
        assert(restrict_dto_corresponds(d, t));
        lemma_ref_shape_agree(d.scope, d.files, t);
        assert(entry_texts(t, "deny"@) == str_views(d.deny@));
        assert(str_views(d.deny@).len() == d.deny@.len());
        assert(d.severity@ == entry_severity(t, "error"@));
        if forall|k: int| 0 <= k < d.deny@.len() ==> (#[trigger] d.deny@[k])@.len() > 0 {
            assert forall|k: int|
                0 <= k < entry_texts(t, "deny"@).len() implies (#[trigger] entry_texts(
                t,
                "deny"@,
            )[k]).len() > 0 by {
                assert(str_views(d.deny@)[k] == d.deny@[k]@);
            }
        }
        if forall|k: int|
            0 <= k < entry_texts(t, "deny"@).len() ==> (#[trigger] entry_texts(t, "deny"@)[k]).len()
                > 0 {
            assert forall|k: int|
                0 <= k < d.deny@.len() implies (#[trigger] d.deny@[k])@.len() > 0 by {
                assert(str_views(d.deny@)[k] == d.deny@[k]@);
                assert(entry_texts(t, "deny"@)[k].len() > 0);
            }
        }
    }
    assert forall|j: int|
        0 <= j < dto.require_use@.len() implies (require_dto_ok(#[trigger] dto.require_use@[j])
        <==> require_table_valid(qts[j])) by {
        let d = dto.require_use@[j];
        let t = qts[j];
        assert(require_dto_corresponds(d, t));
        lemma_ref_shape_agree(d.scope, d.files, t);
        assert(d.severity@ == entry_severity(t, "warning"@));
    }
    assert forall|j: int|
        0 <= j < dto.deny_scope_dep@.len() implies (dep_dto_ok(#[trigger] dto.deny_scope_dep@[j])
        <==> dep_table_valid(dts[j])) by {
        let d = dto.deny_scope_dep@[j];
        let t = dts[j];
        assert(dep_dto_corresponds(d, t));
        assert(entry_text(t, "from"@) == d.from@);
        assert(entry_texts(t, "to"@) == str_views(d.to@));
        assert(str_views(d.to@).len() == d.to@.len());
        assert(d.severity@ == entry_severity(t, "error"@));
        if forall|k: int| 0 <= k < d.to@.len() ==> scope_name_ok((#[trigger] d.to@[k])@) {
            assert forall|k: int|
                0 <= k < entry_texts(t, "to"@).len() implies scope_name_ok(
                #[trigger] entry_texts(t, "to"@)[k],
            ) by {
                assert(str_views(d.to@)[k] == d.to@[k]@);
            }
        }
        if forall|k: int|
            0 <= k < entry_texts(t, "to"@).len() ==> scope_name_ok(
                #[trigger] entry_texts(t, "to"@)[k],
            ) {
            assert forall|k: int|
                0 <= k < d.to@.len() implies scope_name_ok((#[trigger] d.to@[k])@) by {
                assert(str_views(d.to@)[k] == d.to@[k]@);
                assert(scope_name_ok(entry_texts(t, "to"@)[k]));
            }
        }
    }
    if dto_pieces_ok(dto) {
        assert forall|j: int| 0 <= j < sts.len() implies scope_table_valid(#[trigger] sts[j]) by {
            assert(scope_dto_ok(dto.scopes@[j]));
        }
        assert forall|j: int|
            0 <= j < rts.len() implies restrict_table_valid(#[trigger] rts[j]) by {
            assert(restrict_dto_ok(dto.restrict_use@[j]));
        }
        assert forall|j: int|
            0 <= j < qts.len() implies require_table_valid(#[trigger] qts[j]) by {
            assert(require_dto_ok(dto.require_use@[j]));
        }
        assert forall|j: int| 0 <= j < dts.len() implies dep_table_valid(#[trigger] dts[j]) by {
            assert(dep_dto_ok(dto.deny_scope_dep@[j]));
        }
        assert(doc_tables_valid(doc));
    }
    if doc_tables_valid(doc) {
        assert forall|j: int|
            0 <= j < dto.scopes@.len() implies scope_dto_ok(#[trigger] dto.scopes@[j]) by {
            assert(scope_table_valid(sts[j]));
        }
        assert forall|j: int|
            0 <= j < dto.restrict_use@.len() implies restrict_dto_ok(
            #[trigger] dto.restrict_use@[j],
        ) by {
            assert(restrict_table_valid(rts[j]));
        }
        assert forall|j: int|
            0 <= j < dto.require_use@.len() implies require_dto_ok(
            #[trigger] dto.require_use@[j],
        ) by {
            assert(require_table_valid(qts[j]));
        }
        assert forall|j: int|
            0 <= j < dto.deny_scope_dep@.len() implies dep_dto_ok(
            #[trigger] dto.deny_scope_dep@[j],
        ) by {
            assert(dep_table_valid(dts[j]));
        }
        assert(dto_pieces_ok(dto));
    }
    assert(doc_scope_names(doc) =~= dto_scope_names(dto)) by {
        assert forall|j: int|
            0 <= j < sts.len() implies doc_scope_names(doc)[j] == dto_scope_names(dto)[j] by {
            assert(scope_dto_corresponds(dto.scopes@[j], sts[j]));
            assert(doc_scope_names(doc)[j] == entry_text(sts[j], "name"@));
            assert(dto_scope_names(dto)[j] == dto.scopes@[j].name@);
        }
    }
    assert forall|j: int|
        0 <= j < dto.restrict_use@.len() implies (dto_ref_resolves(
        dto,
        (#[trigger] dto.restrict_use@[j]).scope,
    ) <==> table_ref_resolves(doc, rts[j])) by {
        assert(restrict_dto_corresponds(dto.restrict_use@[j], rts[j]));
    }
    assert forall|j: int|
        0 <= j < dto.require_use@.len() implies (dto_ref_resolves(
        dto,
        (#[trigger] dto.require_use@[j]).scope,
    ) <==> table_ref_resolves(doc, qts[j])) by {
        assert(require_dto_corresponds(dto.require_use@[j], qts[j]));
    }
    assert forall|j: int, k: int|
        0 <= j < dto.deny_scope_dep@.len() && 0 <= k < dto.deny_scope_dep@[j].to@.len() implies (
    #[trigger] dto.deny_scope_dep@[j].to@[k])@ == entry_texts(dts[j], "to"@)[k] by {
        assert(dep_dto_corresponds(dto.deny_scope_dep@[j], dts[j]));
        assert(str_views(dto.deny_scope_dep@[j].to@)[k] == dto.deny_scope_dep@[j].to@[k]@);
    }
    assert forall|j: int|
        0 <= j < dto.deny_scope_dep@.len() implies #[trigger] dto.deny_scope_dep@[j].to@.len()
        == entry_texts(dts[j], "to"@).len() && dto.deny_scope_dep@[j].from@ == entry_text(
        dts[j],
        "from"@,
    ) by {
        assert(dep_dto_corresponds(dto.deny_scope_dep@[j], dts[j]));
        assert(str_views(dto.deny_scope_dep@[j].to@).len() == dto.deny_scope_dep@[j].to@.len());
    }
    if dto_refs_ok(dto) {
        assert forall|i: int|
            0 <= i < rts.len() implies table_ref_resolves(doc, #[trigger] rts[i]) by {
            assert(dto_ref_resolves(dto, dto.restrict_use@[i].scope));
        }
        assert forall|i: int|
            0 <= i < qts.len() implies table_ref_resolves(doc, #[trigger] qts[i]) by {
            assert(dto_ref_resolves(dto, dto.require_use@[i].scope));
        }
        assert forall|i: int|
            0 <= i < dts.len() implies (crate::arch_config::names_contain(
            doc_scope_names(doc),
            entry_text(#[trigger] dts[i], "from"@),
        ) && forall|k: int|
            0 <= k < entry_texts(dts[i], "to"@).len() ==> crate::arch_config::names_contain(
                doc_scope_names(doc),
                #[trigger] entry_texts(dts[i], "to"@)[k],
            )) by {
            assert(crate::arch_config::names_contain(
                dto_scope_names(dto),
                dto.deny_scope_dep@[i].from@,
            ));
            assert forall|k: int|
                0 <= k < entry_texts(dts[i], "to"@).len() implies crate::arch_config::names_contain(
                doc_scope_names(doc),
                #[trigger] entry_texts(dts[i], "to"@)[k],
            ) by {
                assert(crate::arch_config::names_contain(
                    dto_scope_names(dto),
                    dto.deny_scope_dep@[i].to@[k]@,
                ));
            }
        }
        assert(doc_refs_ok(doc));
    }
    if doc_refs_ok(doc) {
        assert forall|i: int|
            0 <= i < dto.restrict_use@.len() implies dto_ref_resolves(
            dto,
            (#[trigger] dto.restrict_use@[i]).scope,
        ) by {
            assert(table_ref_resolves(doc, rts[i]));
        }
        assert forall|i: int|
            0 <= i < dto.require_use@.len() implies dto_ref_resolves(
            dto,
            (#[trigger] dto.require_use@[i]).scope,
        ) by {
            assert(table_ref_resolves(doc, qts[i]));
        }
        assert forall|i: int|
            0 <= i < dto.deny_scope_dep@.len() implies (crate::arch_config::names_contain(
            dto_scope_names(dto),
            (#[trigger] dto.deny_scope_dep@[i]).from@,
        ) && forall|k: int|
            0 <= k < dto.deny_scope_dep@[i].to@.len() ==> crate::arch_config::names_contain(
                dto_scope_names(dto),
                (#[trigger] dto.deny_scope_dep@[i].to@[k])@,
            )) by {
            assert(crate::arch_config::names_contain(
                doc_scope_names(doc),
                entry_text(dts[i], "from"@),
            ));
            assert forall|k: int|
                0 <= k < dto.deny_scope_dep@[i].to@.len() implies crate::arch_config::names_contain(
                dto_scope_names(dto),
                (#[trigger] dto.deny_scope_dep@[i].to@[k])@,
            ) by {
                assert(crate::arch_config::names_contain(
                    doc_scope_names(doc),
                    entry_texts(dts[i], "to"@)[k],
                ));
            }
        }
        assert(dto_refs_ok(dto));
    }
}

/// Reads one scope entry from its table.
fn dto_scope_of(t: &toml::Table) -> (r: Result<ScopeDto, LoadRulesError>)
    ensures
        r is Ok <==> scope_fields_ok(*t),
        r matches Ok(d) ==> scope_dto_corresponds(d, *t),
{
    let name = match crate::toml_data::table_get_str(t, "name") {
        Some(n) => n,
        None => {
            return Err(LoadRulesError::Toml("scopes entry needs a name".to_owned()));
        },
    };
    let paths = match crate::toml_data::table_get_str_array(t, "paths") {
        Some(p) => p,
        None => {
            return Err(LoadRulesError::Toml("scopes entry needs paths".to_owned()));
        },
    };
    Ok(ScopeDto { name, paths })
}

/// Reads the raw declarative configuration out of a parsed document:
/// one shape per table-valued element of each section, pinned to the
/// document's entries.
fn dto_of_table(table: &toml::Table) -> (r: Result<DeclarativeConfigDto, LoadRulesError>)
    ensures
        r is Ok <==> doc_fields_ok(*table),
        r matches Ok(dto) ==> {
            &&& dto.scopes@.len() == crate::toml_data::spec_array_tables_entry(
                *table,
                "scopes"@,
            ).len()
            &&& forall|j: int|
                0 <= j < dto.scopes@.len() ==> scope_dto_corresponds(
                    #[trigger] dto.scopes@[j],
                    crate::toml_data::spec_array_tables_entry(*table, "scopes"@)[j],
                )
            &&& dto.restrict_use@.len() == crate::toml_data::spec_array_tables_entry(
                *table,
                "restrict-use"@,
            ).len()
            &&& forall|j: int|
                0 <= j < dto.restrict_use@.len() ==> restrict_dto_corresponds(
                    #[trigger] dto.restrict_use@[j],
                    crate::toml_data::spec_array_tables_entry(*table, "restrict-use"@)[j],
                )
            &&& dto.require_use@.len() == crate::toml_data::spec_array_tables_entry(
                *table,
                "require-use"@,
            ).len()
            &&& forall|j: int|
                0 <= j < dto.require_use@.len() ==> require_dto_corresponds(
                    #[trigger] dto.require_use@[j],
                    crate::toml_data::spec_array_tables_entry(*table, "require-use"@)[j],
                )
            &&& dto.deny_scope_dep@.len() == crate::toml_data::spec_array_tables_entry(
                *table,
                "deny-scope-dep"@,
            ).len()
            &&& forall|j: int|
                0 <= j < dto.deny_scope_dep@.len() ==> dep_dto_corresponds(
                    #[trigger] dto.deny_scope_dep@[j],
                    crate::toml_data::spec_array_tables_entry(*table, "deny-scope-dep"@)[j],
                )
        },
{
    let mut scopes: Vec<ScopeDto> = Vec::new();
    let scope_tables = crate::toml_data::tables_of(table, "scopes");
    let ghost st_seq = crate::toml_data::spec_array_tables_entry(*table, "scopes"@);
    let n = scope_tables.len();
    let mut i: usize = 0;
    while i < n
        invariant
            0 <= i <= n,
            n == scope_tables@.len(),
            st_seq == crate::toml_data::spec_array_tables_entry(*table, "scopes"@),
            scope_tables@.map_values(|x: &toml::Table| *x) == st_seq,
            scopes@.len() == i,
            forall|j: int| 0 <= j < i ==> scope_fields_ok(#[trigger] st_seq[j]),
            forall|j: int|
                0 <= j < i ==> scope_dto_corresponds(#[trigger] scopes@[j], st_seq[j]),
        decreases n - i,
    {
        proof {
            assert(scope_tables@.map_values(|x: &toml::Table| *x)[i as int] == st_seq[i as int]);
        }
        match dto_scope_of(scope_tables[i]) {
            Ok(d) => {
                scopes.push(d);
            },
            Err(e) => {
                proof {
                    assert(crate::toml_data::spec_array_tables_entry(*table, "scopes"@)[i as int]
                        == st_seq[i as int]);
                    assert(!scope_fields_ok(st_seq[i as int]));
                    assert(!doc_fields_ok(*table));
                }
                return Err(e);
            },
        }
        i = i + 1;
    }

    let mut restrict_use: Vec<RestrictUseDto> = Vec::new();
    let restrict_tables = crate::toml_data::tables_of(table, "restrict-use");
    let ghost rt_seq = crate::toml_data::spec_array_tables_entry(*table, "restrict-use"@);
    let nr = restrict_tables.len();
    let mut i2: usize = 0;
    while i2 < nr
        invariant
            0 <= i2 <= nr,
            nr == restrict_tables@.len(),
            rt_seq == crate::toml_data::spec_array_tables_entry(*table, "restrict-use"@),
            restrict_tables@.map_values(|x: &toml::Table| *x) == rt_seq,
            restrict_use@.len() == i2,
            forall|j: int| 0 <= j < i2 ==> restrict_fields_ok(#[trigger] rt_seq[j]),
            forall|j: int|
                0 <= j < i2 ==> restrict_dto_corresponds(
                    #[trigger] restrict_use@[j],
                    rt_seq[j],
                ),
        decreases nr - i2,
    {
        let t = restrict_tables[i2];
        proof {
            assert(restrict_tables@.map_values(|x: &toml::Table| *x)[i2 as int]
                == rt_seq[i2 as int]);
        }
        let name = match crate::toml_data::table_get_str(t, "name") {
            Some(v) => v,
            None => {
                proof {
                    assert(crate::toml_data::spec_array_tables_entry(
                        *table,
                        "restrict-use"@,
                    )[i2 as int] == rt_seq[i2 as int]);
                    assert(!restrict_fields_ok(rt_seq[i2 as int]));
                    assert(!doc_fields_ok(*table));
                }
                return Err(LoadRulesError::Toml("restrict-use entry needs a name".to_owned()));
            },
        };
        let deny = match crate::toml_data::table_get_str_array(t, "deny") {
            Some(v) => v,
            None => {
                proof {
                    assert(crate::toml_data::spec_array_tables_entry(
                        *table,
                        "restrict-use"@,
                    )[i2 as int] == rt_seq[i2 as int]);
                    assert(!restrict_fields_ok(rt_seq[i2 as int]));
                    assert(!doc_fields_ok(*table));
                }
                return Err(LoadRulesError::Toml("restrict-use entry needs deny".to_owned()));
            },
        };
        let message = match crate::toml_data::table_get_str(t, "message") {
            Some(v) => v,
            None => {
                proof {
                    assert(crate::toml_data::spec_array_tables_entry(
                        *table,
                        "restrict-use"@,
                    )[i2 as int] == rt_seq[i2 as int]);
                    assert(!restrict_fields_ok(rt_seq[i2 as int]));
                    assert(!doc_fields_ok(*table));
                }
                return Err(
                    LoadRulesError::Toml("restrict-use entry needs a message".to_owned()),
                );
            },
        };
        let severity = match crate::toml_data::table_get_str(t, "severity") {
            Some(v) => v,
            None => "error".to_owned(),
        };
        restrict_use.push(
            RestrictUseDto {
                name,
                scope: crate::toml_data::table_get_str(t, "scope"),
                files: crate::toml_data::table_get_str_array(t, "files"),
                deny,
                message,
                doc: crate::toml_data::table_get_str(t, "doc"),
                severity,
            },
        );
        i2 = i2 + 1;
    }

    let mut require_use: Vec<RequireUseDto> = Vec::new();
    let require_tables = crate::toml_data::tables_of(table, "require-use");
    let ghost qt_seq = crate::toml_data::spec_array_tables_entry(*table, "require-use"@);
    let nq = require_tables.len();
    let mut i3: usize = 0;
    while i3 < nq
        invariant
            0 <= i3 <= nq,
            nq == require_tables@.len(),
            qt_seq == crate::toml_data::spec_array_tables_entry(*table, "require-use"@),
            require_tables@.map_values(|x: &toml::Table| *x) == qt_seq,
            require_use@.len() == i3,
            forall|j: int| 0 <= j < i3 ==> require_fields_ok(#[trigger] qt_seq[j]),
            forall|j: int|
                0 <= j < i3 ==> require_dto_corresponds(#[trigger] require_use@[j], qt_seq[j]),
        decreases nq - i3,
    {
        let t = require_tables[i3];
        proof {
            assert(require_tables@.map_values(|x: &toml::Table| *x)[i3 as int]
                == qt_seq[i3 as int]);
        }
        let name = match crate::toml_data::table_get_str(t, "name") {
            Some(v) => v,
            None => {
                proof {
                    assert(crate::toml_data::spec_array_tables_entry(
                        *table,
                        "require-use"@,
                    )[i3 as int] == qt_seq[i3 as int]);
                    assert(!require_fields_ok(qt_seq[i3 as int]));
                    assert(!doc_fields_ok(*table));
                }
                return Err(LoadRulesError::Toml("require-use entry needs a name".to_owned()));
            },
        };
        let prefer = match crate::toml_data::table_get_str(t, "prefer") {
            Some(v) => v,
            None => {
                proof {
                    assert(crate::toml_data::spec_array_tables_entry(
                        *table,
                        "require-use"@,
                    )[i3 as int] == qt_seq[i3 as int]);
                    assert(!require_fields_ok(qt_seq[i3 as int]));
                    assert(!doc_fields_ok(*table));
                }
                return Err(LoadRulesError::Toml("require-use entry needs prefer".to_owned()));
            },
        };
        let over = match crate::toml_data::table_get_str_array(t, "over") {
            Some(v) => v,
            None => {
                proof {
                    assert(crate::toml_data::spec_array_tables_entry(
                        *table,
                        "require-use"@,
                    )[i3 as int] == qt_seq[i3 as int]);
                    assert(!require_fields_ok(qt_seq[i3 as int]));
                    assert(!doc_fields_ok(*table));
                }
                return Err(LoadRulesError::Toml("require-use entry needs over".to_owned()));
            },
        };
        let message = match crate::toml_data::table_get_str(t, "message") {
            Some(v) => v,
            None => {
                proof {
                    assert(crate::toml_data::spec_array_tables_entry(
                        *table,
                        "require-use"@,
                    )[i3 as int] == qt_seq[i3 as int]);
                    assert(!require_fields_ok(qt_seq[i3 as int]));
                    assert(!doc_fields_ok(*table));
                }
                return Err(LoadRulesError::Toml("require-use entry needs a message".to_owned()));
            },
        };
        let severity = match crate::toml_data::table_get_str(t, "severity") {
            Some(v) => v,
            None => "warning".to_owned(),
        };
        require_use.push(
            RequireUseDto {
                name,
                scope: crate::toml_data::table_get_str(t, "scope"),
                files: crate::toml_data::table_get_str_array(t, "files"),
                prefer,
                over,
                message,
                doc: crate::toml_data::table_get_str(t, "doc"),
                severity,
            },
        );
        i3 = i3 + 1;
    }

    let mut deny_scope_dep: Vec<ScopeDepDto> = Vec::new();
    let dep_tables = crate::toml_data::tables_of(table, "deny-scope-dep");
    let ghost dt_seq = crate::toml_data::spec_array_tables_entry(*table, "deny-scope-dep"@);
    let nd = dep_tables.len();
    let mut i4: usize = 0;
    while i4 < nd
        invariant
            0 <= i4 <= nd,
            nd == dep_tables@.len(),
            dt_seq == crate::toml_data::spec_array_tables_entry(*table, "deny-scope-dep"@),
            dep_tables@.map_values(|x: &toml::Table| *x) == dt_seq,
            deny_scope_dep@.len() == i4,
            forall|j: int| 0 <= j < i4 ==> dep_fields_ok(#[trigger] dt_seq[j]),
            forall|j: int|
                0 <= j < i4 ==> dep_dto_corresponds(#[trigger] deny_scope_dep@[j], dt_seq[j]),
        decreases nd - i4,
    {
        let t = dep_tables[i4];
        proof {
            assert(dep_tables@.map_values(|x: &toml::Table| *x)[i4 as int] == dt_seq[i4 as int]);
        }
        let from = match crate::toml_data::table_get_str(t, "from") {
            Some(v) => v,
            None => {
                proof {
                    assert(crate::toml_data::spec_array_tables_entry(
                        *table,
                        "deny-scope-dep"@,
                    )[i4 as int] == dt_seq[i4 as int]);
                    assert(!dep_fields_ok(dt_seq[i4 as int]));
                    assert(!doc_fields_ok(*table));
                }
                return Err(LoadRulesError::Toml("deny-scope-dep entry needs from".to_owned()));
            },
        };
        let to = match crate::toml_data::table_get_str_array(t, "to") {
            Some(v) => v,
            None => {
                proof {
                    assert(crate::toml_data::spec_array_tables_entry(
                        *table,
                        "deny-scope-dep"@,
                    )[i4 as int] == dt_seq[i4 as int]);
                    assert(!dep_fields_ok(dt_seq[i4 as int]));
                    assert(!doc_fields_ok(*table));
                }
                return Err(LoadRulesError::Toml("deny-scope-dep entry needs to".to_owned()));
            },
        };
        let message = match crate::toml_data::table_get_str(t, "message") {
            Some(v) => v,
            None => {
                proof {
                    assert(crate::toml_data::spec_array_tables_entry(
                        *table,
                        "deny-scope-dep"@,
                    )[i4 as int] == dt_seq[i4 as int]);
                    assert(!dep_fields_ok(dt_seq[i4 as int]));
                    assert(!doc_fields_ok(*table));
                }
                return Err(
                    LoadRulesError::Toml("deny-scope-dep entry needs a message".to_owned()),
                );
            },
        };
        let severity = match crate::toml_data::table_get_str(t, "severity") {
            Some(v) => v,
            None => "error".to_owned(),
        };
        deny_scope_dep.push(
            ScopeDepDto {
                name: crate::toml_data::table_get_str(t, "name"),
                from,
                to,
                message,
                doc: crate::toml_data::table_get_str(t, "doc"),
                severity,
            },
        );
        i4 = i4 + 1;
    }

    proof {
        assert forall|j: int|
            0 <= j < crate::toml_data::spec_array_tables_entry(*table, "scopes"@).len()
            implies scope_fields_ok(#[trigger] crate::toml_data::spec_array_tables_entry(
            *table,
            "scopes"@,
        )[j]) by {
            assert(crate::toml_data::spec_array_tables_entry(*table, "scopes"@)[j] == st_seq[j]);
        }
        assert forall|j: int|
            0 <= j < crate::toml_data::spec_array_tables_entry(*table, "restrict-use"@).len()
            implies restrict_fields_ok(#[trigger] crate::toml_data::spec_array_tables_entry(
            *table,
            "restrict-use"@,
        )[j]) by {
            assert(crate::toml_data::spec_array_tables_entry(*table, "restrict-use"@)[j]
                == rt_seq[j]);
        }
        assert forall|j: int|
            0 <= j < crate::toml_data::spec_array_tables_entry(*table, "require-use"@).len()
            implies require_fields_ok(#[trigger] crate::toml_data::spec_array_tables_entry(
            *table,
            "require-use"@,
        )[j]) by {
            assert(crate::toml_data::spec_array_tables_entry(*table, "require-use"@)[j]
                == qt_seq[j]);
        }
        assert forall|j: int|
            0 <= j < crate::toml_data::spec_array_tables_entry(*table, "deny-scope-dep"@).len()
            implies dep_fields_ok(#[trigger] crate::toml_data::spec_array_tables_entry(
            *table,
            "deny-scope-dep"@,
        )[j]) by {
            assert(crate::toml_data::spec_array_tables_entry(*table, "deny-scope-dep"@)[j]
                == dt_seq[j]);
        }
    }
    Ok(DeclarativeConfigDto { scopes, restrict_use, require_use, deny_scope_dep })
}

/// Parses a document and creates all applicable declarative rules.
pub fn load_rules_from_toml(content: &str) -> (r: Result<
    Vec<crate::declarative::DeclarativeRule>,
    LoadRulesError,
>)
    ensures
        crate::toml_data::doc_of(content@) is None ==> r is Err,
        r is Ok <==> (crate::toml_data::doc_of(content@) matches Some(doc) && doc_fields_ok(doc)
            && doc_tables_valid(doc) && doc_refs_ok(doc)),
{
    let table = match crate::toml_data::parse_toml_table(content) {
        Ok(t) => t,
        Err(message) => {
            return Err(LoadRulesError::Toml(message));
        },
    };
    let dto = match dto_of_table(&table) {
        Ok(d) => d,
        Err(e) => {
            return Err(e);
        },
    };
    proof {
        lemma_dto_doc_agree(dto, table);
    }
    let config = match load(&dto) {
        Ok(c) => c,
        Err(e) => {
            return Err(LoadRulesError::Load(e));
        },
    };
    Ok(crate::declarative::create_rules(config))
}

/// Loads declarative rules from raw configuration content; empty
/// content yields no rules.
pub fn load_declarative_rules(content: &str) -> (r: Result<
    Vec<crate::declarative::DeclarativeRule>,
    LoadRulesError,
>)
    ensures
        content@.len() == 0 ==> (r matches Ok(v) && v@.len() == 0),
        content@.len() > 0 && crate::toml_data::doc_of(content@) is None ==> r is Err,
        content@.len() > 0 ==> (r is Ok <==> (crate::toml_data::doc_of(content@) matches Some(doc)
            && doc_fields_ok(doc) && doc_tables_valid(doc) && doc_refs_ok(doc))),
{
    if content.unicode_len() == 0 {
        let empty: Vec<crate::declarative::DeclarativeRule> = Vec::new();
        return Ok(empty);
    }
    load_rules_from_toml(content)
}

} // verus!
