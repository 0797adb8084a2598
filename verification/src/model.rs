//! Pure domain model for declarative architecture rules.
//!
//! All invariants are enforced at construction time via validated
//! newtypes, and all cross-references are checked when the aggregate
//! [`DeclarativeConfig`] is built.

use vstd::prelude::*;

verus! {

use crate::globpat::{spec_glob_hit, GlobPattern};
use crate::paths::spec_path_matches;
use crate::severity::Severity;
use crate::strutil::str_eq;

/// Errors in domain model construction.
#[derive(Debug, Clone)]
pub enum ModelError {
    /// Scope name is empty.
    EmptyScopeName,
    /// Scope name contains invalid characters.
    InvalidScopeName {
        /// The invalid name.
        name: String,
    },
    /// Glob pattern is empty.
    EmptyGlobPattern,
    /// Glob pattern has invalid syntax.
    InvalidGlobPattern {
        /// The invalid pattern.
        pattern: String,
        /// Why it is invalid.
        reason: String,
    },
    /// Use pattern is empty.
    EmptyUsePattern,
    /// A scope reference points to an undefined scope.
    UnknownScope {
        /// Where the reference was found.
        context: String,
        /// The undefined scope name.
        name: String,
    },
}

/// A character allowed in a scope name: lowercase ASCII, digit, or dash.
pub open spec fn is_scope_char(c: char) -> bool {
    ('a' <= c && c <= 'z') || ('0' <= c && c <= '9') || c == '-'
}

/// A valid scope name: non-empty, only scope characters.
pub open spec fn scope_name_ok(name: Seq<char>) -> bool {
    name.len() > 0 && forall|i: int| 0 <= i < name.len() ==> is_scope_char(#[trigger] name[i])
}

/// A validated scope name: non-empty, `[a-z0-9-]` only.
#[derive(Debug)]
pub struct ScopeName {
    name: String,
}

impl Clone for ScopeName {
    /// A clone carries the same name.
    fn clone(&self) -> (r: Self)
        ensures
            r@ == self@,
    {
        ScopeName { name: self.name.clone() }
    }
}

impl View for ScopeName {
    type V = Seq<char>;

    closed spec fn view(&self) -> Seq<char> {
        self.name@
    }
}

impl ScopeName {
    /// Creates a new scope name; empty names and names with characters
    /// outside `[a-z0-9-]` are rejected.
    pub fn new(name: &str) -> (r: Result<ScopeName, ModelError>)
        ensures
            r is Ok <==> scope_name_ok(name@),
            r matches Ok(s) ==> s@ == name@,
            name@.len() == 0 ==> r matches Err(ModelError::EmptyScopeName),
            name@.len() > 0 && !scope_name_ok(name@) ==> (r matches Err(
                ModelError::InvalidScopeName { name: n },
            ) && n@ == name@),
    {
        let len = name.unicode_len();
        if len == 0 {
            return Err(ModelError::EmptyScopeName);
        }
        let mut i: usize = 0;
        while i < len
            invariant
                0 <= i <= len,
                len == name@.len(),
                forall|j: int| 0 <= j < i ==> is_scope_char(#[trigger] name@[j]),
            decreases len - i,
        {
            let c = name.get_char(i);
            let ok = ('a' <= c && c <= 'z') || ('0' <= c && c <= '9') || c == '-';
            if !ok {
                assert(!is_scope_char(name@[i as int]));
                return Err(ModelError::InvalidScopeName { name: name.to_owned() });
            }
            i = i + 1;
        }
        Ok(ScopeName { name: name.to_owned() })
    }

    /// Returns the name as a string slice.
    pub fn as_str(&self) -> (r: &str)
        ensures
            r@ == self@,
    {
        self.name.as_str()
    }

    /// Whether two scope names are the same name.
    pub fn same(&self, other: &ScopeName) -> (r: bool)
        ensures
            r == (self@ == other@),
    {
        str_eq(self.name.as_str(), other.name.as_str())
    }
}

/// A validated use-path pattern: `::`-separated segments with `*` (one
/// segment) and `**` (any segments).
#[derive(Debug, Clone)]
pub struct UsePattern {
    pattern: String,
}

impl View for UsePattern {
    type V = Seq<char>;

    closed spec fn view(&self) -> Seq<char> {
        self.pattern@
    }
}

impl UsePattern {
    /// Creates a new use-path pattern; empty patterns are rejected.
    pub fn new(pattern: &str) -> (r: Result<UsePattern, ModelError>)
        ensures
            r is Ok <==> pattern@.len() > 0,
            r matches Ok(p) ==> p@ == pattern@,
            pattern@.len() == 0 ==> r matches Err(ModelError::EmptyUsePattern),
    {
        if pattern.unicode_len() == 0 {
            return Err(ModelError::EmptyUsePattern);
        }
        Ok(UsePattern { pattern: pattern.to_owned() })
    }

    /// Tests whether a use path matches this pattern, segment-wise with
    /// `*` and `**` wildcards.
    pub fn matches(&self, use_path: &str) -> (r: bool)
        ensures
            r == spec_path_matches(use_path@, self@),
    {
        crate::paths::path_matches(use_path, self.pattern.as_str())
    }

    /// Returns the pattern as a string slice.
    pub fn as_str(&self) -> (r: &str)
        ensures
            r@ == self@,
    {
        self.pattern.as_str()
    }
}

/// A named file scope: a set of files matched by glob patterns.
#[derive(Debug, Clone)]
pub struct Scope {
    name: ScopeName,
    patterns: Vec<GlobPattern>,
}

/// Some pattern in the list covers the path.
pub open spec fn any_glob_hit(patterns: Seq<GlobPattern>, path: Seq<char>) -> bool {
    exists|i: int| 0 <= i < patterns.len() && spec_glob_hit((#[trigger] patterns[i])@, path)
}

/// Whether some pattern of a list covers the path.
pub fn globs_match(patterns: &Vec<GlobPattern>, path: &str) -> (r: bool)
    ensures
        r == any_glob_hit(patterns@, path@),
{
    let n = patterns.len();
    let mut i: usize = 0;
    while i < n
        invariant
            0 <= i <= n,
            n == patterns@.len(),
            forall|j: int| 0 <= j < i ==> !spec_glob_hit((#[trigger] patterns@[j])@, path@),
        decreases n - i,
    {
        if patterns[i].matches(path) {
            return true;
        }
        i = i + 1;
    }
    false
}

impl Scope {
    /// Creates a new scope.
    pub fn new(name: ScopeName, patterns: Vec<GlobPattern>) -> (r: Scope)
        ensures
            r.spec_name() == name@,
            r.spec_patterns() == patterns@,
    {
        Scope { name, patterns }
    }

    /// The scope's name, as a character sequence.
    pub closed spec fn spec_name(&self) -> Seq<char> {
        self.name@
    }

    /// The scope's glob patterns.
    pub closed spec fn spec_patterns(&self) -> Seq<GlobPattern> {
        self.patterns@
    }

    /// Returns the scope name.
    pub fn name(&self) -> (r: &ScopeName)
        ensures
            r@ == self.spec_name(),
    {
        &self.name
    }

    /// Returns the glob patterns.
    pub fn patterns(&self) -> (r: &Vec<GlobPattern>)
        ensures
            r@ == self.spec_patterns(),
    {
        &self.patterns
    }

    /// Tests whether a relative file path belongs to this scope.
    pub fn contains(&self, path: &str) -> (r: bool)
        ensures
            r == any_glob_hit(self.spec_patterns(), path@),
    {
        globs_match(&self.patterns, path)
    }
}

/// Reference to a scope: either by name or by inline patterns.
#[derive(Debug, Clone)]
pub enum ScopeRef {
    /// Reference to a named scope defined elsewhere.
    Named(ScopeName),
    /// Inline file patterns, needing no named scope.
    Inline(Vec<GlobPattern>),
}

impl ScopeRef {
    /// Tests whether a file path matches this reference using only the
    /// inline patterns; a named reference must be resolved through the
    /// aggregate and matches nothing here.
    pub fn matches_inline(&self, path: &str) -> (r: bool)
        ensures
            r == match self {
                ScopeRef::Named(_) => false,
                ScopeRef::Inline(patterns) => any_glob_hit(patterns@, path@),
            },
    {
        match self {
            ScopeRef::Named(_) => false,
            ScopeRef::Inline(patterns) => globs_match(patterns, path),
        }
    }
}

/// A use-restriction rule: deny certain imports within a scope.
#[derive(Debug, Clone)]
pub struct RestrictUse {
    name: String,
    scope: ScopeRef,
    deny: Vec<UsePattern>,
    message: String,
    doc_ref: Option<String>,
    severity: Severity,
}

/// Some deny pattern matches the use path.
pub open spec fn any_deny_hit(deny: Seq<UsePattern>, use_path: Seq<char>) -> bool {
    exists|i: int| 0 <= i < deny.len() && spec_path_matches(use_path, (#[trigger] deny[i])@)
}

impl RestrictUse {
    /// Creates a new restrict-use rule.
    pub fn new(
        name: String,
        scope: ScopeRef,
        deny: Vec<UsePattern>,
        message: String,
        doc_ref: Option<String>,
        severity: Severity,
    ) -> (r: RestrictUse)
        ensures
            r.spec_name() == name@,
            r.spec_scope() == scope,
            r.spec_deny() == deny@,
            r.spec_message() == message@,
            r.spec_doc_ref() == doc_ref,
            r.spec_severity() == severity,
    {
        RestrictUse { name, scope, deny, message, doc_ref, severity }
    }

    /// The rule's name.
    pub closed spec fn spec_name(&self) -> Seq<char> {
        self.name@
    }

    /// The rule's scope reference.
    pub closed spec fn spec_scope(&self) -> ScopeRef {
        self.scope
    }

    /// The rule's deny patterns.
    pub closed spec fn spec_deny(&self) -> Seq<UsePattern> {
        self.deny@
    }

    /// The rule's message.
    pub closed spec fn spec_message(&self) -> Seq<char> {
        self.message@
    }

    /// The rule's document reference.
    pub closed spec fn spec_doc_ref(&self) -> Option<String> {
        self.doc_ref
    }

    /// The rule's severity.
    pub closed spec fn spec_severity(&self) -> Severity {
        self.severity
    }

    /// Returns the rule name.
    pub fn name(&self) -> (r: &str)
        ensures
            r@ == self.spec_name(),
    {
        self.name.as_str()
    }

    /// Returns the scope reference.
    pub fn scope(&self) -> (r: &ScopeRef)
        ensures
            *r == self.spec_scope(),
    {
        &self.scope
    }

    /// Returns the denied use patterns.
    pub fn deny(&self) -> (r: &Vec<UsePattern>)
        ensures
            r@ == self.spec_deny(),
    {
        &self.deny
    }

    /// Returns the violation message.
    pub fn message(&self) -> (r: &str)
        ensures
            r@ == self.spec_message(),
    {
        self.message.as_str()
    }

    /// Returns the document reference.
    pub fn doc_ref(&self) -> (r: Option<&str>)
        ensures
            match r {
                Some(d) => self.spec_doc_ref() is Some && d@ == self.spec_doc_ref()->0@,
                None => self.spec_doc_ref() is None,
            },
    {
        match &self.doc_ref {
            Some(d) => Some(d.as_str()),
            None => None,
        }
    }

    /// Returns the severity.
    pub fn severity(&self) -> (r: Severity)
        ensures
            r == self.spec_severity(),
    {
        self.severity
    }

    /// Tests whether a use path is denied by this rule.
    pub fn is_denied(&self, use_path: &str) -> (r: bool)
        ensures
            r == any_deny_hit(self.spec_deny(), use_path@),
    {
        let n = self.deny.len();
        let mut i: usize = 0;
        while i < n
            invariant
                0 <= i <= n,
                n == self.spec_deny().len(),
                forall|j: int|
                    0 <= j < i ==> !spec_path_matches(
                        use_path@,
                        (#[trigger] self.spec_deny()[j])@,
                    ),
            decreases n - i,
        {
            if self.deny[i].matches(use_path) {
                return true;
            }
            i = i + 1;
        }
        false
    }
}

/// A use-requirement rule: prefer one crate over alternatives.
#[derive(Debug, Clone)]
pub struct RequireUse {
    name: String,
    scope: ScopeRef,
    prefer: String,
    over: Vec<String>,
    message: String,
    doc_ref: Option<String>,
    severity: Severity,
}

impl RequireUse {
    /// Creates a new require-use rule.
    pub fn new(
        name: String,
        scope: ScopeRef,
        prefer: String,
        over: Vec<String>,
        message: String,
        doc_ref: Option<String>,
        severity: Severity,
    ) -> (r: RequireUse)
        ensures
            r.spec_name() == name@,
            r.spec_scope() == scope,
            r.spec_prefer() == prefer@,
            r.spec_over() == over@,
            r.spec_message() == message@,
            r.spec_doc_ref() == doc_ref,
            r.spec_severity() == severity,
    {
        RequireUse { name, scope, prefer, over, message, doc_ref, severity }
    }

    /// The rule's name.
    pub closed spec fn spec_name(&self) -> Seq<char> {
        self.name@
    }

    /// The rule's scope reference.
    pub closed spec fn spec_scope(&self) -> ScopeRef {
        self.scope
    }

    /// The preferred crate name.
    pub closed spec fn spec_prefer(&self) -> Seq<char> {
        self.prefer@
    }

    /// The discouraged crate names.
    pub closed spec fn spec_over(&self) -> Seq<String> {
        self.over@
    }

    /// The rule's message.
    pub closed spec fn spec_message(&self) -> Seq<char> {
        self.message@
    }

    /// The rule's document reference.
    pub closed spec fn spec_doc_ref(&self) -> Option<String> {
        self.doc_ref
    }

    /// The rule's severity.
    pub closed spec fn spec_severity(&self) -> Severity {
        self.severity
    }

    /// Returns the rule name.
    pub fn name(&self) -> (r: &str)
        ensures
            r@ == self.spec_name(),
    {
        self.name.as_str()
    }

    /// Returns the scope reference.
    pub fn scope(&self) -> (r: &ScopeRef)
        ensures
            *r == self.spec_scope(),
    {
        &self.scope
    }

    /// Returns the preferred crate name.
    pub fn prefer(&self) -> (r: &str)
        ensures
            r@ == self.spec_prefer(),
    {
        self.prefer.as_str()
    }

    /// Returns the discouraged crate names.
    pub fn over(&self) -> (r: &Vec<String>)
        ensures
            r@ == self.spec_over(),
    {
        &self.over
    }

    /// Returns the violation message.
    pub fn message(&self) -> (r: &str)
        ensures
            r@ == self.spec_message(),
    {
        self.message.as_str()
    }

    /// Returns the document reference.
    pub fn doc_ref(&self) -> (r: Option<&str>)
        ensures
            match r {
                Some(d) => self.spec_doc_ref() is Some && d@ == self.spec_doc_ref()->0@,
                None => self.spec_doc_ref() is None,
            },
    {
        match &self.doc_ref {
            Some(d) => Some(d.as_str()),
            None => None,
        }
    }

    /// Returns the severity.
    pub fn severity(&self) -> (r: Severity)
        ensures
            r == self.spec_severity(),
    {
        self.severity
    }
}

/// A scope dependency constraint: deny imports from one scope to others.
#[derive(Debug, Clone)]
pub struct ScopeDep {
    from: ScopeName,
    to: Vec<ScopeName>,
    message: String,
    doc_ref: Option<String>,
    severity: Severity,
}

/// The views of a list of scope names.
pub open spec fn scope_name_views(names: Seq<ScopeName>) -> Seq<Seq<char>> {
    names.map_values(|n: ScopeName| n@)
}

impl ScopeDep {
    /// Creates a new scope dependency rule.
    pub fn new(
        from: ScopeName,
        to: Vec<ScopeName>,
        message: String,
        doc_ref: Option<String>,
        severity: Severity,
    ) -> (r: ScopeDep)
        ensures
            r.spec_from() == from@,
            r.spec_to() == to@,
            r.spec_message() == message@,
            r.spec_doc_ref() == doc_ref,
            r.spec_severity() == severity,
    {
        ScopeDep { from, to, message, doc_ref, severity }
    }

    /// The source scope's name.
    pub closed spec fn spec_from(&self) -> Seq<char> {
        self.from@
    }

    /// The denied target scopes.
    pub closed spec fn spec_to(&self) -> Seq<ScopeName> {
        self.to@
    }

    /// The rule's message.
    pub closed spec fn spec_message(&self) -> Seq<char> {
        self.message@
    }

    /// The rule's document reference.
    pub closed spec fn spec_doc_ref(&self) -> Option<String> {
        self.doc_ref
    }

    /// The rule's severity.
    pub closed spec fn spec_severity(&self) -> Severity {
        self.severity
    }

    /// Returns the source scope.
    pub fn from_scope(&self) -> (r: &ScopeName)
        ensures
            r@ == self.spec_from(),
    {
        &self.from
    }

    /// Returns the denied target scopes.
    pub fn denied_targets(&self) -> (r: &Vec<ScopeName>)
        ensures
            r@ == self.spec_to(),
    {
        &self.to
    }

    /// Returns the violation message.
    pub fn message(&self) -> (r: &str)
        ensures
            r@ == self.spec_message(),
    {
        self.message.as_str()
    }

    /// Returns the document reference.
    pub fn doc_ref(&self) -> (r: Option<&str>)
        ensures
            match r {
                Some(d) => self.spec_doc_ref() is Some && d@ == self.spec_doc_ref()->0@,
                None => self.spec_doc_ref() is None,
            },
    {
        match &self.doc_ref {
            Some(d) => Some(d.as_str()),
            None => None,
        }
    }

    /// Returns the severity.
    pub fn severity(&self) -> (r: Severity)
        ensures
            r == self.spec_severity(),
    {
        self.severity
    }

    /// Checks if a target scope is denied.
    pub fn is_denied(&self, target: &ScopeName) -> (r: bool)
        ensures
            r == crate::arch_config::names_contain(scope_name_views(self.spec_to()), target@),
    {
        let n = self.to.len();
        let mut i: usize = 0;
        while i < n
            invariant
                0 <= i <= n,
                n == self.spec_to().len(),
                forall|j: int| 0 <= j < i ==> scope_name_views(self.spec_to())[j] != target@,
            decreases n - i,
        {
            if self.to[i].same(target) {
                assert(scope_name_views(self.spec_to())[i as int] == target@);
                return true;
            }
            i = i + 1;
        }
        false
    }
}

/// Validated declarative configuration: the aggregate root through
/// which all scope queries go. All cross-references are verified at
/// construction.
#[derive(Debug, Clone)]
pub struct DeclarativeConfig {
    scopes: Vec<Scope>,
    restrict_uses: Vec<RestrictUse>,
    require_uses: Vec<RequireUse>,
    scope_deps: Vec<ScopeDep>,
}

/// The names of a list of scopes.
pub open spec fn scope_names_of(scopes: Seq<Scope>) -> Seq<Seq<char>> {
    scopes.map_values(|s: Scope| s.spec_name())
}

/// A scope reference resolves: inline always, named when defined.
pub open spec fn scope_ref_resolves(scopes: Seq<Scope>, r: ScopeRef) -> bool {
    match r {
        ScopeRef::Named(n) => crate::arch_config::names_contain(scope_names_of(scopes), n@),
        ScopeRef::Inline(_) => true,
    }
}

/// Every cross-reference of the rule lists resolves against the scopes.
pub open spec fn config_refs_ok(
    scopes: Seq<Scope>,
    restrict_uses: Seq<RestrictUse>,
    require_uses: Seq<RequireUse>,
    scope_deps: Seq<ScopeDep>,
) -> bool {
    &&& forall|i: int|
        0 <= i < restrict_uses.len() ==> scope_ref_resolves(
            scopes,
            (#[trigger] restrict_uses[i]).spec_scope(),
        )
    &&& forall|i: int|
        0 <= i < require_uses.len() ==> scope_ref_resolves(
            scopes,
            (#[trigger] require_uses[i]).spec_scope(),
        )
    &&& forall|i: int|
        0 <= i < scope_deps.len() ==> crate::arch_config::names_contain(
            scope_names_of(scopes),
            (#[trigger] scope_deps[i]).spec_from(),
        ) && forall|k: int|
            0 <= k < scope_deps[i].spec_to().len() ==> crate::arch_config::names_contain(
                scope_names_of(scopes),
                (#[trigger] scope_deps[i].spec_to()[k])@,
            )
}

/// The name an unresolved-scope error reports; empty for other kinds.
pub open spec fn unknown_scope_name(e: ModelError) -> Seq<char> {
    match e {
        ModelError::UnknownScope { name, .. } => name@,
        _ => Seq::empty(),
    }
}

/// The unresolved name a scope reference contributes: its name when a
/// named reference does not resolve, nothing otherwise.
pub open spec fn ref_miss(scopes: Seq<Scope>, r: ScopeRef) -> Seq<Seq<char>> {
    match r {
        ScopeRef::Named(n) => if !crate::arch_config::names_contain(scope_names_of(scopes), n@) {
            seq![n@]
        } else {
            Seq::empty()
        },
        ScopeRef::Inline(_) => Seq::empty(),
    }
}

/// The unresolved names a dependency rule contributes: its source
/// scope when undefined, then each undefined target, in order.
pub open spec fn dep_misses(scopes: Seq<Scope>, d: ScopeDep) -> Seq<Seq<char>> {
    let from_part: Seq<Seq<char>> = if !crate::arch_config::names_contain(
        scope_names_of(scopes),
        d.spec_from(),
    ) {
        seq![d.spec_from()]
    } else {
        Seq::empty()
    };
    from_part + crate::sequtil::concat_map(
        d.spec_to(),
        |t: ScopeName|
            if !crate::arch_config::names_contain(scope_names_of(scopes), t@) {
                seq![t@]
            } else {
                Seq::<Seq<char>>::empty()
            },
    )
}

/// Every unresolved reference's name, in checking order: the
/// restrict-use references, then the require-use references, then each
/// dependency rule's source and targets.
pub open spec fn unresolved_names(
    scopes: Seq<Scope>,
    restrict_uses: Seq<RestrictUse>,
    require_uses: Seq<RequireUse>,
    scope_deps: Seq<ScopeDep>,
) -> Seq<Seq<char>> {
    crate::sequtil::concat_map(restrict_uses, |r: RestrictUse| ref_miss(scopes, r.spec_scope()))
        + crate::sequtil::concat_map(
        require_uses,
        |r: RequireUse| ref_miss(scopes, r.spec_scope()),
    ) + crate::sequtil::concat_map(scope_deps, |d: ScopeDep| dep_misses(scopes, d))
}

/// Whether a scope list defines a given name.
fn scopes_define(scopes: &Vec<Scope>, name: &ScopeName) -> (r: bool)
    ensures
        r == crate::arch_config::names_contain(scope_names_of(scopes@), name@),
{
    let n = scopes.len();
    let mut i: usize = 0;
    while i < n
        invariant
            0 <= i <= n,
            n == scopes@.len(),
            forall|j: int| 0 <= j < i ==> scope_names_of(scopes@)[j] != name@,
        decreases n - i,
    {
        if scopes[i].name().same(name) {
            assert(scope_names_of(scopes@)[i as int] == name@);
            return true;
        }
        i = i + 1;
    }
    false
}

impl DeclarativeConfig {
    /// The defined scopes.
    pub closed spec fn spec_scopes(&self) -> Seq<Scope> {
        self.scopes@
    }

    /// The restrict-use rules.
    pub closed spec fn spec_restrict_uses(&self) -> Seq<RestrictUse> {
        self.restrict_uses@
    }

    /// The require-use rules.
    pub closed spec fn spec_require_uses(&self) -> Seq<RequireUse> {
        self.require_uses@
    }

    /// The scope dependency rules.
    pub closed spec fn spec_scope_deps(&self) -> Seq<ScopeDep> {
        self.scope_deps@
    }

    /// Creates a new declarative config, checking every cross-reference
    /// and collecting one error per unresolved scope reference.
    pub fn new(
        scopes: Vec<Scope>,
        restrict_uses: Vec<RestrictUse>,
        require_uses: Vec<RequireUse>,
        scope_deps: Vec<ScopeDep>,
    ) -> (r: Result<DeclarativeConfig, Vec<ModelError>>)
        ensures
            r is Ok <==> config_refs_ok(scopes@, restrict_uses@, require_uses@, scope_deps@),
            r matches Ok(c) ==> {
                &&& c.spec_scopes() == scopes@
                &&& c.spec_restrict_uses() == restrict_uses@
                &&& c.spec_require_uses() == require_uses@
                &&& c.spec_scope_deps() == scope_deps@
            },
            r matches Err(es) ==> {
                &&& es@.len() > 0
                &&& es@.len() == unresolved_names(
                    scopes@,
                    restrict_uses@,
                    require_uses@,
                    scope_deps@,
                ).len()
                &&& forall|k: int|
                    0 <= k < es@.len() ==> ((#[trigger] es@[k]) is UnknownScope
                        && unknown_scope_name(es@[k]) == unresolved_names(
                        scopes@,
                        restrict_uses@,
                        require_uses@,
                        scope_deps@,
                    )[k])
            },
    {
        let mut errors: Vec<ModelError> = Vec::new();
        let mut all_ok = true;
        let ghost en = |e: ModelError| unknown_scope_name(e);
        let ghost f1 = |r: RestrictUse| ref_miss(scopes@, r.spec_scope());
        let ghost f2 = |r: RequireUse| ref_miss(scopes@, r.spec_scope());
        let ghost f3 = |d: ScopeDep| dep_misses(scopes@, d);
        proof {
            assert(errors@.map_values(en) =~= crate::sequtil::concat_map(
                restrict_uses@.subrange(0, 0),
                f1,
            ));
        }

        let nr = restrict_uses.len();
        let mut i: usize = 0;
        while i < nr
            invariant
                0 <= i <= nr,
                nr == restrict_uses@.len(),
                errors@.len() == 0 <==> all_ok,
                en == |e: ModelError| unknown_scope_name(e),
                f1 == |r: RestrictUse| ref_miss(scopes@, r.spec_scope()),
                forall|k: int| 0 <= k < errors@.len() ==> (#[trigger] errors@[k]) is UnknownScope,
                errors@.map_values(en) == crate::sequtil::concat_map(
                    restrict_uses@.subrange(0, i as int),
                    f1,
                ),
                all_ok <==> forall|j: int|
                    0 <= j < i ==> scope_ref_resolves(
                        scopes@,
                        (#[trigger] restrict_uses@[j]).spec_scope(),
                    ),
            decreases nr - i,
        {
            let rule = &restrict_uses[i];
            proof {
                crate::sequtil::lemma_concat_map_push(
                    restrict_uses@.subrange(0, i as int),
                    restrict_uses@[i as int],
                    f1,
                );
                assert(restrict_uses@.subrange(0, i + 1) =~= restrict_uses@.subrange(
                    0,
                    i as int,
                ).push(restrict_uses@[i as int]));
            }
            let ghost errs_before = errors@;
            match rule.scope() {
                ScopeRef::Named(name) => {
                    if !scopes_define(&scopes, name) {
                        let mut ctx = String::new();
                        ctx.append("restrict-use '");
                        ctx.append(rule.name());
                        ctx.append("'");
                        errors.push(
                            ModelError::UnknownScope {
                                context: ctx,
                                name: name.as_str().to_owned(),
                            },
                        );
                        all_ok = false;
                        proof {
                            assert(!scope_ref_resolves(
                                scopes@,
                                restrict_uses@[i as int].spec_scope(),
                            ));
                            assert(f1(restrict_uses@[i as int]) =~= seq![name@]);
                            assert(errors@.map_values(en) =~= errs_before.map_values(en).push(
                                name@,
                            ));
                        }
                    } else {
                        proof {
                            assert(scope_ref_resolves(
                                scopes@,
                                restrict_uses@[i as int].spec_scope(),
                            ));
                            assert(f1(restrict_uses@[i as int]) =~= Seq::<Seq<char>>::empty());
                        }
                    }
                },
                ScopeRef::Inline(_) => {
                    proof {
                        assert(scope_ref_resolves(
                            scopes@,
                            restrict_uses@[i as int].spec_scope(),
                        ));
                        assert(f1(restrict_uses@[i as int]) =~= Seq::<Seq<char>>::empty());
                    }
                },
            }
            i = i + 1;
        }

        let ghost full1 = crate::sequtil::concat_map(restrict_uses@, f1);
        proof {
            assert(restrict_uses@.subrange(0, nr as int) =~= restrict_uses@);
            assert(errors@.map_values(en) + crate::sequtil::concat_map(
                require_uses@.subrange(0, 0),
                f2,
            ) =~= errors@.map_values(en));
        }
        let ghost restrict_ok = forall|j: int|
            0 <= j < restrict_uses@.len() ==> scope_ref_resolves(
                scopes@,
                (#[trigger] restrict_uses@[j]).spec_scope(),
            );
        let nq = require_uses.len();
        let mut i2: usize = 0;
        while i2 < nq
            invariant
                0 <= i2 <= nq,
                nq == require_uses@.len(),
                errors@.len() == 0 <==> all_ok,
                en == |e: ModelError| unknown_scope_name(e),
                f2 == |r: RequireUse| ref_miss(scopes@, r.spec_scope()),
                full1 == crate::sequtil::concat_map(restrict_uses@, f1),
                f1 == |r: RestrictUse| ref_miss(scopes@, r.spec_scope()),
                forall|k: int| 0 <= k < errors@.len() ==> (#[trigger] errors@[k]) is UnknownScope,
                errors@.map_values(en) == full1 + crate::sequtil::concat_map(
                    require_uses@.subrange(0, i2 as int),
                    f2,
                ),
                restrict_ok == forall|j: int|
                    0 <= j < restrict_uses@.len() ==> scope_ref_resolves(
                        scopes@,
                        (#[trigger] restrict_uses@[j]).spec_scope(),
                    ),
                all_ok <==> restrict_ok && forall|j: int|
                    0 <= j < i2 ==> scope_ref_resolves(
                        scopes@,
                        (#[trigger] require_uses@[j]).spec_scope(),
                    ),
            decreases nq - i2,
        {
            let rule = &require_uses[i2];
            proof {
                crate::sequtil::lemma_concat_map_push(
                    require_uses@.subrange(0, i2 as int),
                    require_uses@[i2 as int],
                    f2,
                );
                assert(require_uses@.subrange(0, i2 + 1) =~= require_uses@.subrange(
                    0,
                    i2 as int,
                ).push(require_uses@[i2 as int]));
            }
            let ghost errs_before = errors@;
            match rule.scope() {
                ScopeRef::Named(name) => {
                    if !scopes_define(&scopes, name) {
                        let mut ctx = String::new();
                        ctx.append("require-use '");
                        ctx.append(rule.name());
                        ctx.append("'");
                        errors.push(
                            ModelError::UnknownScope {
                                context: ctx,
                                name: name.as_str().to_owned(),
                            },
                        );
                        all_ok = false;
                        proof {
                            assert(!scope_ref_resolves(
                                scopes@,
                                require_uses@[i2 as int].spec_scope(),
                            ));
                            assert(f2(require_uses@[i2 as int]) =~= seq![name@]);
                            assert(errors@.map_values(en) =~= errs_before.map_values(en).push(
                                name@,
                            ));
                        }
                    } else {
                        proof {
                            assert(scope_ref_resolves(
                                scopes@,
                                require_uses@[i2 as int].spec_scope(),
                            ));
                            assert(f2(require_uses@[i2 as int]) =~= Seq::<Seq<char>>::empty());
                        }
                    }
                },
                ScopeRef::Inline(_) => {
                    proof {
                        assert(scope_ref_resolves(
                            scopes@,
                            require_uses@[i2 as int].spec_scope(),
                        ));
                        assert(f2(require_uses@[i2 as int]) =~= Seq::<Seq<char>>::empty());
                    }
                },
            }
            i2 = i2 + 1;
        }

        let ghost full12 = full1 + crate::sequtil::concat_map(require_uses@, f2);
        proof {
            assert(require_uses@.subrange(0, nq as int) =~= require_uses@);
            assert(errors@.map_values(en) + crate::sequtil::concat_map(
                scope_deps@.subrange(0, 0),
                f3,
            ) =~= errors@.map_values(en));
        }
        let ghost require_ok = forall|j: int|
            0 <= j < require_uses@.len() ==> scope_ref_resolves(
                scopes@,
                (#[trigger] require_uses@[j]).spec_scope(),
            );
        let nd = scope_deps.len();
        let mut i3: usize = 0;
        while i3 < nd
            invariant
                0 <= i3 <= nd,
                nd == scope_deps@.len(),
                errors@.len() == 0 <==> all_ok,
                en == |e: ModelError| unknown_scope_name(e),
                f3 == |d: ScopeDep| dep_misses(scopes@, d),
                full12 == full1 + crate::sequtil::concat_map(require_uses@, f2),
                f1 == |r: RestrictUse| ref_miss(scopes@, r.spec_scope()),
                f2 == |r: RequireUse| ref_miss(scopes@, r.spec_scope()),
                full1 == crate::sequtil::concat_map(restrict_uses@, f1),
                forall|k: int| 0 <= k < errors@.len() ==> (#[trigger] errors@[k]) is UnknownScope,
                errors@.map_values(en) == full12 + crate::sequtil::concat_map(
                    scope_deps@.subrange(0, i3 as int),
                    f3,
                ),
                restrict_ok == forall|j: int|
                    0 <= j < restrict_uses@.len() ==> scope_ref_resolves(
                        scopes@,
                        (#[trigger] restrict_uses@[j]).spec_scope(),
                    ),
                require_ok == forall|j: int|
                    0 <= j < require_uses@.len() ==> scope_ref_resolves(
                        scopes@,
                        (#[trigger] require_uses@[j]).spec_scope(),
                    ),
                all_ok <==> restrict_ok && require_ok && forall|j: int|
                    0 <= j < i3 ==> crate::arch_config::names_contain(
                        scope_names_of(scopes@),
                        (#[trigger] scope_deps@[j]).spec_from(),
                    ) && forall|k: int|
                        0 <= k < scope_deps@[j].spec_to().len()
                            ==> crate::arch_config::names_contain(
                            scope_names_of(scopes@),
                            (#[trigger] scope_deps@[j].spec_to()[k])@,
                        ),
            decreases nd - i3,
        {
            let dep = &scope_deps[i3];
            let ghost entry_ok = all_ok;
            let ghost base_names = errors@.map_values(en);
            proof {
                crate::sequtil::lemma_concat_map_push(
                    scope_deps@.subrange(0, i3 as int),
                    scope_deps@[i3 as int],
                    f3,
                );
                assert(scope_deps@.subrange(0, i3 + 1) =~= scope_deps@.subrange(0, i3 as int).push(
                    scope_deps@[i3 as int],
                ));
            }
            let from_found = scopes_define(&scopes, dep.from_scope());
            if !from_found {
                let mut ctx = String::new();
                ctx.append("deny-scope-dep.from");
                errors.push(
                    ModelError::UnknownScope {
                        context: ctx,
                        name: dep.from_scope().as_str().to_owned(),
                    },
                );
                all_ok = false;
            }
            let ghost from_ok = crate::arch_config::names_contain(
                scope_names_of(scopes@),
                scope_deps@[i3 as int].spec_from(),
            );
            let ghost from_part: Seq<Seq<char>> = if from_ok {
                Seq::empty()
            } else {
                seq![scope_deps@[i3 as int].spec_from()]
            };
            let ghost tmiss = |t: ScopeName|
                if !crate::arch_config::names_contain(scope_names_of(scopes@), t@) {
                    seq![t@]
                } else {
                    Seq::<Seq<char>>::empty()
                };
            proof {
                assert(errors@.map_values(en) =~= base_names + from_part);
                assert(errors@.map_values(en) =~= base_names + from_part
                    + crate::sequtil::concat_map(
                    scope_deps@[i3 as int].spec_to().subrange(0, 0),
                    tmiss,
                ));
            }
            let targets = dep.denied_targets();
            let nt = targets.len();
            let ghost to_seq = scope_deps@[i3 as int].spec_to();
            let mut k: usize = 0;
            while k < nt
                invariant
                    0 <= k <= nt,
                    0 <= i3 < scope_deps@.len(),
                    nt == to_seq.len(),
                    to_seq == scope_deps@[i3 as int].spec_to(),
                    targets@ == to_seq,
                    errors@.len() == 0 <==> all_ok,
                    en == |e: ModelError| unknown_scope_name(e),
                    tmiss == |t: ScopeName|
                        if !crate::arch_config::names_contain(scope_names_of(scopes@), t@) {
                            seq![t@]
                        } else {
                            Seq::<Seq<char>>::empty()
                        },
                    forall|q: int|
                        0 <= q < errors@.len() ==> (#[trigger] errors@[q]) is UnknownScope,
                    errors@.map_values(en) == base_names + from_part
                        + crate::sequtil::concat_map(to_seq.subrange(0, k as int), tmiss),
                    from_ok == crate::arch_config::names_contain(
                        scope_names_of(scopes@),
                        scope_deps@[i3 as int].spec_from(),
                    ),
                    all_ok <==> entry_ok && from_ok && forall|q: int|
                        0 <= q < k ==> crate::arch_config::names_contain(
                            scope_names_of(scopes@),
                            (#[trigger] to_seq[q])@,
                        ),
                decreases nt - k,
            {
                let target = &targets[k];
                proof {
                    crate::sequtil::lemma_concat_map_push(
                        to_seq.subrange(0, k as int),
                        to_seq[k as int],
                        tmiss,
                    );
                    assert(to_seq.subrange(0, k + 1) =~= to_seq.subrange(0, k as int).push(
                        to_seq[k as int],
                    ));
                }
                let ghost errs_before = errors@;
                if !scopes_define(&scopes, target) {
                    let mut ctx = String::new();
                    ctx.append("deny-scope-dep.to (from '");
                    ctx.append(dep.from_scope().as_str());
                    ctx.append("')");
                    errors.push(
                        ModelError::UnknownScope {
                            context: ctx,
                            name: target.as_str().to_owned(),
                        },
                    );
                    all_ok = false;
                    proof {
                        assert(to_seq[k as int]@ == target@);
                        assert(tmiss(to_seq[k as int]) =~= seq![target@]);
                        assert(errors@.map_values(en) =~= errs_before.map_values(en).push(
                            target@,
                        ));
                    }
                } else {
                    proof {
                        assert(to_seq[k as int]@ == target@);
                        assert(tmiss(to_seq[k as int]) =~= Seq::<Seq<char>>::empty());
                    }
                }
                k = k + 1;
            }
            proof {
                assert(all_ok <==> entry_ok && from_ok && forall|q: int|
                    0 <= q < scope_deps@[i3 as int].spec_to().len()
                        ==> crate::arch_config::names_contain(
                        scope_names_of(scopes@),
                        (#[trigger] scope_deps@[i3 as int].spec_to()[q])@,
                    ));
                assert(to_seq.subrange(0, nt as int) =~= to_seq);
                assert(f3(scope_deps@[i3 as int]) == from_part + crate::sequtil::concat_map(
                    to_seq,
                    tmiss,
                ));
                assert(errors@.map_values(en) =~= full12 + crate::sequtil::concat_map(
                    scope_deps@.subrange(0, i3 + 1),
                    f3,
                ));
            }
            i3 = i3 + 1;
        }

        proof {
            assert(scope_deps@.subrange(0, nd as int) =~= scope_deps@);
            assert(errors@.map_values(en) == unresolved_names(
                scopes@,
                restrict_uses@,
                require_uses@,
                scope_deps@,
            ));
        }
        if errors.len() == 0 {
            Ok(DeclarativeConfig { scopes, restrict_uses, require_uses, scope_deps })
        } else {
            Err(errors)
        }
    }

    /// Creates an empty declarative config with no rules.
    pub fn empty() -> (r: DeclarativeConfig)
        ensures
            r.spec_scopes().len() == 0,
            r.spec_restrict_uses().len() == 0,
            r.spec_require_uses().len() == 0,
            r.spec_scope_deps().len() == 0,
    {
        DeclarativeConfig {
            scopes: Vec::new(),
            restrict_uses: Vec::new(),
            require_uses: Vec::new(),
            scope_deps: Vec::new(),
        }
    }

    /// Returns true if no declarative rules are defined.
    pub fn is_empty(&self) -> (r: bool)
        ensures
            r == (self.spec_restrict_uses().len() == 0 && self.spec_require_uses().len() == 0
                && self.spec_scope_deps().len() == 0),
    {
        self.restrict_uses.len() == 0 && self.require_uses.len() == 0 && self.scope_deps.len()
            == 0
    }

    /// Returns all defined scopes.
    pub fn scopes(&self) -> (r: &Vec<Scope>)
        ensures
            r@ == self.spec_scopes(),
    {
        &self.scopes
    }

    /// Returns all restrict-use rules.
    pub fn restrict_uses(&self) -> (r: &Vec<RestrictUse>)
        ensures
            r@ == self.spec_restrict_uses(),
    {
        &self.restrict_uses
    }

    /// Returns all require-use rules.
    pub fn require_uses(&self) -> (r: &Vec<RequireUse>)
        ensures
            r@ == self.spec_require_uses(),
    {
        &self.require_uses
    }

    /// Returns all scope dependency rules.
    pub fn scope_deps(&self) -> (r: &Vec<ScopeDep>)
        ensures
            r@ == self.spec_scope_deps(),
    {
        &self.scope_deps
    }

    /// Gets the first scope with the given name.
    pub fn scope(&self, name: &ScopeName) -> (r: Option<&Scope>)
        ensures
            match r {
                Some(s) => spec_scope_lookup(self.spec_scopes(), name@) == Some(*s),
                None => spec_scope_lookup(self.spec_scopes(), name@) is None,
            },
    {
        let n = self.scopes.len();
        let mut i: usize = 0;
        proof {
            assert(self.spec_scopes().subrange(0, n as int) =~= self.spec_scopes());
        }
        while i < n
            invariant
                0 <= i <= n,
                n == self.spec_scopes().len(),
                spec_scope_lookup(self.spec_scopes(), name@) == spec_scope_lookup(
                    self.spec_scopes().subrange(i as int, n as int),
                    name@,
                ),
            decreases n - i,
        {
            let ghost suffix = self.spec_scopes().subrange(i as int, n as int);
            proof {
                assert(suffix[0] == self.spec_scopes()[i as int]);
            }
            if self.scopes[i].name().same(name) {
                return Some(&self.scopes[i]);
            }
            proof {
                assert(suffix.subrange(1, suffix.len() as int) =~= self.spec_scopes().subrange(
                    i + 1,
                    n as int,
                ));
            }
            i = i + 1;
        }
        proof {
            assert(self.spec_scopes().subrange(n as int, n as int).len() == 0);
        }
        None
    }

    /// Which scopes a file path belongs to, in definition order.
    pub fn scopes_for_path(&self, path: &str) -> (r: Vec<ScopeName>)
        ensures
            scope_name_views(r@) == scope_names_of(
                self.spec_scopes().filter(|s: Scope| any_glob_hit(s.spec_patterns(), path@)),
            ),
    {
        let n = self.scopes.len();
        let mut out: Vec<ScopeName> = Vec::new();
        let ghost keep = |s: Scope| any_glob_hit(s.spec_patterns(), path@);
        let mut i: usize = 0;
        proof {
            assert(scope_name_views(out@) =~= scope_names_of(
                self.spec_scopes().subrange(0, 0).filter(keep),
            ));
        }
        while i < n
            invariant
                0 <= i <= n,
                n == self.spec_scopes().len(),
                keep == |s: Scope| any_glob_hit(s.spec_patterns(), path@),
                scope_name_views(out@) == scope_names_of(
                    self.spec_scopes().subrange(0, i as int).filter(keep),
                ),
            decreases n - i,
        {
            proof {
                crate::types::lemma_filter_push(
                    self.spec_scopes().subrange(0, i as int),
                    self.spec_scopes()[i as int],
                    keep,
                );
                assert(self.spec_scopes().subrange(0, i + 1) =~= self.spec_scopes().subrange(
                    0,
                    i as int,
                ).push(self.spec_scopes()[i as int]));
            }
            let ghost old_out = out@;
            if self.scopes[i].contains(path) {
                let nm = self.scopes[i].name().clone();
                out.push(nm);
                proof {
                    assert(scope_name_views(out@) =~= scope_name_views(old_out).push(
                        self.spec_scopes()[i as int].spec_name(),
                    ));
                    assert(scope_name_views(out@) =~= scope_names_of(
                        self.spec_scopes().subrange(0, i + 1).filter(keep),
                    ));
                }
            } else {
                proof {
                    assert(scope_name_views(out@) =~= scope_names_of(
                        self.spec_scopes().subrange(0, i + 1).filter(keep),
                    ));
                }
            }
            i = i + 1;
        }
        proof {
            assert(self.spec_scopes().subrange(0, n as int) =~= self.spec_scopes());
        }
        out
    }

    /// Tests whether a file path is within a scope reference: inline
    /// patterns directly, named references through the registry.
    pub fn scope_ref_contains(&self, scope_ref: &ScopeRef, path: &str) -> (r: bool)
        ensures
            r == spec_scope_ref_contains(self.spec_scopes(), *scope_ref, path@),
    {
        match scope_ref {
            ScopeRef::Named(name) => match self.scope(name) {
                Some(scope) => scope.contains(path),
                None => false,
            },
            ScopeRef::Inline(patterns) => globs_match(patterns, path),
        }
    }
}

/// The first scope with the given name, scanning in order.
pub open spec fn spec_scope_lookup(scopes: Seq<Scope>, name: Seq<char>) -> Option<Scope>
    decreases scopes.len(),
{
    if scopes.len() == 0 {
        None
    } else if scopes[0].spec_name() == name {
        Some(scopes[0])
    } else {
        spec_scope_lookup(scopes.subrange(1, scopes.len() as int), name)
    }
}

/// A path lies within a scope reference: under some pattern of the
/// first scope of that name, or under some inline pattern.
pub open spec fn spec_scope_ref_contains(
    scopes: Seq<Scope>,
    r: ScopeRef,
    path: Seq<char>,
) -> bool {
    match r {
        ScopeRef::Named(name) => match spec_scope_lookup(scopes, name@) {
            Some(s) => any_glob_hit(s.spec_patterns(), path),
            None => false,
        },
        ScopeRef::Inline(patterns) => any_glob_hit(patterns@, path),
    }
}

} // verus!
