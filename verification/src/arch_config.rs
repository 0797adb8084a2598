//! Configuration for architecture layer rules: layer definitions, the
//! allowed-dependency table, and custom constraints.

use vstd::prelude::*;

verus! {

use crate::severity::Severity;
use crate::strutil::str_eq;

/// A named architecture layer.
#[derive(Debug, Clone)]
pub struct LayerDef {
    /// Layer name (e.g., `domain`, `infrastructure`).
    pub name: String,
    /// Package prefixes belonging to this layer.
    pub packages: Vec<String>,
}

/// A custom constraint rule: `no-import-pattern` or `naming-rule`.
#[derive(Debug, Clone)]
pub struct Constraint {
    /// Constraint type: `no-import-pattern` or `naming-rule`.
    pub kind: String,
    /// Pattern to match against import paths (used by `no-import-pattern`).
    pub pattern: String,
    /// Layers this constraint applies to.
    pub in_layers: Vec<String>,
    /// Severity for violations of this constraint.
    pub severity: Severity,
    /// Human-readable message.
    pub message: String,
    /// Import path must contain this substring to trigger the rule
    /// (used by `naming-rule`).
    pub import_matches: String,
    /// Source file must have a declaration matching this substring
    /// (used by `naming-rule`).
    pub source_must_match: String,
    /// Source file must not have a declaration matching this substring
    /// (used by `naming-rule`).
    pub source_must_not_match: String,
}

/// One entry of the allowed-dependency table: a layer name and the
/// layers it may depend on.
#[derive(Debug, Clone)]
pub struct DepEntry {
    /// The layer this entry is about.
    pub layer: String,
    /// The layers it is allowed to depend on.
    pub allowed: Vec<String>,
}

/// Top-level architecture lint configuration.
#[derive(Debug, Clone)]
pub struct ArchConfig {
    /// Project root directory.
    pub root: String,
    /// Glob patterns to exclude.
    pub exclude: Vec<String>,
    /// Layer definitions.
    pub layers: Vec<LayerDef>,
    /// Dependency rules: each layer with its allowed dependencies.
    pub dependencies: Vec<DepEntry>,
    /// Custom constraints.
    pub constraints: Vec<Constraint>,
}

/// Errors when loading or validating configuration.
#[derive(Debug)]
pub enum ConfigError {
    /// Failed to read the config file.
    Io {
        /// Path that failed.
        path: String,
        /// Error detail.
        detail: String,
    },
    /// Failed to parse the document.
    Parse {
        /// Parse error detail.
        message: String,
    },
    /// Config is structurally invalid.
    Validation(String),
}

/// The views of a list of names.
pub open spec fn name_views(names: Seq<String>) -> Seq<Seq<char>> {
    names.map_values(|s: String| s@)
}

/// `name` occurs in the list of names.
pub open spec fn names_contain(names: Seq<Seq<char>>, name: Seq<char>) -> bool {
    exists|i: int| 0 <= i < names.len() && names[i] == name
}

/// Whether a list of strings contains one equal to `name`.
pub fn list_contains(names: &Vec<String>, name: &str) -> (r: bool)
    ensures
        r == names_contain(name_views(names@), name@),
{
    let n = names.len();
    let mut i: usize = 0;
    while i < n
        invariant
            0 <= i <= n,
            n == names@.len(),
            forall|j: int| 0 <= j < i ==> name_views(names@)[j] != name@,
        decreases n - i,
    {
        if str_eq(names[i].as_str(), name) {
            assert(name_views(names@)[i as int] == name@);
            return true;
        }
        i = i + 1;
    }
    false
}

impl ArchConfig {
    /// The configured layer names, in order.
    pub open spec fn layer_names(&self) -> Seq<Seq<char>> {
        self.layers@.map_values(|l: LayerDef| l.name@)
    }

    /// One dependency entry is consistent: its layer and every allowed
    /// target exist, and it does not allow itself.
    pub open spec fn dep_entry_ok(&self, e: DepEntry) -> bool {
        &&& names_contain(self.layer_names(), e.layer@)
        &&& forall|k: int|
            0 <= k < e.allowed@.len() ==> names_contain(
                self.layer_names(),
                (#[trigger] e.allowed@[k])@,
            )
        &&& !names_contain(name_views(e.allowed@), e.layer@)
    }

    /// One constraint is consistent: every layer it names exists.
    pub open spec fn constraint_ok(&self, c: Constraint) -> bool {
        forall|k: int|
            0 <= k < c.in_layers@.len() ==> names_contain(
                self.layer_names(),
                (#[trigger] c.in_layers@[k])@,
            )
    }

    /// The whole configuration is consistent: every dependency entry and
    /// constraint refers only to defined layers, no layer allows itself,
    /// and every layer has a dependency entry.
    pub open spec fn spec_valid(&self) -> bool {
        &&& forall|i: int|
            0 <= i < self.dependencies@.len() ==> self.dep_entry_ok(#[trigger] self.dependencies@[i])
        &&& forall|i: int|
            0 <= i < self.constraints@.len() ==> self.constraint_ok(#[trigger] self.constraints@[i])
        &&& forall|i: int|
            0 <= i < self.layers@.len() ==> names_contain(
                dep_keys(self.dependencies@),
                (#[trigger] self.layers@[i]).name@,
            )
    }

    /// Returns the layer names as owned strings.
    fn layer_name_list(&self) -> (r: Vec<String>)
        ensures
            name_views(r@) == self.layer_names(),
    {
        let mut out: Vec<String> = Vec::new();
        let n = self.layers.len();
        let mut i: usize = 0;
        proof {
            assert(name_views(out@) =~= self.layer_names().subrange(0, 0));
        }
        while i < n
            invariant
                0 <= i <= n,
                n == self.layers@.len(),
                name_views(out@) == self.layer_names().subrange(0, i as int),
            decreases n - i,
        {
            let ghost old_out = out@;
            out.push(self.layers[i].name.clone());
            proof {
                assert(name_views(out@) =~= name_views(old_out).push(self.layers@[i as int].name@));
                assert(self.layer_names().subrange(0, i + 1) =~= self.layer_names().subrange(
                    0,
                    i as int,
                ).push(self.layer_names()[i as int]));
            }
            i = i + 1;
        }
        proof {
            assert(self.layer_names().subrange(0, n as int) =~= self.layer_names());
        }
        out
    }

    /// Validates config consistency: succeeds exactly when every
    /// dependency entry and constraint refers only to defined layers, no
    /// layer allows itself, and every layer has a dependency entry.
    /// Every breach found is collected into one validation error.
    pub fn validate(&self) -> (r: Result<(), ConfigError>)
        ensures
            r is Ok <==> self.spec_valid(),
            r matches Err(e) ==> (e matches ConfigError::Validation(m) && m@.len() > 0),
    {
        let layer_names = self.layer_name_list();
        let mut breaches = String::new();
        let mut all_ok = true;

        let nd = self.dependencies.len();
        let mut i: usize = 0;
        while i < nd
            invariant
                0 <= i <= nd,
                nd == self.dependencies@.len(),
                name_views(layer_names@) == self.layer_names(),
                breaches@.len() == 0 <==> all_ok,
                all_ok <==> forall|j: int|
                    0 <= j < i ==> self.dep_entry_ok(#[trigger] self.dependencies@[j]),
            decreases nd - i,
        {
            let entry = &self.dependencies[i];
            let ghost entry_ok_before = all_ok;
            if !list_contains(&layer_names, entry.layer.as_str()) {
                breaches.append("dependencies entry names unknown layer '");
                breaches.append(entry.layer.as_str());
                breaches.append("'; ");
                all_ok = false;
                proof {
                    reveal_strlit("'; ");
                    assert(breaches@.len() > 0);
                }
            }
            let ghost layer_known = names_contain(self.layer_names(), entry.layer@);
            let na = entry.allowed.len();
            let mut k: usize = 0;
            while k < na
                invariant
                    0 <= k <= na,
                    na == entry.allowed@.len(),
                    0 <= i < self.dependencies@.len(),
                    *entry == self.dependencies@[i as int],
                    name_views(layer_names@) == self.layer_names(),
                    breaches@.len() == 0 <==> all_ok,
                    layer_known == names_contain(self.layer_names(), entry.layer@),
                    all_ok <==> entry_ok_before && layer_known && forall|q: int|
                        0 <= q < k ==> names_contain(
                            self.layer_names(),
                            (#[trigger] entry.allowed@[q])@,
                        ),
                decreases na - k,
            {
                if !list_contains(&layer_names, entry.allowed[k].as_str()) {
                    breaches.append("dependencies entry for '");
                    breaches.append(entry.layer.as_str());
                    breaches.append("' names unknown dep '");
                    breaches.append(entry.allowed[k].as_str());
                    breaches.append("'; ");
                    all_ok = false;
                    proof {
                        reveal_strlit("'; ");
                        assert(breaches@.len() > 0);
                    }
                }
                k = k + 1;
            }
            if list_contains(&entry.allowed, entry.layer.as_str()) {
                breaches.append("dependencies entry for '");
                breaches.append(entry.layer.as_str());
                breaches.append("' allows itself; ");
                all_ok = false;
                proof {
                    reveal_strlit("' allows itself; ");
                    assert(breaches@.len() > 0);
                }
            }
            proof {
                assert(all_ok <==> entry_ok_before && self.dep_entry_ok(
                    self.dependencies@[i as int],
                ));
            }
            i = i + 1;
        }

        let ghost deps_ok = forall|j: int|
            0 <= j < self.dependencies@.len() ==> self.dep_entry_ok(
                #[trigger] self.dependencies@[j],
            );
        let nc = self.constraints.len();
        let mut i2: usize = 0;
        while i2 < nc
            invariant
                0 <= i2 <= nc,
                nc == self.constraints@.len(),
                name_views(layer_names@) == self.layer_names(),
                breaches@.len() == 0 <==> all_ok,
                deps_ok == forall|j: int|
                    0 <= j < self.dependencies@.len() ==> self.dep_entry_ok(
                        #[trigger] self.dependencies@[j],
                    ),
                all_ok <==> deps_ok && forall|j: int|
                    0 <= j < i2 ==> self.constraint_ok(#[trigger] self.constraints@[j]),
            decreases nc - i2,
        {
            let c = &self.constraints[i2];
            let ghost entry_ok_before = all_ok;
            let nl = c.in_layers.len();
            let mut k: usize = 0;
            while k < nl
                invariant
                    0 <= k <= nl,
                    nl == c.in_layers@.len(),
                    0 <= i2 < self.constraints@.len(),
                    *c == self.constraints@[i2 as int],
                    name_views(layer_names@) == self.layer_names(),
                    breaches@.len() == 0 <==> all_ok,
                    all_ok <==> entry_ok_before && forall|q: int|
                        0 <= q < k ==> names_contain(
                            self.layer_names(),
                            (#[trigger] c.in_layers@[q])@,
                        ),
                decreases nl - k,
            {
                if !list_contains(&layer_names, c.in_layers[k].as_str()) {
                    breaches.append("constraint names unknown layer '");
                    breaches.append(c.in_layers[k].as_str());
                    breaches.append("'; ");
                    all_ok = false;
                    proof {
                        reveal_strlit("'; ");
                        assert(breaches@.len() > 0);
                    }
                }
                k = k + 1;
            }
            proof {
                assert(all_ok <==> entry_ok_before && self.constraint_ok(
                    self.constraints@[i2 as int],
                ));
            }
            i2 = i2 + 1;
        }

        let ghost cons_ok = forall|j: int|
            0 <= j < self.constraints@.len() ==> self.constraint_ok(
                #[trigger] self.constraints@[j],
            );
        let keys = dep_key_list(&self.dependencies);
        let nlayers = self.layers.len();
        let mut i3: usize = 0;
        while i3 < nlayers
            invariant
                0 <= i3 <= nlayers,
                nlayers == self.layers@.len(),
                name_views(keys@) == dep_keys(self.dependencies@),
                breaches@.len() == 0 <==> all_ok,
                deps_ok == forall|j: int|
                    0 <= j < self.dependencies@.len() ==> self.dep_entry_ok(
                        #[trigger] self.dependencies@[j],
                    ),
                cons_ok == forall|j: int|
                    0 <= j < self.constraints@.len() ==> self.constraint_ok(
                        #[trigger] self.constraints@[j],
                    ),
                all_ok <==> deps_ok && cons_ok && forall|j: int|
                    0 <= j < i3 ==> names_contain(
                        dep_keys(self.dependencies@),
                        (#[trigger] self.layers@[j]).name@,
                    ),
            decreases nlayers - i3,
        {
            if !list_contains(&keys, self.layers[i3].name.as_str()) {
                breaches.append("layer '");
                breaches.append(self.layers[i3].name.as_str());
                breaches.append("' has no dependencies entry; ");
                all_ok = false;
                proof {
                    reveal_strlit("' has no dependencies entry; ");
                    assert(breaches@.len() > 0);
                }
            }
            i3 = i3 + 1;
        }

        if breaches.as_str().unicode_len() == 0 {
            Ok(())
        } else {
            Err(ConfigError::Validation(breaches))
        }
    }
}

/// The layer names keyed by the dependency table, in order.
pub open spec fn dep_keys(deps: Seq<DepEntry>) -> Seq<Seq<char>> {
    deps.map_values(|e: DepEntry| e.layer@)
}

/// Returns the dependency-table keys as owned strings.
fn dep_key_list(deps: &Vec<DepEntry>) -> (r: Vec<String>)
    ensures
        name_views(r@) == dep_keys(deps@),
{
    let mut out: Vec<String> = Vec::new();
    let n = deps.len();
    let mut i: usize = 0;
    proof {
        assert(name_views(out@) =~= dep_keys(deps@).subrange(0, 0));
    }
    while i < n
        invariant
            0 <= i <= n,
            n == deps@.len(),
            name_views(out@) == dep_keys(deps@).subrange(0, i as int),
        decreases n - i,
    {
        let ghost old_out = out@;
        out.push(deps[i].layer.clone());
        proof {
            assert(name_views(out@) =~= name_views(old_out).push(deps@[i as int].layer@));
            assert(dep_keys(deps@).subrange(0, i + 1) =~= dep_keys(deps@).subrange(0, i as int).push(
                dep_keys(deps@)[i as int],
            ));
        }
        i = i + 1;
    }
    proof {
        assert(dep_keys(deps@).subrange(0, n as int) =~= dep_keys(deps@));
    }
    out
}

/// The allowed targets of the first dependency entry for `layer`, if any.
pub open spec fn spec_allowed_deps(deps: Seq<DepEntry>, layer: Seq<char>) -> Option<Seq<String>>
    decreases deps.len(),
{
    if deps.len() == 0 {
        None
    } else if deps[0].layer@ == layer {
        Some(deps[0].allowed@)
    } else {
        spec_allowed_deps(deps.subrange(1, deps.len() as int), layer)
    }
}

/// Looks up the allowed dependencies of a layer in the table.
pub fn allowed_deps<'a>(deps: &'a Vec<DepEntry>, layer: &str) -> (r: Option<&'a Vec<String>>)
    ensures
        match r {
            Some(v) => spec_allowed_deps(deps@, layer@) == Some(v@),
            None => spec_allowed_deps(deps@, layer@) is None,
        },
{
    let n = deps.len();
    let mut i: usize = 0;
    proof {
        assert(deps@.subrange(0, n as int) =~= deps@);
    }
    while i < n
        invariant
            0 <= i <= n,
            n == deps@.len(),
            spec_allowed_deps(deps@, layer@) == spec_allowed_deps(
                deps@.subrange(i as int, n as int),
                layer@,
            ),
        decreases n - i,
    {
        let ghost suffix = deps@.subrange(i as int, n as int);
        proof {
            assert(suffix[0] == deps@[i as int]);
        }
        if str_eq(deps[i].layer.as_str(), layer) {
            return Some(&deps[i].allowed);
        }
        proof {
            assert(suffix.subrange(1, suffix.len() as int) =~= deps@.subrange(i + 1, n as int));
        }
        i = i + 1;
    }
    proof {
        assert(deps@.subrange(n as int, n as int).len() == 0);
    }
    None
}

/// The configured excludes of an architecture document: the analyzer
/// section's `exclude` strings, or none.
pub open spec fn arch_exclude_of(doc: toml::Table) -> Seq<Seq<char>> {
    match crate::config::spec_analyzer_table(doc) {
        Some(at) => match crate::toml_data::spec_str_array_entry(at, "exclude"@) {
            Some(ex) => ex,
            None => Seq::empty(),
        },
        None => Seq::empty(),
    }
}

/// The string payload of a table entry, or empty when absent or not a
/// string.
pub open spec fn spec_str_or_empty(t: toml::Table, key: Seq<char>) -> Seq<char> {
    match crate::toml_data::spec_str_entry(t, key) {
        Some(s) => s,
        None => Seq::empty(),
    }
}

/// A layer table is well-formed: it carries a string `name` and an
/// array `packages`.
pub open spec fn layer_table_ok(lt: toml::Table) -> bool {
    crate::toml_data::spec_str_entry(lt, "name"@) is Some
        && crate::toml_data::spec_str_array_entry(lt, "packages"@) is Some
}

/// Every layer table of a document is well-formed.
pub open spec fn doc_layers_ok(doc: toml::Table) -> bool {
    forall|j: int|
        0 <= j < crate::toml_data::spec_array_tables_entry(doc, "layers"@).len()
            ==> layer_table_ok(
            #[trigger] crate::toml_data::spec_array_tables_entry(doc, "layers"@)[j],
        )
}

/// A constraint table's severity, when present, is a known name.
pub open spec fn constraint_severity_ok(ct: toml::Table) -> bool {
    match crate::toml_data::spec_str_entry(ct, "severity"@) {
        Some(sv) => crate::severity::spec_parse_severity(sv) is Some,
        None => true,
    }
}

/// Every constraint table of a document has a known severity.
pub open spec fn doc_constraints_ok(doc: toml::Table) -> bool {
    forall|j: int|
        0 <= j < crate::toml_data::spec_array_tables_entry(doc, "constraints"@).len()
            ==> constraint_severity_ok(
            #[trigger] crate::toml_data::spec_array_tables_entry(doc, "constraints"@)[j],
        )
}

/// A parsed layer carries its table's content.
pub open spec fn layer_corresponds(l: LayerDef, lt: toml::Table) -> bool {
    &&& crate::toml_data::spec_str_entry(lt, "name"@) == Some(l.name@)
    &&& crate::toml_data::spec_str_array_entry(lt, "packages"@) == Some(name_views(l.packages@))
}

/// The parsed layers carry the document's layer tables, in order.
pub open spec fn layers_correspond(ls: Seq<LayerDef>, ts: Seq<toml::Table>) -> bool {
    ls.len() == ts.len() && forall|j: int|
        0 <= j < ls.len() ==> layer_corresponds(#[trigger] ls[j], ts[j])
}

/// The parsed dependency entries carry the dependency table's content:
/// one entry per string-array-valued key, in key order.
pub open spec fn deps_correspond(ds: Seq<DepEntry>, dt: Option<toml::Table>) -> bool {
    match dt {
        None => ds.len() == 0,
        Some(t) => {
            &&& ds.map_values(|d: DepEntry| d.layer@) == crate::toml_data::table_key_seq(
                t,
            ).filter(|k: Seq<char>| crate::toml_data::spec_str_array_entry(t, k) is Some)
            &&& forall|j: int|
                0 <= j < ds.len() ==> crate::toml_data::spec_str_array_entry(
                    t,
                    (#[trigger] ds[j]).layer@,
                ) == Some(name_views(ds[j].allowed@))
        },
    }
}

/// A parsed constraint carries its table's content, with the defaults
/// for absent fields.
pub open spec fn constraint_corresponds(c: Constraint, ct: toml::Table) -> bool {
    &&& c.kind@ == spec_str_or_empty(ct, "type"@)
    &&& c.pattern@ == spec_str_or_empty(ct, "pattern"@)
    &&& match crate::toml_data::spec_str_array_entry(ct, "in_layers"@) {
        Some(ls) => name_views(c.in_layers@) == ls,
        None => c.in_layers@.len() == 0,
    }
    &&& match crate::toml_data::spec_str_entry(ct, "severity"@) {
        Some(sv) => Some(c.severity) == crate::severity::spec_parse_severity(sv),
        None => c.severity == Severity::Error,
    }
    &&& c.message@ == spec_str_or_empty(ct, "message"@)
    &&& c.import_matches@ == spec_str_or_empty(ct, "import_matches"@)
    &&& c.source_must_match@ == spec_str_or_empty(ct, "source_must_match"@)
    &&& c.source_must_not_match@ == spec_str_or_empty(ct, "source_must_not_match"@)
}

/// The parsed constraints carry the document's constraint tables, in
/// order.
pub open spec fn constraints_correspond(cs: Seq<Constraint>, ts: Seq<toml::Table>) -> bool {
    cs.len() == ts.len() && forall|j: int|
        0 <= j < cs.len() ==> constraint_corresponds(#[trigger] cs[j], ts[j])
}

impl ArchConfig {
    /// Parses an architecture configuration from a document: the
    /// analyzer section, the layer definitions, the dependency table,
    /// and the constraints, each pinned to the document's entries.
    pub fn parse(content: &str) -> (r: Result<ArchConfig, ConfigError>)
        ensures
            r is Ok <==> (crate::toml_data::doc_of(content@) matches Some(doc) && doc_layers_ok(
                doc,
            ) && doc_constraints_ok(doc)),
            r matches Ok(c) ==> (crate::toml_data::doc_of(content@) matches Some(doc) && {
                &&& c.root@ == crate::config::spec_root_of(doc)
                &&& name_views(c.exclude@) == arch_exclude_of(doc)
                &&& layers_correspond(
                    c.layers@,
                    crate::toml_data::spec_array_tables_entry(doc, "layers"@),
                )
                &&& deps_correspond(
                    c.dependencies@,
                    crate::toml_data::spec_table_entry(doc, "dependencies"@),
                )
                &&& constraints_correspond(
                    c.constraints@,
                    crate::toml_data::spec_array_tables_entry(doc, "constraints"@),
                )
            }),
    {
        let table = match crate::toml_data::parse_toml_table(content) {
            Ok(t) => t,
            Err(message) => {
                return Err(ConfigError::Parse { message });
            },
        };
        let mut root = ".".to_owned();
        let mut exclude: Vec<String> = Vec::new();
        proof {
            assert(name_views(exclude@) =~= Seq::<Seq<char>>::empty());
        }
        match crate::toml_data::table_get(&table, "analyzer") {
            Some(v) => match crate::toml_data::value_as_table(v) {
                Some(at) => {
                    match crate::toml_data::table_get_str(at, "root") {
                        Some(rt) => {
                            root = rt;
                        },
                        None => {},
                    }
                    match crate::toml_data::table_get_str_array(at, "exclude") {
                        Some(ex) => {
                            exclude = ex;
                        },
                        None => {},
                    }
                },
                None => {},
            },
            None => {},
        }

        let layer_tables = crate::toml_data::tables_of(&table, "layers");
        let ghost lt_seq = crate::toml_data::spec_array_tables_entry(table, "layers"@);
        let mut layers: Vec<LayerDef> = Vec::new();
        let nl = layer_tables.len();
        let mut i: usize = 0;
        while i < nl
            invariant
                0 <= i <= nl,
                nl == layer_tables@.len(),
                layer_tables@.map_values(|x: &toml::Table| *x) == lt_seq,
                lt_seq == crate::toml_data::spec_array_tables_entry(table, "layers"@),
                crate::toml_data::doc_of(content@) == Some(table),
                layers@.len() == i,
                forall|j: int| 0 <= j < i ==> layer_table_ok(#[trigger] lt_seq[j]),
                forall|j: int|
                    0 <= j < i ==> layer_corresponds(#[trigger] layers@[j], lt_seq[j]),
            decreases nl - i,
        {
            let lt = layer_tables[i];
            proof {
                assert(layer_tables@.map_values(|x: &toml::Table| *x)[i as int]
                    == lt_seq[i as int]);
            }
            let name = match crate::toml_data::table_get_str(lt, "name") {
                Some(nm) => nm,
                None => {
                    proof {
                        assert(!layer_table_ok(lt_seq[i as int]));
                        assert(!doc_layers_ok(table));
                    }
                    return Err(
                        ConfigError::Parse { message: "layer entry needs a name".to_owned() },
                    );
                },
            };
            let packages = match crate::toml_data::table_get_str_array(lt, "packages") {
                Some(p) => p,
                None => {
                    proof {
                        assert(!layer_table_ok(lt_seq[i as int]));
                        assert(!doc_layers_ok(table));
                    }
                    return Err(
                        ConfigError::Parse { message: "layer entry needs packages".to_owned() },
                    );
                },
            };
            layers.push(LayerDef { name, packages });
            i = i + 1;
        }

        let mut dependencies: Vec<DepEntry> = Vec::new();
        match crate::toml_data::table_get(&table, "dependencies") {
            Some(v) => match crate::toml_data::value_as_table(v) {
                Some(dt) => {
                    let keys = crate::toml_data::table_keys(dt);
                    let ghost keyseq = crate::toml_data::table_key_seq(*dt);
                    let ghost keep = |k: Seq<char>| crate::toml_data::spec_str_array_entry(
                        *dt,
                        k,
                    ) is Some;
                    let n = keys.len();
                    let mut i2: usize = 0;
                    proof {
                        assert(dependencies@.map_values(|d: DepEntry| d.layer@)
                            =~= keyseq.subrange(0, 0).filter(keep));
                    }
                    while i2 < n
                        invariant
                            0 <= i2 <= n,
                            n == keys@.len(),
                            keys@.map_values(|k: String| k@) == keyseq,
                            keyseq == crate::toml_data::table_key_seq(*dt),
                            keep == |k: Seq<char>| crate::toml_data::spec_str_array_entry(
                                *dt,
                                k,
                            ) is Some,
                            dependencies@.map_values(|d: DepEntry| d.layer@)
                                == keyseq.subrange(0, i2 as int).filter(keep),
                            forall|j: int|
                                0 <= j < dependencies@.len()
                                    ==> crate::toml_data::spec_str_array_entry(
                                    *dt,
                                    (#[trigger] dependencies@[j]).layer@,
                                ) == Some(name_views(dependencies@[j].allowed@)),
                        decreases n - i2,
                    {
                        proof {
                            assert(keys@.map_values(|k: String| k@)[i2 as int]
                                == keys@[i2 as int]@);
                            crate::types::lemma_filter_push(
                                keyseq.subrange(0, i2 as int),
                                keyseq[i2 as int],
                                keep,
                            );
                            assert(keyseq.subrange(0, i2 + 1) =~= keyseq.subrange(
                                0,
                                i2 as int,
                            ).push(keyseq[i2 as int]));
                        }
                        let ghost old_deps = dependencies@;
                        match crate::toml_data::table_get_str_array(dt, keys[i2].as_str()) {
                            Some(allowed) => {
                                dependencies.push(DepEntry { layer: keys[i2].clone(), allowed });
                                proof {
                                    assert(dependencies@.map_values(|d: DepEntry| d.layer@)
                                        =~= old_deps.map_values(|d: DepEntry| d.layer@).push(
                                        keyseq[i2 as int],
                                    ));
                                }
                            },
                            None => {},
                        }
                        i2 = i2 + 1;
                    }
                    proof {
                        assert(keyseq.subrange(0, n as int) =~= keyseq);
                    }
                },
                None => {},
            },
            None => {},
        }

        let constraint_tables = crate::toml_data::tables_of(&table, "constraints");
        let ghost ct_seq = crate::toml_data::spec_array_tables_entry(table, "constraints"@);
        let mut constraints: Vec<Constraint> = Vec::new();
        let nc = constraint_tables.len();
        let mut i3: usize = 0;
        while i3 < nc
            invariant
                0 <= i3 <= nc,
                nc == constraint_tables@.len(),
                constraint_tables@.map_values(|x: &toml::Table| *x) == ct_seq,
                ct_seq == crate::toml_data::spec_array_tables_entry(table, "constraints"@),
                crate::toml_data::doc_of(content@) == Some(table),
                constraints@.len() == i3,
                forall|j: int| 0 <= j < i3 ==> constraint_severity_ok(#[trigger] ct_seq[j]),
                forall|j: int|
                    0 <= j < i3 ==> constraint_corresponds(#[trigger] constraints@[j], ct_seq[j]),
            decreases nc - i3,
        {
            let ct = constraint_tables[i3];
            proof {
                assert(constraint_tables@.map_values(|x: &toml::Table| *x)[i3 as int]
                    == ct_seq[i3 as int]);
            }
            let severity = match crate::toml_data::table_get_str(ct, "severity") {
                Some(sv) => match crate::severity::parse_severity(sv.as_str()) {
                    Some(x) => x,
                    None => {
                        proof {
                            assert(!constraint_severity_ok(ct_seq[i3 as int]));
                            assert(!doc_constraints_ok(table));
                        }
                        let mut message = "unknown severity: ".to_owned();
                        message.append(sv.as_str());
                        return Err(ConfigError::Parse { message });
                    },
                },
                None => Severity::Error,
            };
            let in_layers = match crate::toml_data::table_get_str_array(ct, "in_layers") {
                Some(ls) => ls,
                None => Vec::new(),
            };
            proof {
                if crate::toml_data::spec_str_array_entry(ct_seq[i3 as int], "in_layers"@)
                    is None {
                    assert(name_views(in_layers@) =~= Seq::<Seq<char>>::empty());
                }
            }
            constraints.push(
                Constraint {
                    kind: str_or_empty(ct, "type"),
                    pattern: str_or_empty(ct, "pattern"),
                    in_layers,
                    severity,
                    message: str_or_empty(ct, "message"),
                    import_matches: str_or_empty(ct, "import_matches"),
                    source_must_match: str_or_empty(ct, "source_must_match"),
                    source_must_not_match: str_or_empty(ct, "source_must_not_match"),
                },
            );
            i3 = i3 + 1;
        }

        Ok(ArchConfig { root, exclude, layers, dependencies, constraints })
    }
}

/// The string payload of a table entry, or empty when absent.
fn str_or_empty(t: &toml::Table, key: &str) -> (r: String)
    ensures
        r@ == spec_str_or_empty(*t, key@),
{
    match crate::toml_data::table_get_str(t, key) {
        Some(s) => s,
        None => String::new(),
    }
}

} // verus!
