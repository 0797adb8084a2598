//! Architecture rule engine.
//!
//! Evaluates layer dependency rules and pattern constraints against a
//! [`FileAnalysis`], producing [`Violation`]s.

use vstd::prelude::*;

verus! {

use crate::arch_config::{ArchConfig, Constraint, names_contain, name_views, spec_allowed_deps};
use crate::extractor::{DeclInfo, FileAnalysis, ImportInfo};
use crate::layer::{spec_resolve, LayerResolver};
use crate::severity::Severity;
use crate::sequtil::{concat_map, lemma_concat_map_push};
use crate::strutil::{contains_seq, contains_str, str_eq};
use crate::types::{vmodel, Location, Violation};

/// The model of one violation, as produced by [`crate::types::vmodel`].
pub type VioModel = (
    Seq<char>,
    Seq<char>,
    Severity,
    Seq<char>,
    nat,
    nat,
    Seq<char>,
    Option<Seq<char>>,
    Option<Seq<char>>,
);

/// The message of a layer-dependency finding.
pub open spec fn layer_dep_message(from: Seq<char>, to: Seq<char>) -> Seq<char> {
    from + " -> "@ + to + " dependency not allowed"@
}

/// The layer, if any, that the analyzed file's package resolves to.
pub open spec fn spec_from_layer(
    rows: Seq<(Seq<char>, Seq<char>)>,
    a: FileAnalysis,
) -> Option<Seq<char>> {
    match a.package {
        None => None,
        Some(p) => match spec_resolve(rows, p.path@) {
            None => None,
            Some(row) => Some(row.1),
        },
    }
}

/// An import breaks the layer rules: its target resolves to another
/// layer that the source layer's allow-list does not name.
pub open spec fn is_layer_dep_violation(
    rows: Seq<(Seq<char>, Seq<char>)>,
    allowed: Seq<String>,
    from: Seq<char>,
    imp: ImportInfo,
) -> bool {
    match spec_resolve(rows, imp.path@) {
        None => false,
        Some(row) => row.1 != from && !names_contain(name_views(allowed), row.1),
    }
}

/// The allow-list for a layer: its dependency entry, or empty.
pub open spec fn spec_allow_list(c: ArchConfig, from: Seq<char>) -> Seq<String> {
    match spec_allowed_deps(c.dependencies@, from) {
        None => Seq::empty(),
        Some(v) => v,
    }
}

/// The layer-dependency finding for one offending import.
pub open spec fn layer_dep_model(
    rows: Seq<(Seq<char>, Seq<char>)>,
    file: Seq<char>,
    from: Seq<char>,
    imp: ImportInfo,
) -> VioModel {
    (
        "LAYER001"@,
        "layer-dependency"@,
        Severity::Error,
        file,
        imp.line as nat,
        (imp.column + 1) as nat,
        layer_dep_message(from, (spec_resolve(rows, imp.path@)->0).1),
        None,
        None,
    )
}

/// All layer-dependency findings of one file, in import order.
pub open spec fn spec_layer_dep_models(
    c: ArchConfig,
    rows: Seq<(Seq<char>, Seq<char>)>,
    a: FileAnalysis,
) -> Seq<VioModel> {
    match spec_from_layer(rows, a) {
        None => Seq::empty(),
        Some(from) => a.imports@.filter(
            |imp: ImportInfo| is_layer_dep_violation(rows, spec_allow_list(c, from), from, imp),
        ).map_values(|imp: ImportInfo| layer_dep_model(rows, a.file_path@, from, imp)),
    }
}

/// One import-pattern constraint's findings for one file.
pub open spec fn spec_pattern_models_one(
    from: Seq<char>,
    a: FileAnalysis,
    c: Constraint,
) -> Seq<VioModel> {
    if c.kind@ == "no-import-pattern"@ && names_contain(name_views(c.in_layers@), from) {
        a.imports@.filter(|imp: ImportInfo| contains_seq(imp.path@, c.pattern@)).map_values(
            |imp: ImportInfo|
                (
                    "PATTERN001"@,
                    "import-pattern"@,
                    c.severity,
                    a.file_path@,
                    imp.line as nat,
                    (imp.column + 1) as nat,
                    c.message@,
                    None,
                    None,
                ),
        )
    } else {
        Seq::empty()
    }
}

/// All import-pattern findings of one file, in constraint order.
pub open spec fn spec_pattern_models(
    c: ArchConfig,
    rows: Seq<(Seq<char>, Seq<char>)>,
    a: FileAnalysis,
) -> Seq<VioModel> {
    match spec_from_layer(rows, a) {
        None => Seq::empty(),
        Some(from) => concat_map(
            c.constraints@,
            |con: Constraint| spec_pattern_models_one(from, a, con),
        ),
    }
}

/// Some declaration's name contains the given fragment.
pub open spec fn some_decl_contains(decls: Seq<DeclInfo>, frag: Seq<char>) -> bool {
    exists|i: int| 0 <= i < decls.len() && contains_seq((#[trigger] decls[i]).name@, frag)
}

/// One naming-rule constraint's findings for one import: a finding when
/// a required declaration name is absent, and a finding when a
/// forbidden declaration name is present.
pub open spec fn spec_naming_models_import(
    a: FileAnalysis,
    c: Constraint,
    imp: ImportInfo,
) -> Seq<VioModel> {
    if !contains_seq(imp.path@, c.import_matches@) {
        Seq::empty()
    } else {
        let vm = (
            "NAMING001"@,
            "naming-rule"@,
            c.severity,
            a.file_path@,
            imp.line as nat,
            (imp.column + 1) as nat,
            c.message@,
            None::<Seq<char>>,
            None::<Seq<char>>,
        );
        let must = if c.source_must_match@.len() > 0 && !some_decl_contains(
            a.declarations@,
            c.source_must_match@,
        ) {
            seq![vm]
        } else {
            Seq::empty()
        };
        let must_not = if c.source_must_not_match@.len() > 0 && some_decl_contains(
            a.declarations@,
            c.source_must_not_match@,
        ) {
            seq![vm]
        } else {
            Seq::empty()
        };
        must + must_not
    }
}

/// One naming-rule constraint's findings for one file.
pub open spec fn spec_naming_models_one(
    from: Seq<char>,
    a: FileAnalysis,
    c: Constraint,
) -> Seq<VioModel> {
    if c.kind@ == "naming-rule"@ && names_contain(name_views(c.in_layers@), from)
        && c.import_matches@.len() > 0 {
        concat_map(a.imports@, |imp: ImportInfo| spec_naming_models_import(a, c, imp))
    } else {
        Seq::empty()
    }
}

/// All naming-rule findings of one file, in constraint order.
pub open spec fn spec_naming_models(
    c: ArchConfig,
    rows: Seq<(Seq<char>, Seq<char>)>,
    a: FileAnalysis,
) -> Seq<VioModel> {
    match spec_from_layer(rows, a) {
        None => Seq::empty(),
        Some(from) => concat_map(
            c.constraints@,
            |con: Constraint| spec_naming_models_one(from, a, con),
        ),
    }
}

/// Every import's line and column leave room for 1-indexing.
pub open spec fn analysis_in_bounds(a: FileAnalysis) -> bool {
    forall|i: int| 0 <= i < a.imports@.len() ==> (#[trigger] a.imports@[i]).column < usize::MAX
}

/// Evaluates architecture rules against extracted file analyses.
pub struct ArchRuleEngine {
    /// The configuration the engine was built from.
    pub config: ArchConfig,
    /// The package-to-layer resolver derived from the configuration.
    pub resolver: LayerResolver,
}

impl ArchRuleEngine {
    /// Creates a new engine from config, building the layer resolver.
    pub fn new(config: ArchConfig) -> (r: ArchRuleEngine)
        ensures
            r.config == config,
            r.resolver.view_rows().to_multiset() == crate::layer::config_rows(
                config,
            ).to_multiset(),
            crate::layer::rows_len_sorted(r.resolver.view_rows()),
    {
        let resolver = LayerResolver::new(&config);
        ArchRuleEngine { config, resolver }
    }

    /// Checks a single file analysis for architecture violations: the
    /// layer-dependency findings, then the import-pattern findings, then
    /// the naming-rule findings.
    pub fn check(&self, analysis: &FileAnalysis) -> (r: Vec<Violation>)
        requires
            analysis_in_bounds(*analysis),
        ensures
            r@.map_values(|v: Violation| vmodel(v)) == spec_layer_dep_models(
                self.config,
                self.resolver.view_rows(),
                *analysis,
            ) + spec_pattern_models(self.config, self.resolver.view_rows(), *analysis)
                + spec_naming_models(self.config, self.resolver.view_rows(), *analysis),
    {
        let mut violations = self.check_layer_deps(analysis);
        let mut pattern = self.check_constraints(analysis);
        let mut naming = self.check_naming_rules(analysis);
        let ghost m = |v: Violation| vmodel(v);
        let ghost v0 = violations@;
        let ghost v1 = pattern@;
        let ghost v2 = naming@;
        violations.append(&mut pattern);
        violations.append(&mut naming);
        proof {
            assert(violations@.map_values(m) =~= v0.map_values(m) + v1.map_values(m)
                + v2.map_values(m));
        }
        violations
    }

    /// The layer this analysis's package belongs to, if any.
    fn from_layer<'a>(&'a self, analysis: &FileAnalysis) -> (r: Option<&'a str>)
        ensures
            match r {
                Some(l) => {
                    &&& spec_from_layer(self.resolver.view_rows(), *analysis) is Some
                    &&& l@ == spec_from_layer(self.resolver.view_rows(), *analysis)->0
                },
                None => spec_from_layer(self.resolver.view_rows(), *analysis) is None,
            },
    {
        match &analysis.package {
            None => None,
            Some(p) => self.resolver.resolve(p.path.as_str()),
        }
    }

    /// Checks the layer-dependency rules of one file.
    pub fn check_layer_deps(&self, analysis: &FileAnalysis) -> (r: Vec<Violation>)
        requires
            analysis_in_bounds(*analysis),
        ensures
            r@.map_values(|v: Violation| vmodel(v)) == spec_layer_dep_models(
                self.config,
                self.resolver.view_rows(),
                *analysis,
            ),
    {
        let ghost rows = self.resolver.view_rows();
        let from = match self.from_layer(analysis) {
            None => {
                let r: Vec<Violation> = Vec::new();
                proof {
                    assert(r@.map_values(|v: Violation| vmodel(v)) =~= Seq::<VioModel>::empty());
                }
                return r;
            },
            Some(f) => f,
        };
        let allowed: Vec<String> = match crate::arch_config::allowed_deps(
            &self.config.dependencies,
            from,
        ) {
            Some(v) => v.clone(),
            None => Vec::new(),
        };
        proof {
            assert(name_views(allowed@) =~= name_views(spec_allow_list(self.config, from@)));
        }
        let ghost fromv = from@;
        let ghost pred = |imp: ImportInfo|
            is_layer_dep_violation(rows, spec_allow_list(self.config, fromv), fromv, imp);
        let ghost f = |imp: ImportInfo| layer_dep_model(rows, analysis.file_path@, fromv, imp);
        let mut out: Vec<Violation> = Vec::new();
        let n = analysis.imports.len();
        let mut i: usize = 0;
        proof {
            assert(analysis.imports@.subrange(0, 0) =~= Seq::<ImportInfo>::empty());
            assert(out@.map_values(|v: Violation| vmodel(v)) =~= analysis.imports@.subrange(
                0,
                0,
            ).filter(pred).map_values(f));
        }
        while i < n
            invariant
                0 <= i <= n,
                n == analysis.imports@.len(),
                analysis_in_bounds(*analysis),
                rows == self.resolver.view_rows(),
                fromv == from@,
                spec_from_layer(rows, *analysis) == Some(fromv),
                name_views(allowed@) == name_views(spec_allow_list(self.config, fromv)),
                pred == |imp: ImportInfo|
                    is_layer_dep_violation(rows, spec_allow_list(self.config, fromv), fromv, imp),
                f == |imp: ImportInfo| layer_dep_model(rows, analysis.file_path@, fromv, imp),
                out@.map_values(|v: Violation| vmodel(v)) == analysis.imports@.subrange(
                    0,
                    i as int,
                ).filter(pred).map_values(f),
            decreases n - i,
        {
            let imp = &analysis.imports[i];
            proof {
                crate::types::lemma_filter_push(
                    analysis.imports@.subrange(0, i as int),
                    analysis.imports@[i as int],
                    pred,
                );
                assert(analysis.imports@.subrange(0, i + 1) =~= analysis.imports@.subrange(
                    0,
                    i as int,
                ).push(analysis.imports@[i as int]));
            }
            let ghost old_out = out@;
            match self.resolver.resolve(imp.path.as_str()) {
                None => {
                    proof {
                        assert(!pred(analysis.imports@[i as int]));
                    }
                },
                Some(to) => {
                    if !str_eq(to, from) && !crate::arch_config::list_contains(&allowed, to) {
                        proof {
                            assert(pred(analysis.imports@[i as int]));
                        }
                        let mut msg = from.to_owned();
                        msg.append(" -> ");
                        msg.append(to);
                        msg.append(" dependency not allowed");
                        let v = Violation::new(
                            "LAYER001".to_owned(),
                            "layer-dependency".to_owned(),
                            Severity::Error,
                            Location::new(analysis.file_path.clone(), imp.line, imp.column + 1),
                            msg,
                        );
                        out.push(v);
                        proof {
                            assert(vmodel(out@.last()) == f(analysis.imports@[i as int]));
                            assert(out@.map_values(|x: Violation| vmodel(x)) =~= old_out.map_values(
                                |x: Violation| vmodel(x),
                            ).push(f(analysis.imports@[i as int])));
                        }
                    } else {
                        proof {
                            assert(names_contain(name_views(allowed@), to@) ==> names_contain(
                                name_views(spec_allow_list(self.config, fromv)),
                                to@,
                            ));
                            assert(!pred(analysis.imports@[i as int]));
                        }
                    }
                },
            }
            i = i + 1;
        }
        proof {
            assert(analysis.imports@.subrange(0, n as int) =~= analysis.imports@);
        }
        out
    }

    /// Checks the import-pattern constraints of one file.
    pub fn check_constraints(&self, analysis: &FileAnalysis) -> (r: Vec<Violation>)
        requires
            analysis_in_bounds(*analysis),
        ensures
            r@.map_values(|v: Violation| vmodel(v)) == spec_pattern_models(
                self.config,
                self.resolver.view_rows(),
                *analysis,
            ),
    {
        let ghost rows = self.resolver.view_rows();
        let from = match self.from_layer(analysis) {
            None => {
                let r: Vec<Violation> = Vec::new();
                proof {
                    assert(r@.map_values(|v: Violation| vmodel(v)) =~= Seq::<VioModel>::empty());
                }
                return r;
            },
            Some(f) => f,
        };
        let ghost fromv = from@;
        let ghost g = |con: Constraint| spec_pattern_models_one(fromv, *analysis, con);
        let mut out: Vec<Violation> = Vec::new();
        let nc = self.config.constraints.len();
        let mut ci: usize = 0;
        proof {
            assert(self.config.constraints@.subrange(0, 0) =~= Seq::<Constraint>::empty());
            assert(out@.map_values(|v: Violation| vmodel(v)) =~= concat_map(
                self.config.constraints@.subrange(0, 0),
                g,
            ));
        }
        while ci < nc
            invariant
                0 <= ci <= nc,
                nc == self.config.constraints@.len(),
                analysis_in_bounds(*analysis),
                rows == self.resolver.view_rows(),
                fromv == from@,
                spec_from_layer(rows, *analysis) == Some(fromv),
                g == |con: Constraint| spec_pattern_models_one(fromv, *analysis, con),
                out@.map_values(|v: Violation| vmodel(v)) == concat_map(
                    self.config.constraints@.subrange(0, ci as int),
                    g,
                ),
            decreases nc - ci,
        {
            let c = &self.config.constraints[ci];
            proof {
                lemma_concat_map_push(self.config.constraints@.subrange(0, ci as int), *c, g);
                assert(self.config.constraints@.subrange(0, ci + 1)
                    =~= self.config.constraints@.subrange(0, ci as int).push(*c));
            }
            let applies = str_eq(c.kind.as_str(), "no-import-pattern") && crate::arch_config::list_contains(
                &c.in_layers,
                from,
            );
            if applies {
                let ghost pred = |imp: ImportInfo| contains_seq(imp.path@, c.pattern@);
                let ghost fm = |imp: ImportInfo|
                    (
                        "PATTERN001"@,
                        "import-pattern"@,
                        c.severity,
                        analysis.file_path@,
                        imp.line as nat,
                        (imp.column + 1) as nat,
                        c.message@,
                        None::<Seq<char>>,
                        None::<Seq<char>>,
                    );
                let ghost out_before = out@;
                let n = analysis.imports.len();
                let mut i: usize = 0;
                proof {
                    assert(analysis.imports@.subrange(0, 0) =~= Seq::<ImportInfo>::empty());
                    assert(out@.map_values(|v: Violation| vmodel(v)) =~= out_before.map_values(
                        |v: Violation| vmodel(v),
                    ) + analysis.imports@.subrange(0, 0).filter(pred).map_values(fm));
                }
                while i < n
                    invariant
                        0 <= i <= n,
                        0 <= ci < self.config.constraints@.len(),
                        n == analysis.imports@.len(),
                        analysis_in_bounds(*analysis),
                        *c == self.config.constraints@[ci as int],
                        pred == |imp: ImportInfo| contains_seq(imp.path@, c.pattern@),
                        fm == |imp: ImportInfo|
                            (
                                "PATTERN001"@,
                                "import-pattern"@,
                                c.severity,
                                analysis.file_path@,
                                imp.line as nat,
                                (imp.column + 1) as nat,
                                c.message@,
                                None::<Seq<char>>,
                                None::<Seq<char>>,
                            ),
                        out@.map_values(|v: Violation| vmodel(v)) == out_before.map_values(
                            |v: Violation| vmodel(v),
                        ) + analysis.imports@.subrange(0, i as int).filter(pred).map_values(fm),
                    decreases n - i,
                {
                    let imp = &analysis.imports[i];
                    proof {
                        crate::types::lemma_filter_push(
                            analysis.imports@.subrange(0, i as int),
                            analysis.imports@[i as int],
                            pred,
                        );
                        assert(analysis.imports@.subrange(0, i + 1) =~= analysis.imports@.subrange(
                            0,
                            i as int,
                        ).push(analysis.imports@[i as int]));
                    }
                    let ghost old_out = out@;
                    if contains_str(imp.path.as_str(), c.pattern.as_str()) {
                        let v = Violation::new(
                            "PATTERN001".to_owned(),
                            "import-pattern".to_owned(),
                            c.severity,
                            Location::new(analysis.file_path.clone(), imp.line, imp.column + 1),
                            c.message.clone(),
                        );
                        out.push(v);
                        proof {
                            assert(vmodel(out@.last()) == fm(analysis.imports@[i as int]));
                            assert(out@.map_values(|x: Violation| vmodel(x)) =~= old_out.map_values(
                                |x: Violation| vmodel(x),
                            ).push(fm(analysis.imports@[i as int])));
                        }
                    }
                    i = i + 1;
                }
                proof {
                    assert(analysis.imports@.subrange(0, n as int) =~= analysis.imports@);
                    assert(g(*c) == analysis.imports@.filter(pred).map_values(fm));
                    assert(out@.map_values(|v: Violation| vmodel(v)) =~= concat_map(
                        self.config.constraints@.subrange(0, ci + 1),
                        g,
                    ));
                }
            } else {
                proof {
                    assert(g(*c) =~= Seq::<VioModel>::empty());
                    assert(out@.map_values(|v: Violation| vmodel(v)) =~= concat_map(
                        self.config.constraints@.subrange(0, ci + 1),
                        g,
                    ));
                }
            }
            ci = ci + 1;
        }
        proof {
            assert(self.config.constraints@.subrange(0, nc as int) =~= self.config.constraints@);
        }
        out
    }

    /// Checks the naming-rule constraints of one file.
    pub fn check_naming_rules(&self, analysis: &FileAnalysis) -> (r: Vec<Violation>)
        requires
            analysis_in_bounds(*analysis),
        ensures
            r@.map_values(|v: Violation| vmodel(v)) == spec_naming_models(
                self.config,
                self.resolver.view_rows(),
                *analysis,
            ),
    {
        let ghost rows = self.resolver.view_rows();
        let from = match self.from_layer(analysis) {
            None => {
                let r: Vec<Violation> = Vec::new();
                proof {
                    assert(r@.map_values(|v: Violation| vmodel(v)) =~= Seq::<VioModel>::empty());
                }
                return r;
            },
            Some(f) => f,
        };
        let ghost fromv = from@;
        let ghost g = |con: Constraint| spec_naming_models_one(fromv, *analysis, con);
        let mut out: Vec<Violation> = Vec::new();
        let nc = self.config.constraints.len();
        let mut ci: usize = 0;
        proof {
            assert(self.config.constraints@.subrange(0, 0) =~= Seq::<Constraint>::empty());
            assert(out@.map_values(|v: Violation| vmodel(v)) =~= concat_map(
                self.config.constraints@.subrange(0, 0),
                g,
            ));
        }
        while ci < nc
            invariant
                0 <= ci <= nc,
                nc == self.config.constraints@.len(),
                analysis_in_bounds(*analysis),
                rows == self.resolver.view_rows(),
                fromv == from@,
                spec_from_layer(rows, *analysis) == Some(fromv),
                g == |con: Constraint| spec_naming_models_one(fromv, *analysis, con),
                out@.map_values(|v: Violation| vmodel(v)) == concat_map(
                    self.config.constraints@.subrange(0, ci as int),
                    g,
                ),
            decreases nc - ci,
        {
            let c = &self.config.constraints[ci];
            proof {
                lemma_concat_map_push(self.config.constraints@.subrange(0, ci as int), *c, g);
                assert(self.config.constraints@.subrange(0, ci + 1)
                    =~= self.config.constraints@.subrange(0, ci as int).push(*c));
            }
            let applies = str_eq(c.kind.as_str(), "naming-rule") && crate::arch_config::list_contains(
                &c.in_layers,
                from,
            ) && c.import_matches.as_str().unicode_len() > 0;
            if applies {
                let ghost h = |imp: ImportInfo| spec_naming_models_import(*analysis, *c, imp);
                let ghost out_before = out@;
                let n = analysis.imports.len();
                let mut i: usize = 0;
                proof {
                    assert(analysis.imports@.subrange(0, 0) =~= Seq::<ImportInfo>::empty());
                    assert(out@.map_values(|v: Violation| vmodel(v)) =~= out_before.map_values(
                        |v: Violation| vmodel(v),
                    ) + concat_map(analysis.imports@.subrange(0, 0), h));
                }
                while i < n
                    invariant
                        0 <= i <= n,
                        0 <= ci < self.config.constraints@.len(),
                        n == analysis.imports@.len(),
                        analysis_in_bounds(*analysis),
                        *c == self.config.constraints@[ci as int],
                        h == |imp: ImportInfo| spec_naming_models_import(*analysis, *c, imp),
                        out@.map_values(|v: Violation| vmodel(v)) == out_before.map_values(
                            |v: Violation| vmodel(v),
                        ) + concat_map(analysis.imports@.subrange(0, i as int), h),
                    decreases n - i,
                {
                    let imp = &analysis.imports[i];
                    proof {
                        lemma_concat_map_push(
                            analysis.imports@.subrange(0, i as int),
                            analysis.imports@[i as int],
                            h,
                        );
                        assert(analysis.imports@.subrange(0, i + 1) =~= analysis.imports@.subrange(
                            0,
                            i as int,
                        ).push(analysis.imports@[i as int]));
                    }
                    let ghost old_out = out@;
                    if contains_str(imp.path.as_str(), c.import_matches.as_str()) {
                        let ghost vm = (
                            "NAMING001"@,
                            "naming-rule"@,
                            c.severity,
                            analysis.file_path@,
                            imp.line as nat,
                            (imp.column + 1) as nat,
                            c.message@,
                            None::<Seq<char>>,
                            None::<Seq<char>>,
                        );
                        let mut emitted: usize = 0;
                        let must_len = c.source_must_match.as_str().unicode_len();
                        if must_len > 0 && !some_decl_contains_exec(
                            &analysis.declarations,
                            c.source_must_match.as_str(),
                        ) {
                            let v = Violation::new(
                                "NAMING001".to_owned(),
                                "naming-rule".to_owned(),
                                c.severity,
                                Location::new(
                                    analysis.file_path.clone(),
                                    imp.line,
                                    imp.column + 1,
                                ),
                                c.message.clone(),
                            );
                            out.push(v);
                        }
                        let ghost mid_out = out@;
                        let must_not_len = c.source_must_not_match.as_str().unicode_len();
                        if must_not_len > 0 && some_decl_contains_exec(
                            &analysis.declarations,
                            c.source_must_not_match.as_str(),
                        ) {
                            let v = Violation::new(
                                "NAMING001".to_owned(),
                                "naming-rule".to_owned(),
                                c.severity,
                                Location::new(
                                    analysis.file_path.clone(),
                                    imp.line,
                                    imp.column + 1,
                                ),
                                c.message.clone(),
                            );
                            out.push(v);
                        }
                        proof {
                            let m = |x: Violation| vmodel(x);
                            let must = if c.source_must_match@.len() > 0 && !some_decl_contains(
                                analysis.declarations@,
                                c.source_must_match@,
                            ) {
                                seq![vm]
                            } else {
                                Seq::<VioModel>::empty()
                            };
                            let must_not = if c.source_must_not_match@.len() > 0
                                && some_decl_contains(
                                analysis.declarations@,
                                c.source_must_not_match@,
                            ) {
                                seq![vm]
                            } else {
                                Seq::<VioModel>::empty()
                            };
                            assert(mid_out.map_values(m) =~= old_out.map_values(m) + must);
                            assert(out@.map_values(m) =~= mid_out.map_values(m) + must_not);
                            assert(h(analysis.imports@[i as int]) == must + must_not);
                            assert(out@.map_values(m) =~= old_out.map_values(m) + h(
                                analysis.imports@[i as int],
                            ));
                        }
                    } else {
                        proof {
                            assert(h(analysis.imports@[i as int]) =~= Seq::<VioModel>::empty());
                            assert(out@.map_values(|x: Violation| vmodel(x)) =~= old_out.map_values(
                                |x: Violation| vmodel(x),
                            ) + h(analysis.imports@[i as int]));
                        }
                    }
                    i = i + 1;
                }
                proof {
                    assert(analysis.imports@.subrange(0, n as int) =~= analysis.imports@);
                    assert(g(*c) == concat_map(analysis.imports@, h));
                    assert(out@.map_values(|v: Violation| vmodel(v)) =~= concat_map(
                        self.config.constraints@.subrange(0, ci + 1),
                        g,
                    ));
                }
            } else {
                proof {
                    assert(g(*c) =~= Seq::<VioModel>::empty());
                    assert(out@.map_values(|v: Violation| vmodel(v)) =~= concat_map(
                        self.config.constraints@.subrange(0, ci + 1),
                        g,
                    ));
                }
            }
            ci = ci + 1;
        }
        proof {
            assert(self.config.constraints@.subrange(0, nc as int) =~= self.config.constraints@);
        }
        out
    }
}

/// Whether some declaration's name contains the given fragment.
fn some_decl_contains_exec(decls: &Vec<DeclInfo>, frag: &str) -> (r: bool)
    ensures
        r == some_decl_contains(decls@, frag@),
{
    let n = decls.len();
    let mut i: usize = 0;
    while i < n
        invariant
            0 <= i <= n,
            n == decls@.len(),
            forall|j: int| 0 <= j < i ==> !contains_seq((#[trigger] decls@[j]).name@, frag@),
        decreases n - i,
    {
        if contains_str(decls[i].name.as_str(), frag) {
            assert(contains_seq(decls@[i as int].name@, frag@));
            return true;
        }
        i = i + 1;
    }
    false
}

} // verus!
