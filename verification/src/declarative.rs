//! Declarative rule implementations.
//!
//! Turns the validated [`DeclarativeConfig`] into the three per-file
//! rule kinds: restrict-use, require-use, and deny-scope-dep. Each
//! rule consumes the file's expanded import list.

use vstd::prelude::*;

verus! {

broadcast use vstd::std_specs::vec::axiom_vec_index_decreases;

use std::sync::Arc;

use crate::model::{
    any_deny_hit,
    DeclarativeConfig,
    RestrictUse,
    RequireUse,
    ScopeDep,
    scope_name_views,
    spec_scope_ref_contains,
};
use crate::sequtil::{concat_map, lemma_concat_map_push};
use crate::severity::Severity;
use crate::strutil::{str_eq, str_views};
use crate::types::{vmodel, Location, Violation};

/// Relies on `Arc::clone` of the standard library: the clone points to
/// the same underlying value.
#[verifier::external_body]
pub fn arc_clone<T>(v: &Arc<T>) -> (r: Arc<T>)
    ensures
        r == *v,
{
    Arc::clone(v)
}

/// A use declaration's tree, as extracted from one `use` item: paths,
/// leaves, renames, globs, and brace groups.
#[derive(Debug)]
pub enum UseTree {
    /// A path segment followed by the rest of the tree.
    Path {
        /// The segment identifier.
        ident: String,
        /// 1-indexed line of the segment identifier.
        line: usize,
        /// 0-indexed column of the segment identifier.
        column: usize,
        /// The rest of the tree.
        rest: Box<UseTree>,
    },
    /// A final identifier.
    Name {
        /// The identifier.
        ident: String,
        /// 1-indexed line of the identifier.
        line: usize,
        /// 0-indexed column of the identifier.
        column: usize,
    },
    /// A renamed final identifier; flagged under the original name.
    Rename {
        /// The original identifier.
        ident: String,
        /// The new name.
        rename: String,
        /// 1-indexed line of the identifier.
        line: usize,
        /// 0-indexed column of the identifier.
        column: usize,
    },
    /// A glob import.
    Glob {
        /// 1-indexed line of the star.
        line: usize,
        /// 0-indexed column of the star.
        column: usize,
    },
    /// A brace group of subtrees.
    Group {
        /// The grouped subtrees.
        items: Vec<UseTree>,
    },
}

/// A resolved use-path with its source position: the position of the
/// path's head segment, so findings point at the start of the denied
/// path.
#[derive(Debug, Clone)]
pub struct ResolvedUse {
    /// Full dotted path like `sqlx::Pool`.
    pub path: String,
    /// 1-indexed line of the path's head segment.
    pub line: usize,
    /// 0-indexed column of the path's head segment.
    pub column: usize,
}

/// The model of a resolved use: its path, line, and column.
pub open spec fn ru_model(u: ResolvedUse) -> (Seq<char>, nat, nat) {
    (u.path@, u.line as nat, u.column as nat)
}

/// A prefix joined to a segment with `::`, or the segment alone.
pub open spec fn join_pref(prefix: Seq<char>, ident: Seq<char>) -> Seq<char> {
    if prefix.len() == 0 {
        ident
    } else {
        prefix + seq![':', ':'] + ident
    }
}

/// The position a leaf reports: the inherited head position when the
/// leaf sits under a path, its own position otherwise.
pub open spec fn leaf_pos(head: Option<(nat, nat)>, line: nat, column: nat) -> (nat, nat) {
    match head {
        Some(p) => p,
        None => (line, column),
    }
}

/// The flat expansion of a use tree under a prefix and an inherited
/// head position: every leaf's fully qualified path, positioned at the
/// head of its path (a glob leaf rendered as `*`, a rename flagged
/// under its original name).
pub open spec fn spec_expand_at(
    tree: UseTree,
    prefix: Seq<char>,
    head: Option<(nat, nat)>,
) -> Seq<(Seq<char>, nat, nat)>
    decreases tree, 1int, 0int,
{
    match tree {
        UseTree::Path { ident, line, column, rest } => spec_expand_at(
            *rest,
            join_pref(prefix, ident@),
            match head {
                Some(p) => Some(p),
                None => Some((line as nat, column as nat)),
            },
        ),
        UseTree::Name { ident, line, column } => {
            let p = leaf_pos(head, line as nat, column as nat);
            seq![(join_pref(prefix, ident@), p.0, p.1)]
        },
        UseTree::Rename { ident, rename: _, line, column } => {
            let p = leaf_pos(head, line as nat, column as nat);
            seq![(join_pref(prefix, ident@), p.0, p.1)]
        },
        UseTree::Glob { line, column } => {
            let p = leaf_pos(head, line as nat, column as nat);
            seq![(join_pref(prefix, seq!['*']), p.0, p.1)]
        },
        UseTree::Group { items } => spec_expand_group(items, prefix, head, items.len() as int),
    }
}

/// The flat expansion of a use tree: its leaves positioned at the head
/// of their paths.
pub open spec fn spec_expand(tree: UseTree, prefix: Seq<char>) -> Seq<(Seq<char>, nat, nat)> {
    spec_expand_at(tree, prefix, None)
}

/// The expansion of the first `n` subtrees of a group.
pub open spec fn spec_expand_group(
    items: Vec<UseTree>,
    prefix: Seq<char>,
    head: Option<(nat, nat)>,
    n: int,
) -> Seq<(Seq<char>, nat, nat)>
    decreases items, 0int, n,
{
    if n <= 0 || items.len() < n {
        Seq::empty()
    } else {
        spec_expand_group(items, prefix, head, n - 1) + spec_expand_at(
            items[n - 1],
            prefix,
            head,
        )
    }
}

/// The model of an inherited head position.
pub open spec fn head_model(h: Option<(usize, usize)>) -> Option<(nat, nat)> {
    match h {
        Some(p) => Some((p.0 as nat, p.1 as nat)),
        None => None,
    }
}

/// Recursively expands a use tree into flat `::`-separated paths, each
/// positioned at the head of its path.
///
/// For example, `use std::collections::{HashMap, BTreeMap};` expands to
/// `std::collections::HashMap` and `std::collections::BTreeMap`, both
/// at the position of `std`.
pub fn expand_use_tree(tree: &UseTree, prefix: &str) -> (r: Vec<ResolvedUse>)
    ensures
        r@.map_values(|u: ResolvedUse| ru_model(u)) == spec_expand(*tree, prefix@),
{
    expand_at(tree, prefix, None)
}

/// Expands a use tree under an inherited head position.
fn expand_at(tree: &UseTree, prefix: &str, head: Option<(usize, usize)>) -> (r: Vec<ResolvedUse>)
    ensures
        r@.map_values(|u: ResolvedUse| ru_model(u)) == spec_expand_at(
            *tree,
            prefix@,
            head_model(head),
        ),
    decreases *tree, 1int, 0int,
{
    broadcast use vstd::std_specs::vec::axiom_vec_index_decreases;

    let ghost m = |u: ResolvedUse| ru_model(u);
    match tree {
        UseTree::Path { ident, line, column, rest } => {
            let new_prefix = join_prefix_exec(prefix, ident.as_str());
            let new_head = match head {
                Some(p) => Some(p),
                None => Some((*line, *column)),
            };
            expand_at(rest, new_prefix.as_str(), new_head)
        },
        UseTree::Name { ident, line, column } => {
            let path = join_prefix_exec(prefix, ident.as_str());
            let (pl, pc) = match head {
                Some(p) => p,
                None => (*line, *column),
            };
            let mut out: Vec<ResolvedUse> = Vec::new();
            out.push(ResolvedUse { path, line: pl, column: pc });
            proof {
                assert(out@.map_values(m) =~= spec_expand_at(*tree, prefix@, head_model(head)));
            }
            out
        },
        UseTree::Rename { ident, rename: _, line, column } => {
            let path = join_prefix_exec(prefix, ident.as_str());
            let (pl, pc) = match head {
                Some(p) => p,
                None => (*line, *column),
            };
            let mut out: Vec<ResolvedUse> = Vec::new();
            out.push(ResolvedUse { path, line: pl, column: pc });
            proof {
                assert(out@.map_values(m) =~= spec_expand_at(*tree, prefix@, head_model(head)));
            }
            out
        },
        UseTree::Glob { line, column } => {
            let path = join_prefix_exec(prefix, "*");
            let (pl, pc) = match head {
                Some(p) => p,
                None => (*line, *column),
            };
            let mut out: Vec<ResolvedUse> = Vec::new();
            out.push(ResolvedUse { path, line: pl, column: pc });
            proof {
                reveal_strlit("*");
                assert("*"@ =~= seq!['*']);
                assert(out@.map_values(m) =~= spec_expand_at(*tree, prefix@, head_model(head)));
            }
            out
        },
        UseTree::Group { items } => expand_group_exec(items, prefix, head, items.len()),
    }
}

/// Expands the first `n` subtrees of a brace group.
fn expand_group_exec(
    items: &Vec<UseTree>,
    prefix: &str,
    head: Option<(usize, usize)>,
    n: usize,
) -> (r: Vec<ResolvedUse>)
    requires
        n <= items@.len(),
    ensures
        r@.map_values(|u: ResolvedUse| ru_model(u)) == spec_expand_group(
            *items,
            prefix@,
            head_model(head),
            n as int,
        ),
    decreases *items, 0int, n as int,
{
    let ghost m = |u: ResolvedUse| ru_model(u);
    if n == 0 {
        let out: Vec<ResolvedUse> = Vec::new();
        proof {
            assert(out@.map_values(m) =~= spec_expand_group(*items, prefix@, head_model(head), 0));
        }
        out
    } else {
        let mut out = expand_group_exec(items, prefix, head, n - 1);
        let mut sub = expand_at(&items[n - 1], prefix, head);
        let ghost out_before = out@;
        let ghost sub_view = sub@;
        out.append(&mut sub);
        proof {
            assert(out@.map_values(m) =~= out_before.map_values(m) + sub_view.map_values(m));
        }
        out
    }
}

/// Joins a prefix and a segment with `::`, or returns the segment.
fn join_prefix_exec(prefix: &str, ident: &str) -> (r: String)
    ensures
        r@ == join_pref(prefix@, ident@),
{
    if prefix.unicode_len() == 0 {
        ident.to_owned()
    } else {
        let mut out = prefix.to_owned();
        out.append("::");
        out.append(ident);
        proof {
            reveal_strlit("::");
            assert("::"@ =~= seq![':', ':']);
            assert(out@ =~= prefix@ + seq![':', ':'] + ident@);
        }
        out
    }
}

/// The full expansion of a file's use declarations, in order.
pub open spec fn spec_all_uses(trees: Seq<UseTree>) -> Seq<(Seq<char>, nat, nat)> {
    concat_map(trees, |t: UseTree| spec_expand(t, Seq::empty()))
}

/// Expands every use declaration of a file, in order.
pub fn expand_all(trees: &Vec<UseTree>) -> (r: Vec<ResolvedUse>)
    ensures
        r@.map_values(|u: ResolvedUse| ru_model(u)) == spec_all_uses(trees@),
{
    let ghost m = |u: ResolvedUse| ru_model(u);
    let ghost g = |t: UseTree| spec_expand(t, Seq::<char>::empty());
    let mut out: Vec<ResolvedUse> = Vec::new();
    let n = trees.len();
    let mut i: usize = 0;
    proof {
        assert(trees@.subrange(0, 0) =~= Seq::<UseTree>::empty());
        assert(out@.map_values(m) =~= concat_map(trees@.subrange(0, 0), g));
    }
    while i < n
        invariant
            0 <= i <= n,
            n == trees@.len(),
            m == |u: ResolvedUse| ru_model(u),
            g == |t: UseTree| spec_expand(t, Seq::<char>::empty()),
            out@.map_values(m) == concat_map(trees@.subrange(0, i as int), g),
        decreases n - i,
    {
        let empty_prefix = String::new();
        let mut sub = expand_use_tree(&trees[i], empty_prefix.as_str());
        let ghost out_before = out@;
        let ghost sub_view = sub@;
        out.append(&mut sub);
        proof {
            lemma_concat_map_push(trees@.subrange(0, i as int), trees@[i as int], g);
            assert(trees@.subrange(0, i + 1) =~= trees@.subrange(0, i as int).push(
                trees@[i as int],
            ));
            assert(out@.map_values(m) =~= out_before.map_values(m) + sub_view.map_values(m));
        }
        i = i + 1;
    }
    proof {
        assert(trees@.subrange(0, n as int) =~= trees@);
    }
    out
}

/// The model of one violation.
pub type VioModel = (
    Seq<char>,
    Seq<char>,
    Severity,
    Seq<char>,
    nat,
    nat,
    Seq<char>,
    Option<Seq<char>>,
    Option<Seq<char>>,
);

/// The document reference of a rule, as an optional view.
pub open spec fn doc_view(d: Option<String>) -> Option<Seq<char>> {
    match d {
        Some(s) => Some(s@),
        None => None,
    }
}

/// The restrict-use finding for one denied import.
pub open spec fn restrict_model(
    rule: RestrictUse,
    rel: Seq<char>,
    u: (Seq<char>, nat, nat),
) -> VioModel {
    (
        "ALD001"@,
        rule.spec_name(),
        rule.spec_severity(),
        rel,
        u.1,
        u.2 + 1,
        rule.spec_message() + ": `"@ + u.0 + "`"@,
        doc_view(rule.spec_doc_ref()),
        None,
    )
}

/// All restrict-use findings of a file: for each expanded import in
/// order, for each applicable rule in order, a finding when the import
/// is denied.
pub open spec fn spec_restrict_models(
    config: DeclarativeConfig,
    rel: Seq<char>,
    trees: Seq<UseTree>,
) -> Seq<VioModel> {
    let applicable = config.spec_restrict_uses().filter(
        |r: RestrictUse| spec_scope_ref_contains(config.spec_scopes(), r.spec_scope(), rel),
    );
    concat_map(
        spec_all_uses(trees),
        |u: (Seq<char>, nat, nat)|
            concat_map(
                applicable,
                |r: RestrictUse|
                    if any_deny_hit(r.spec_deny(), u.0) {
                        seq![restrict_model(r, rel, u)]
                    } else {
                        Seq::empty()
                    },
            ),
    )
}

/// A per-file rule that enforces restrict-use declarations: within the
/// rule's scope, flags every import that matches a deny pattern.
pub struct RestrictUseRule {
    /// The validated configuration the rule draws its entries from.
    pub config: Arc<DeclarativeConfig>,
}

/// Every use position leaves room for 1-indexing the column.
pub open spec fn uses_in_bounds(uses: Seq<(Seq<char>, nat, nat)>) -> bool {
    forall|i: int| 0 <= i < uses.len() ==> (#[trigger] uses[i]).2 < usize::MAX
}

impl RestrictUseRule {
    /// Creates a new restrict-use rule backed by the given config.
    pub fn new(config: Arc<DeclarativeConfig>) -> (r: RestrictUseRule)
        ensures
            r.config == config,
    {
        RestrictUseRule { config }
    }

    /// The rule's kebab-case name.
    pub fn name(&self) -> (r: &'static str)
        ensures
            r@ == "restrict-use"@,
    {
        "restrict-use"
    }

    /// The rule's stable code.
    pub fn code(&self) -> (r: &'static str)
        ensures
            r@ == "ALD001"@,
    {
        "ALD001"
    }

    /// Checks one file's use declarations against the applicable
    /// restrict-use entries.
    pub fn check(&self, relative_path: &str, trees: &Vec<UseTree>) -> (r: Vec<Violation>)
        requires
            uses_in_bounds(spec_all_uses(trees@)),
        ensures
            r@.map_values(|v: Violation| vmodel(v)) == spec_restrict_models(
                *self.config,
                relative_path@,
                trees@,
            ),
    {
        let config = &*self.config;
        let ghost keep = |rl: RestrictUse|
            spec_scope_ref_contains(config.spec_scopes(), rl.spec_scope(), relative_path@);
        let rules = config.restrict_uses();
        let mut applicable: Vec<&RestrictUse> = Vec::new();
        let nr = rules.len();
        let mut i: usize = 0;
        proof {
            assert(applicable@.map_values(|x: &RestrictUse| *x) =~= config.spec_restrict_uses()
                .subrange(0, 0).filter(keep));
        }
        while i < nr
            invariant
                0 <= i <= nr,
                nr == config.spec_restrict_uses().len(),
                rules@ == config.spec_restrict_uses(),
                keep == |rl: RestrictUse|
                    spec_scope_ref_contains(
                        config.spec_scopes(),
                        rl.spec_scope(),
                        relative_path@,
                    ),
                applicable@.map_values(|x: &RestrictUse| *x) == config.spec_restrict_uses()
                    .subrange(0, i as int).filter(keep),
            decreases nr - i,
        {
            proof {
                crate::types::lemma_filter_push(
                    config.spec_restrict_uses().subrange(0, i as int),
                    config.spec_restrict_uses()[i as int],
                    keep,
                );
                assert(config.spec_restrict_uses().subrange(0, i + 1)
                    =~= config.spec_restrict_uses().subrange(0, i as int).push(
                    config.spec_restrict_uses()[i as int],
                ));
            }
            let ghost old_app = applicable@;
            if config.scope_ref_contains(rules[i].scope(), relative_path) {
                applicable.push(&rules[i]);
                proof {
                    assert(applicable@.map_values(|x: &RestrictUse| *x) =~= old_app.map_values(
                        |x: &RestrictUse| *x,
                    ).push(config.spec_restrict_uses()[i as int]));
                }
            }
            i = i + 1;
        }
        proof {
            assert(config.spec_restrict_uses().subrange(0, nr as int) =~= config
                .spec_restrict_uses());
        }
        let uses = expand_all(trees);
        let ghost app_seq = config.spec_restrict_uses().filter(keep);
        let ghost h = |u: (Seq<char>, nat, nat)|
            concat_map(
                app_seq,
                |r: RestrictUse|
                    if any_deny_hit(r.spec_deny(), u.0) {
                        seq![restrict_model(r, relative_path@, u)]
                    } else {
                        Seq::<VioModel>::empty()
                    },
            );
        let ghost um = |u: ResolvedUse| ru_model(u);
        let ghost vm = |v: Violation| vmodel(v);
        let mut out: Vec<Violation> = Vec::new();
        let nu = uses.len();
        let mut ui: usize = 0;
        proof {
            assert(uses@.map_values(um).subrange(0, 0) =~= Seq::<(Seq<char>, nat, nat)>::empty());
            assert(out@.map_values(vm) =~= concat_map(uses@.map_values(um).subrange(0, 0), h));
        }
        while ui < nu
            invariant
                0 <= ui <= nu,
                nu == uses@.len(),
                uses@.map_values(um) == spec_all_uses(trees@),
                uses_in_bounds(spec_all_uses(trees@)),
                app_seq == config.spec_restrict_uses().filter(keep),
                applicable@.map_values(|x: &RestrictUse| *x) == app_seq,
                keep == |rl: RestrictUse|
                    spec_scope_ref_contains(
                        config.spec_scopes(),
                        rl.spec_scope(),
                        relative_path@,
                    ),
                um == |u: ResolvedUse| ru_model(u),
                vm == |v: Violation| vmodel(v),
                h == |u: (Seq<char>, nat, nat)|
                    concat_map(
                        app_seq,
                        |r: RestrictUse|
                            if any_deny_hit(r.spec_deny(), u.0) {
                                seq![restrict_model(r, relative_path@, u)]
                            } else {
                                Seq::<VioModel>::empty()
                            },
                    ),
                out@.map_values(vm) == concat_map(
                    uses@.map_values(um).subrange(0, ui as int),
                    h,
                ),
            decreases nu - ui,
        {
            let u = &uses[ui];
            let ghost uref = uses@.map_values(um)[ui as int];
            proof {
                lemma_concat_map_push(
                    uses@.map_values(um).subrange(0, ui as int),
                    uref,
                    h,
                );
                assert(uses@.map_values(um).subrange(0, ui + 1) =~= uses@.map_values(um).subrange(
                    0,
                    ui as int,
                ).push(uref));
                assert(uref == ru_model(uses@[ui as int]));
            }
            let ghost g2 = |r: RestrictUse|
                if any_deny_hit(r.spec_deny(), uref.0) {
                    seq![restrict_model(r, relative_path@, uref)]
                } else {
                    Seq::<VioModel>::empty()
                };
            let na = applicable.len();
            let mut ai: usize = 0;
            let ghost out_before = out@;
            proof {
                assert(out@.map_values(vm) =~= out_before.map_values(vm) + concat_map(
                    app_seq.subrange(0, 0),
                    g2,
                ));
            }
            while ai < na
                invariant
                    0 <= ai <= na,
                    0 <= ui < uses@.len(),
                    na == app_seq.len(),
                    applicable@.map_values(|x: &RestrictUse| *x) == app_seq,
                    uses@.map_values(um) == spec_all_uses(trees@),
                    uses_in_bounds(spec_all_uses(trees@)),
                    uref == uses@.map_values(um)[ui as int],
                    uref == ru_model(uses@[ui as int]),
                    um == |u: ResolvedUse| ru_model(u),
                    vm == |v: Violation| vmodel(v),
                    g2 == |r: RestrictUse|
                        if any_deny_hit(r.spec_deny(), uref.0) {
                            seq![restrict_model(r, relative_path@, uref)]
                        } else {
                            Seq::<VioModel>::empty()
                        },
                    u.path@ == uref.0,
                    u.line as nat == uref.1,
                    u.column as nat == uref.2,
                    out@.map_values(vm) == out_before.map_values(vm) + concat_map(
                        app_seq.subrange(0, ai as int),
                        g2,
                    ),
                decreases na - ai,
            {
                let rule = applicable[ai];
                proof {
                    assert(applicable@.map_values(|x: &RestrictUse| *x)[ai as int] == app_seq[ai as int]);
                    lemma_concat_map_push(app_seq.subrange(0, ai as int), app_seq[ai as int], g2);
                    assert(app_seq.subrange(0, ai + 1) =~= app_seq.subrange(0, ai as int).push(
                        app_seq[ai as int],
                    ));
                    assert(uses@.map_values(um)[ui as int].2 < usize::MAX);
                }
                let ghost old_out = out@;
                proof {
                    assert(spec_all_uses(trees@)[ui as int] == uref);
                    assert(uref.2 < usize::MAX);
                    assert(*rule == app_seq[ai as int]);
                    assert(uref == ru_model(uses@[ui as int]));
                }
                if rule.is_denied(u.path.as_str()) {
                    let mut msg = rule.message().to_owned();
                    msg.append(": `");
                    msg.append(u.path.as_str());
                    msg.append("`");
                    proof {
                        assert(uref.0 == u.path@);
                        assert(msg@ =~= app_seq[ai as int].spec_message() + ": `"@ + uref.0
                            + "`"@);
                    }
                    let mut v = Violation::new(
                        "ALD001".to_owned(),
                        rule.name().to_owned(),
                        rule.severity(),
                        Location::new(relative_path.to_owned(), u.line, u.column + 1),
                        msg,
                    );
                    match rule.doc_ref() {
                        Some(d) => {
                            v = v.with_doc_ref(d.to_owned());
                        },
                        None => {},
                    }
                    out.push(v);
                    proof {
                        assert(vmodel(out@.last()) == restrict_model(
                            app_seq[ai as int],
                            relative_path@,
                            uref,
                        ));
                        assert(out@.map_values(vm) =~= old_out.map_values(vm).push(
                            restrict_model(app_seq[ai as int], relative_path@, uref),
                        ));
                    }
                } else {
                    proof {
                        assert(g2(app_seq[ai as int]) =~= Seq::<VioModel>::empty());
                        assert(out@.map_values(vm) =~= old_out.map_values(vm) + g2(
                            app_seq[ai as int],
                        ));
                    }
                }
                ai = ai + 1;
            }
            proof {
                assert(app_seq.subrange(0, na as int) =~= app_seq);
                assert(h(uref) == concat_map(app_seq, g2));
            }
            ui = ui + 1;
        }
        proof {
            assert(uses@.map_values(um).subrange(0, nu as int) =~= uses@.map_values(um));
        }
        out
    }
}

/// The first `::` segment of a path: the crate a use pulls from.
pub open spec fn spec_first_segment(path: Seq<char>) -> Seq<char> {
    crate::paths::split_segments(path)[0]
}

/// Extracts the first `::` segment of a path.
fn first_segment_of(path: &str) -> (r: String)
    ensures
        r@ == spec_first_segment(path@),
{
    let parts = crate::paths::split_path(path);
    proof {
        assert(crate::paths::split_segments(path@).len() >= 1);
        assert(crate::paths::seg_views(parts@)[0] == parts@[0]@);
    }
    parts[0].clone()
}

/// The require-use finding for one discouraged import.
pub open spec fn require_model(
    rule: RequireUse,
    rel: Seq<char>,
    u: (Seq<char>, nat, nat),
) -> VioModel {
    (
        "ALD002"@,
        rule.spec_name(),
        rule.spec_severity(),
        rel,
        u.1,
        u.2 + 1,
        rule.spec_message() + ": use `"@ + rule.spec_prefer() + "` instead of `"@
            + spec_first_segment(u.0) + "`"@,
        doc_view(rule.spec_doc_ref()),
        None,
    )
}

/// All require-use findings of a file: for each expanded import in
/// order, for each applicable rule in order, a finding when the
/// import's crate is discouraged.
pub open spec fn spec_require_models(
    config: DeclarativeConfig,
    rel: Seq<char>,
    trees: Seq<UseTree>,
) -> Seq<VioModel> {
    let applicable = config.spec_require_uses().filter(
        |r: RequireUse| spec_scope_ref_contains(config.spec_scopes(), r.spec_scope(), rel),
    );
    concat_map(
        spec_all_uses(trees),
        |u: (Seq<char>, nat, nat)|
            concat_map(
                applicable,
                |r: RequireUse|
                    if crate::arch_config::names_contain(
                        crate::arch_config::name_views(r.spec_over()),
                        spec_first_segment(u.0),
                    ) {
                        seq![require_model(r, rel, u)]
                    } else {
                        Seq::empty()
                    },
            ),
    )
}

/// A per-file rule that enforces require-use declarations: flags
/// imports of discouraged crates and names the preferred one.
pub struct RequireUseRule {
    /// The validated configuration the rule draws its entries from.
    pub config: Arc<DeclarativeConfig>,
}

impl RequireUseRule {
    /// Creates a new require-use rule backed by the given config.
    pub fn new(config: Arc<DeclarativeConfig>) -> (r: RequireUseRule)
        ensures
            r.config == config,
    {
        RequireUseRule { config }
    }

    /// The rule's kebab-case name.
    pub fn name(&self) -> (r: &'static str)
        ensures
            r@ == "require-use"@,
    {
        "require-use"
    }

    /// The rule's stable code.
    pub fn code(&self) -> (r: &'static str)
        ensures
            r@ == "ALD002"@,
    {
        "ALD002"
    }

    /// Checks one file's use declarations against the applicable
    /// require-use entries.
    pub fn check(&self, relative_path: &str, trees: &Vec<UseTree>) -> (r: Vec<Violation>)
        requires
            uses_in_bounds(spec_all_uses(trees@)),
        ensures
            r@.map_values(|v: Violation| vmodel(v)) == spec_require_models(
                *self.config,
                relative_path@,
                trees@,
            ),
    {
        let config = &*self.config;
        let ghost keep = |rl: RequireUse|
            spec_scope_ref_contains(config.spec_scopes(), rl.spec_scope(), relative_path@);
        let rules = config.require_uses();
        let mut applicable: Vec<&RequireUse> = Vec::new();
        let nr = rules.len();
        let mut i: usize = 0;
        proof {
            assert(applicable@.map_values(|x: &RequireUse| *x) =~= config.spec_require_uses()
                .subrange(0, 0).filter(keep));
        }
        while i < nr
            invariant
                0 <= i <= nr,
                nr == config.spec_require_uses().len(),
                rules@ == config.spec_require_uses(),
                keep == |rl: RequireUse|
                    spec_scope_ref_contains(
                        config.spec_scopes(),
                        rl.spec_scope(),
                        relative_path@,
                    ),
                applicable@.map_values(|x: &RequireUse| *x) == config.spec_require_uses()
                    .subrange(0, i as int).filter(keep),
            decreases nr - i,
        {
            proof {
                crate::types::lemma_filter_push(
                    config.spec_require_uses().subrange(0, i as int),
                    config.spec_require_uses()[i as int],
                    keep,
                );
                assert(config.spec_require_uses().subrange(0, i + 1)
                    =~= config.spec_require_uses().subrange(0, i as int).push(
                    config.spec_require_uses()[i as int],
                ));
            }
            let ghost old_app = applicable@;
            if config.scope_ref_contains(rules[i].scope(), relative_path) {
                applicable.push(&rules[i]);
                proof {
                    assert(applicable@.map_values(|x: &RequireUse| *x) =~= old_app.map_values(
                        |x: &RequireUse| *x,
                    ).push(config.spec_require_uses()[i as int]));
                }
            }
            i = i + 1;
        }
        proof {
            assert(config.spec_require_uses().subrange(0, nr as int) =~= config
                .spec_require_uses());
        }
        let uses = expand_all(trees);
        let ghost app_seq = config.spec_require_uses().filter(keep);
        let ghost h = |u: (Seq<char>, nat, nat)|
            concat_map(
                app_seq,
                |r: RequireUse|
                    if crate::arch_config::names_contain(
                        crate::arch_config::name_views(r.spec_over()),
                        spec_first_segment(u.0),
                    ) {
                        seq![require_model(r, relative_path@, u)]
                    } else {
                        Seq::<VioModel>::empty()
                    },
            );
        let ghost um = |u: ResolvedUse| ru_model(u);
        let ghost vm = |v: Violation| vmodel(v);
        let mut out: Vec<Violation> = Vec::new();
        let nu = uses.len();
        let mut ui: usize = 0;
        proof {
            assert(uses@.map_values(um).subrange(0, 0) =~= Seq::<(Seq<char>, nat, nat)>::empty());
            assert(out@.map_values(vm) =~= concat_map(uses@.map_values(um).subrange(0, 0), h));
        }
        while ui < nu
            invariant
                0 <= ui <= nu,
                nu == uses@.len(),
                uses@.map_values(um) == spec_all_uses(trees@),
                uses_in_bounds(spec_all_uses(trees@)),
                app_seq == config.spec_require_uses().filter(keep),
                applicable@.map_values(|x: &RequireUse| *x) == app_seq,
                keep == |rl: RequireUse|
                    spec_scope_ref_contains(
                        config.spec_scopes(),
                        rl.spec_scope(),
                        relative_path@,
                    ),
                um == |u: ResolvedUse| ru_model(u),
                vm == |v: Violation| vmodel(v),
                h == |u: (Seq<char>, nat, nat)|
                    concat_map(
                        app_seq,
                        |r: RequireUse|
                            if crate::arch_config::names_contain(
                                crate::arch_config::name_views(r.spec_over()),
                                spec_first_segment(u.0),
                            ) {
                                seq![require_model(r, relative_path@, u)]
                            } else {
                                Seq::<VioModel>::empty()
                            },
                    ),
                out@.map_values(vm) == concat_map(
                    uses@.map_values(um).subrange(0, ui as int),
                    h,
                ),
            decreases nu - ui,
        {
            let u = &uses[ui];
            let ghost uref = uses@.map_values(um)[ui as int];
            proof {
                lemma_concat_map_push(uses@.map_values(um).subrange(0, ui as int), uref, h);
                assert(uses@.map_values(um).subrange(0, ui + 1) =~= uses@.map_values(um).subrange(
                    0,
                    ui as int,
                ).push(uref));
                assert(uref == ru_model(uses@[ui as int]));
            }
            let crate_name = first_segment_of(u.path.as_str());
            proof {
                assert(crate_name@ == spec_first_segment(uref.0));
            }
            let ghost g2 = |r: RequireUse|
                if crate::arch_config::names_contain(
                    crate::arch_config::name_views(r.spec_over()),
                    spec_first_segment(uref.0),
                ) {
                    seq![require_model(r, relative_path@, uref)]
                } else {
                    Seq::<VioModel>::empty()
                };
            let na = applicable.len();
            let mut ai: usize = 0;
            let ghost out_before = out@;
            proof {
                assert(out@.map_values(vm) =~= out_before.map_values(vm) + concat_map(
                    app_seq.subrange(0, 0),
                    g2,
                ));
            }
            while ai < na
                invariant
                    0 <= ai <= na,
                    0 <= ui < uses@.len(),
                    na == app_seq.len(),
                    applicable@.map_values(|x: &RequireUse| *x) == app_seq,
                    uses@.map_values(um) == spec_all_uses(trees@),
                    uses_in_bounds(spec_all_uses(trees@)),
                    uref == uses@.map_values(um)[ui as int],
                    uref == ru_model(uses@[ui as int]),
                    crate_name@ == spec_first_segment(uref.0),
                    u.path@ == uref.0,
                    u.line as nat == uref.1,
                    u.column as nat == uref.2,
                    um == |u: ResolvedUse| ru_model(u),
                    vm == |v: Violation| vmodel(v),
                    g2 == |r: RequireUse|
                        if crate::arch_config::names_contain(
                            crate::arch_config::name_views(r.spec_over()),
                            spec_first_segment(uref.0),
                        ) {
                            seq![require_model(r, relative_path@, uref)]
                        } else {
                            Seq::<VioModel>::empty()
                        },
                    out@.map_values(vm) == out_before.map_values(vm) + concat_map(
                        app_seq.subrange(0, ai as int),
                        g2,
                    ),
                decreases na - ai,
            {
                let rule = applicable[ai];
                proof {
                    assert(applicable@.map_values(|x: &RequireUse| *x)[ai as int]
                        == app_seq[ai as int]);
                    lemma_concat_map_push(app_seq.subrange(0, ai as int), app_seq[ai as int], g2);
                    assert(app_seq.subrange(0, ai + 1) =~= app_seq.subrange(0, ai as int).push(
                        app_seq[ai as int],
                    ));
                    assert(spec_all_uses(trees@)[ui as int] == uref);
                    assert(uref.2 < usize::MAX);
                    assert(*rule == app_seq[ai as int]);
                }
                let ghost old_out = out@;
                if crate::arch_config::list_contains(rule.over(), crate_name.as_str()) {
                    let mut msg = rule.message().to_owned();
                    msg.append(": use `");
                    msg.append(rule.prefer());
                    msg.append("` instead of `");
                    msg.append(crate_name.as_str());
                    msg.append("`");
                    proof {
                        assert(msg@ =~= app_seq[ai as int].spec_message() + ": use `"@
                            + app_seq[ai as int].spec_prefer() + "` instead of `"@
                            + spec_first_segment(uref.0) + "`"@);
                    }
                    let mut v = Violation::new(
                        "ALD002".to_owned(),
                        rule.name().to_owned(),
                        rule.severity(),
                        Location::new(relative_path.to_owned(), u.line, u.column + 1),
                        msg,
                    );
                    match rule.doc_ref() {
                        Some(d) => {
                            v = v.with_doc_ref(d.to_owned());
                        },
                        None => {},
                    }
                    out.push(v);
                    proof {
                        assert(vmodel(out@.last()) == require_model(
                            app_seq[ai as int],
                            relative_path@,
                            uref,
                        ));
                        assert(out@.map_values(vm) =~= old_out.map_values(vm).push(
                            require_model(app_seq[ai as int], relative_path@, uref),
                        ));
                    }
                } else {
                    proof {
                        assert(g2(app_seq[ai as int]) =~= Seq::<VioModel>::empty());
                        assert(out@.map_values(vm) =~= old_out.map_values(vm) + g2(
                            app_seq[ai as int],
                        ));
                    }
                }
                ai = ai + 1;
            }
            proof {
                assert(app_seq.subrange(0, na as int) =~= app_seq);
                assert(h(uref) == concat_map(app_seq, g2));
            }
            ui = ui + 1;
        }
        proof {
            assert(uses@.map_values(um).subrange(0, nu as int) =~= uses@.map_values(um));
        }
        out
    }
}

/// Path segments joined with `/` between them.
pub open spec fn join_slash(segs: Seq<Seq<char>>) -> Seq<char>
    decreases segs.len(),
{
    if segs.len() == 0 {
        Seq::empty()
    } else if segs.len() == 1 {
        segs[0]
    } else {
        segs[0] + seq!['/'] + join_slash(segs.subrange(1, segs.len() as int))
    }
}

/// The first `k` segments joined with `/`.
pub open spec fn join_slash_prefix(segs: Seq<Seq<char>>, k: int) -> Seq<char>
    decreases k,
{
    if k <= 0 {
        Seq::empty()
    } else if k == 1 {
        segs[0]
    } else {
        join_slash_prefix(segs, k - 1) + seq!['/'] + segs[k - 1]
    }
}

/// Joining every segment equals joining the full prefix.
proof fn lemma_join_slash_prefix_eq(segs: Seq<Seq<char>>, k: int)
    requires
        0 <= k <= segs.len(),
    ensures
        join_slash_prefix(segs, k) == join_slash(segs.subrange(0, k)),
    decreases k,
{
    if k <= 0 {
        assert(segs.subrange(0, 0) =~= Seq::<Seq<char>>::empty());
    } else if k == 1 {
        assert(segs.subrange(0, 1).len() == 1);
        assert(segs.subrange(0, 1)[0] == segs[0]);
    } else {
        lemma_join_slash_prefix_eq(segs, k - 1);
        lemma_join_slash_append(segs.subrange(0, k - 1), segs[k - 1]);
        assert(segs.subrange(0, k) =~= segs.subrange(0, k - 1).push(segs[k - 1]));
    }
}

/// Appending one more segment appends `/` and the segment to the join.
proof fn lemma_join_slash_append(segs: Seq<Seq<char>>, x: Seq<char>)
    requires
        segs.len() >= 1,
    ensures
        join_slash(segs.push(x)) == join_slash(segs) + seq!['/'] + x,
    decreases segs.len(),
{
    let p = segs.push(x);
    if segs.len() == 1 {
        assert(p.len() == 2);
        assert(p[0] == segs[0]);
        assert(p.subrange(1, 2) =~= seq![x]);
        assert(join_slash(p.subrange(1, 2)) == x);
    } else {
        assert(p.subrange(1, p.len() as int) =~= segs.subrange(1, segs.len() as int).push(x));
        lemma_join_slash_append(segs.subrange(1, segs.len() as int), x);
        assert(p[0] == segs[0]);
        assert(join_slash(p) =~= join_slash(segs) + seq!['/'] + x);
    }
}

/// The candidate source file of a `crate::` module path tail: its
/// segments joined with slashes under `src/`, with an `.rs` ending.
pub open spec fn spec_candidate_path(rest: Seq<char>) -> Seq<char> {
    "src/"@ + join_slash(crate::paths::split_segments(rest)) + ".rs"@
}

/// The scopes that a `crate::` import's candidate file would belong
/// to; imports from other crates target no scope.
pub open spec fn spec_target_scopes(config: DeclarativeConfig, path: Seq<char>) -> Seq<
    Seq<char>,
> {
    if crate::strutil::is_prefix("crate::"@, path) {
        let rest = crate::strutil::after_prefix(path, "crate::"@);
        crate::model::scope_names_of(
            config.spec_scopes().filter(
                |s: crate::model::Scope| crate::model::any_glob_hit(
                    s.spec_patterns(),
                    spec_candidate_path(rest),
                ),
            ),
        )
    } else {
        Seq::empty()
    }
}

/// Converts a `crate::` module path to its candidate file path and
/// returns the scopes that path belongs to.
pub fn resolve_target_scopes(config: &DeclarativeConfig, use_path: &str) -> (r: Vec<
    crate::model::ScopeName,
>)
    ensures
        scope_name_views(r@) == spec_target_scopes(*config, use_path@),
{
    let rest = match crate::strutil::strip_prefix_str(use_path, "crate::") {
        Some(rest) => rest,
        None => {
            let r: Vec<crate::model::ScopeName> = Vec::new();
            proof {
                assert(scope_name_views(r@) =~= Seq::<Seq<char>>::empty());
            }
            return r;
        },
    };
    let segments = crate::paths::split_path(rest);
    let mut candidate = "src/".to_owned();
    let n = segments.len();
    proof {
        assert(crate::paths::split_segments(rest@).len() >= 1);
        assert(n >= 1);
        assert(crate::paths::seg_views(segments@)[0] == segments@[0]@);
    }
    candidate.append(segments[0].as_str());
    let mut i: usize = 1;
    proof {
        assert(candidate@ =~= "src/"@ + join_slash_prefix(
            crate::paths::seg_views(segments@),
            1,
        ));
    }
    while i < n
        invariant
            1 <= i <= n,
            n == segments@.len(),
            candidate@ == "src/"@ + join_slash_prefix(
                crate::paths::seg_views(segments@),
                i as int,
            ),
        decreases n - i,
    {
        candidate.append("/");
        proof {
            assert(crate::paths::seg_views(segments@)[i as int] == segments@[i as int]@);
        }
        candidate.append(segments[i].as_str());
        proof {
            reveal_strlit("/");
            assert("/"@ =~= seq!['/']);
            assert(candidate@ =~= "src/"@ + join_slash_prefix(
                crate::paths::seg_views(segments@),
                i + 1,
            ));
        }
        i = i + 1;
    }
    candidate.append(".rs");
    proof {
        lemma_join_slash_prefix_eq(crate::paths::seg_views(segments@), n as int);
        assert(crate::paths::seg_views(segments@).subrange(0, n as int) =~= crate::paths::seg_views(
            segments@,
        ));
        assert(candidate@ =~= spec_candidate_path(rest@));
    }
    config.scopes_for_path(candidate.as_str())
}

/// The deny-scope-dep finding for one denied crossing.
pub open spec fn scope_dep_model(
    dep: ScopeDep,
    rel: Seq<char>,
    u: (Seq<char>, nat, nat),
    target: Seq<char>,
) -> VioModel {
    (
        "ALD003"@,
        "deny-scope-dep"@,
        dep.spec_severity(),
        rel,
        u.1,
        u.2 + 1,
        dep.spec_message() + ": `"@ + u.0 + "` (scope `"@ + dep.spec_from() + "` -> scope `"@
            + target + "`)"@,
        doc_view(dep.spec_doc_ref()),
        None,
    )
}

/// All deny-scope-dep findings of a file: for each expanded import in
/// order, for each applicable dependency rule, for each scope its
/// candidate file belongs to, a finding when that target is denied.
pub open spec fn spec_scope_dep_models(
    config: DeclarativeConfig,
    rel: Seq<char>,
    trees: Seq<UseTree>,
) -> Seq<VioModel> {
    let file_scopes = crate::model::scope_names_of(
        config.spec_scopes().filter(
            |s: crate::model::Scope| crate::model::any_glob_hit(s.spec_patterns(), rel),
        ),
    );
    let applicable = config.spec_scope_deps().filter(
        |d: ScopeDep| crate::arch_config::names_contain(file_scopes, d.spec_from()),
    );
    concat_map(
        spec_all_uses(trees),
        |u: (Seq<char>, nat, nat)|
            concat_map(
                applicable,
                |d: ScopeDep|
                    concat_map(
                        spec_target_scopes(config, u.0),
                        |t: Seq<char>|
                            if crate::arch_config::names_contain(
                                scope_name_views(d.spec_to()),
                                t,
                            ) {
                                seq![scope_dep_model(d, rel, u, t)]
                            } else {
                                Seq::empty()
                            },
                    ),
            ),
    )
}

/// A per-file rule that enforces deny-scope-dep declarations: detects
/// `crate::` imports that cross denied scope boundaries, assuming the
/// standard `src/` layout for module-to-file mapping.
pub struct ScopeDepRule {
    /// The validated configuration the rule draws its entries from.
    pub config: Arc<DeclarativeConfig>,
}

impl ScopeDepRule {
    /// Creates a new scope-dep rule backed by the given config.
    pub fn new(config: Arc<DeclarativeConfig>) -> (r: ScopeDepRule)
        ensures
            r.config == config,
    {
        ScopeDepRule { config }
    }

    /// The rule's kebab-case name.
    pub fn name(&self) -> (r: &'static str)
        ensures
            r@ == "deny-scope-dep"@,
    {
        "deny-scope-dep"
    }

    /// The rule's stable code.
    pub fn code(&self) -> (r: &'static str)
        ensures
            r@ == "ALD003"@,
    {
        "ALD003"
    }

    /// Checks one file's use declarations against the applicable
    /// deny-scope-dep entries.
    pub fn check(&self, relative_path: &str, trees: &Vec<UseTree>) -> (r: Vec<Violation>)
        requires
            uses_in_bounds(spec_all_uses(trees@)),
        ensures
            r@.map_values(|v: Violation| vmodel(v)) == spec_scope_dep_models(
                *self.config,
                relative_path@,
                trees@,
            ),
    {
        let config = &*self.config;
        let file_scopes = config.scopes_for_path(relative_path);
        let ghost fs = crate::model::scope_names_of(
            config.spec_scopes().filter(
                |s: crate::model::Scope| crate::model::any_glob_hit(
                    s.spec_patterns(),
                    relative_path@,
                ),
            ),
        );
        let ghost keep = |d: ScopeDep| crate::arch_config::names_contain(fs, d.spec_from());
        let deps = config.scope_deps();
        let mut applicable: Vec<&ScopeDep> = Vec::new();
        let nr = deps.len();
        let mut i: usize = 0;
        proof {
            assert(applicable@.map_values(|x: &ScopeDep| *x) =~= config.spec_scope_deps()
                .subrange(0, 0).filter(keep));
        }
        while i < nr
            invariant
                0 <= i <= nr,
                nr == config.spec_scope_deps().len(),
                deps@ == config.spec_scope_deps(),
                scope_name_views(file_scopes@) == fs,
                keep == |d: ScopeDep| crate::arch_config::names_contain(fs, d.spec_from()),
                applicable@.map_values(|x: &ScopeDep| *x) == config.spec_scope_deps().subrange(
                    0,
                    i as int,
                ).filter(keep),
            decreases nr - i,
        {
            proof {
                crate::types::lemma_filter_push(
                    config.spec_scope_deps().subrange(0, i as int),
                    config.spec_scope_deps()[i as int],
                    keep,
                );
                assert(config.spec_scope_deps().subrange(0, i + 1) =~= config.spec_scope_deps()
                    .subrange(0, i as int).push(config.spec_scope_deps()[i as int]));
            }
            let ghost old_app = applicable@;
            if scope_names_contain(&file_scopes, deps[i].from_scope()) {
                applicable.push(&deps[i]);
                proof {
                    assert(applicable@.map_values(|x: &ScopeDep| *x) =~= old_app.map_values(
                        |x: &ScopeDep| *x,
                    ).push(config.spec_scope_deps()[i as int]));
                }
            }
            i = i + 1;
        }
        proof {
            assert(config.spec_scope_deps().subrange(0, nr as int) =~= config.spec_scope_deps());
        }
        let uses = expand_all(trees);
        let ghost app_seq = config.spec_scope_deps().filter(keep);
        let ghost h = |u: (Seq<char>, nat, nat)|
            concat_map(
                app_seq,
                |d: ScopeDep|
                    concat_map(
                        spec_target_scopes(*config, u.0),
                        |t: Seq<char>|
                            if crate::arch_config::names_contain(
                                scope_name_views(d.spec_to()),
                                t,
                            ) {
                                seq![scope_dep_model(d, relative_path@, u, t)]
                            } else {
                                Seq::<VioModel>::empty()
                            },
                    ),
            );
        let ghost um = |u: ResolvedUse| ru_model(u);
        let ghost vm = |v: Violation| vmodel(v);
        let mut out: Vec<Violation> = Vec::new();
        let nu = uses.len();
        let mut ui: usize = 0;
        proof {
            assert(uses@.map_values(um).subrange(0, 0) =~= Seq::<(Seq<char>, nat, nat)>::empty());
            assert(out@.map_values(vm) =~= concat_map(uses@.map_values(um).subrange(0, 0), h));
        }
        while ui < nu
            invariant
                0 <= ui <= nu,
                nu == uses@.len(),
                uses@.map_values(um) == spec_all_uses(trees@),
                uses_in_bounds(spec_all_uses(trees@)),
                app_seq == config.spec_scope_deps().filter(keep),
                applicable@.map_values(|x: &ScopeDep| *x) == app_seq,
                keep == |d: ScopeDep| crate::arch_config::names_contain(fs, d.spec_from()),
                um == |u: ResolvedUse| ru_model(u),
                vm == |v: Violation| vmodel(v),
                h == |u: (Seq<char>, nat, nat)|
                    concat_map(
                        app_seq,
                        |d: ScopeDep|
                            concat_map(
                                spec_target_scopes(*config, u.0),
                                |t: Seq<char>|
                                    if crate::arch_config::names_contain(
                                        scope_name_views(d.spec_to()),
                                        t,
                                    ) {
                                        seq![scope_dep_model(d, relative_path@, u, t)]
                                    } else {
                                        Seq::<VioModel>::empty()
                                    },
                            ),
                    ),
                out@.map_values(vm) == concat_map(
                    uses@.map_values(um).subrange(0, ui as int),
                    h,
                ),
            decreases nu - ui,
        {
            let u = &uses[ui];
            let ghost uref = uses@.map_values(um)[ui as int];
            proof {
                lemma_concat_map_push(uses@.map_values(um).subrange(0, ui as int), uref, h);
                assert(uses@.map_values(um).subrange(0, ui + 1) =~= uses@.map_values(um).subrange(
                    0,
                    ui as int,
                ).push(uref));
                assert(uref == ru_model(uses@[ui as int]));
            }
            let targets = resolve_target_scopes(config, u.path.as_str());
            let ghost tseq = spec_target_scopes(*config, uref.0);
            proof {
                assert(scope_name_views(targets@) == tseq);
            }
            let ghost g2 = |d: ScopeDep|
                concat_map(
                    tseq,
                    |t: Seq<char>|
                        if crate::arch_config::names_contain(scope_name_views(d.spec_to()), t) {
                            seq![scope_dep_model(d, relative_path@, uref, t)]
                        } else {
                            Seq::<VioModel>::empty()
                        },
                );
            let na = applicable.len();
            let mut ai: usize = 0;
            let ghost out_before = out@;
            proof {
                assert(out@.map_values(vm) =~= out_before.map_values(vm) + concat_map(
                    app_seq.subrange(0, 0),
                    g2,
                ));
            }
            while ai < na
                invariant
                    0 <= ai <= na,
                    0 <= ui < uses@.len(),
                    na == app_seq.len(),
                    applicable@.map_values(|x: &ScopeDep| *x) == app_seq,
                    uses@.map_values(um) == spec_all_uses(trees@),
                    uses_in_bounds(spec_all_uses(trees@)),
                    uref == uses@.map_values(um)[ui as int],
                    uref == ru_model(uses@[ui as int]),
                    scope_name_views(targets@) == tseq,
                    tseq == spec_target_scopes(*config, uref.0),
                    u.path@ == uref.0,
                    u.line as nat == uref.1,
                    u.column as nat == uref.2,
                    um == |u: ResolvedUse| ru_model(u),
                    vm == |v: Violation| vmodel(v),
                    g2 == |d: ScopeDep|
                        concat_map(
                            tseq,
                            |t: Seq<char>|
                                if crate::arch_config::names_contain(
                                    scope_name_views(d.spec_to()),
                                    t,
                                ) {
                                    seq![scope_dep_model(d, relative_path@, uref, t)]
                                } else {
                                    Seq::<VioModel>::empty()
                                },
                        ),
                    out@.map_values(vm) == out_before.map_values(vm) + concat_map(
                        app_seq.subrange(0, ai as int),
                        g2,
                    ),
                decreases na - ai,
            {
                let dep = applicable[ai];
                let ghost g3 = |t: Seq<char>|
                    if crate::arch_config::names_contain(
                        scope_name_views(app_seq[ai as int].spec_to()),
                        t,
                    ) {
                        seq![scope_dep_model(app_seq[ai as int], relative_path@, uref, t)]
                    } else {
                        Seq::<VioModel>::empty()
                    };
                proof {
                    assert(applicable@.map_values(|x: &ScopeDep| *x)[ai as int]
                        == app_seq[ai as int]);
                    lemma_concat_map_push(app_seq.subrange(0, ai as int), app_seq[ai as int], g2);
                    assert(app_seq.subrange(0, ai + 1) =~= app_seq.subrange(0, ai as int).push(
                        app_seq[ai as int],
                    ));
                    assert(spec_all_uses(trees@)[ui as int] == uref);
                    assert(uref.2 < usize::MAX);
                    assert(*dep == app_seq[ai as int]);
                }
                let nt = targets.len();
                let mut ti: usize = 0;
                let ghost out_mid = out@;
                proof {
                    assert(out@.map_values(vm) =~= out_mid.map_values(vm) + concat_map(
                        tseq.subrange(0, 0),
                        g3,
                    ));
                }
                while ti < nt
                    invariant
                        0 <= ti <= nt,
                        0 <= ai < app_seq.len(),
                        0 <= ui < uses@.len(),
                        nt == tseq.len(),
                        scope_name_views(targets@) == tseq,
                        uref == ru_model(uses@[ui as int]),
                        u.path@ == uref.0,
                        u.line as nat == uref.1,
                        u.column as nat == uref.2,
                        uref.2 < usize::MAX,
                        *dep == app_seq[ai as int],
                        vm == |v: Violation| vmodel(v),
                        g3 == |t: Seq<char>|
                            if crate::arch_config::names_contain(
                                scope_name_views(app_seq[ai as int].spec_to()),
                                t,
                            ) {
                                seq![scope_dep_model(app_seq[ai as int], relative_path@, uref, t)]
                            } else {
                                Seq::<VioModel>::empty()
                            },
                        out@.map_values(vm) == out_mid.map_values(vm) + concat_map(
                            tseq.subrange(0, ti as int),
                            g3,
                        ),
                    decreases nt - ti,
                {
                    let target = &targets[ti];
                    proof {
                        assert(scope_name_views(targets@)[ti as int] == target@);
                        lemma_concat_map_push(tseq.subrange(0, ti as int), tseq[ti as int], g3);
                        assert(tseq.subrange(0, ti + 1) =~= tseq.subrange(0, ti as int).push(
                            tseq[ti as int],
                        ));
                    }
                    let ghost old_out = out@;
                    if dep.is_denied(target) {
                        let mut msg = dep.message().to_owned();
                        msg.append(": `");
                        msg.append(u.path.as_str());
                        msg.append("` (scope `");
                        msg.append(dep.from_scope().as_str());
                        msg.append("` -> scope `");
                        msg.append(target.as_str());
                        msg.append("`)");
                        proof {
                            assert(msg@ =~= app_seq[ai as int].spec_message() + ": `"@ + uref.0
                                + "` (scope `"@ + app_seq[ai as int].spec_from()
                                + "` -> scope `"@ + tseq[ti as int] + "`)"@);
                        }
                        let mut v = Violation::new(
                            "ALD003".to_owned(),
                            "deny-scope-dep".to_owned(),
                            dep.severity(),
                            Location::new(relative_path.to_owned(), u.line, u.column + 1),
                            msg,
                        );
                        match dep.doc_ref() {
                            Some(d) => {
                                v = v.with_doc_ref(d.to_owned());
                            },
                            None => {},
                        }
                        out.push(v);
                        proof {
                            assert(vmodel(out@.last()) == scope_dep_model(
                                app_seq[ai as int],
                                relative_path@,
                                uref,
                                tseq[ti as int],
                            ));
                            assert(out@.map_values(vm) =~= old_out.map_values(vm).push(
                                scope_dep_model(
                                    app_seq[ai as int],
                                    relative_path@,
                                    uref,
                                    tseq[ti as int],
                                ),
                            ));
                        }
                    } else {
                        proof {
                            assert(g3(tseq[ti as int]) =~= Seq::<VioModel>::empty());
                            assert(out@.map_values(vm) =~= old_out.map_values(vm) + g3(
                                tseq[ti as int],
                            ));
                        }
                    }
                    ti = ti + 1;
                }
                proof {
                    assert(tseq.subrange(0, nt as int) =~= tseq);
                    assert(g2(app_seq[ai as int]) == concat_map(tseq, g3));
                }
                ai = ai + 1;
            }
            proof {
                assert(app_seq.subrange(0, na as int) =~= app_seq);
                assert(h(uref) == concat_map(app_seq, g2));
            }
            ui = ui + 1;
        }
        proof {
            assert(uses@.map_values(um).subrange(0, nu as int) =~= uses@.map_values(um));
        }
        out
    }
}

/// Whether a list of scope names contains the given name.
fn scope_names_contain(names: &Vec<crate::model::ScopeName>, target: &crate::model::ScopeName) -> (r:
    bool)
    ensures
        r == crate::arch_config::names_contain(scope_name_views(names@), target@),
{
    let n = names.len();
    let mut i: usize = 0;
    while i < n
        invariant
            0 <= i <= n,
            n == names@.len(),
            forall|j: int| 0 <= j < i ==> scope_name_views(names@)[j] != target@,
        decreases n - i,
    {
        if names[i].same(target) {
            assert(scope_name_views(names@)[i as int] == target@);
            return true;
        }
        i = i + 1;
    }
    false
}

/// One activated declarative rule.
pub enum DeclarativeRule {
    /// A restrict-use rule.
    Restrict(RestrictUseRule),
    /// A require-use rule.
    Require(RequireUseRule),
    /// A deny-scope-dep rule.
    ScopeDep(ScopeDepRule),
}

/// The kind tag of an activated rule: restrict-use first, then
/// require-use, then deny-scope-dep.
pub open spec fn rule_kind(d: DeclarativeRule) -> int {
    match d {
        DeclarativeRule::Restrict(_) => 0,
        DeclarativeRule::Require(_) => 1,
        DeclarativeRule::ScopeDep(_) => 2,
    }
}

/// The configuration a rule draws from.
pub open spec fn rule_config(d: DeclarativeRule) -> DeclarativeConfig {
    match d {
        DeclarativeRule::Restrict(r) => *r.config,
        DeclarativeRule::Require(r) => *r.config,
        DeclarativeRule::ScopeDep(r) => *r.config,
    }
}

/// The kinds that a configuration activates, in order.
pub open spec fn expected_kinds(config: DeclarativeConfig) -> Seq<int> {
    let a: Seq<int> = if config.spec_restrict_uses().len() > 0 {
        seq![0]
    } else {
        Seq::empty()
    };
    let b: Seq<int> = if config.spec_require_uses().len() > 0 {
        seq![1]
    } else {
        Seq::empty()
    };
    let c: Seq<int> = if config.spec_scope_deps().len() > 0 {
        seq![2]
    } else {
        Seq::empty()
    };
    a + b + c
}

impl DeclarativeRule {
    /// The rule's kebab-case name.
    pub fn name(&self) -> (r: &'static str)
        ensures
            rule_kind(*self) == 0 ==> r@ == "restrict-use"@,
            rule_kind(*self) == 1 ==> r@ == "require-use"@,
            rule_kind(*self) == 2 ==> r@ == "deny-scope-dep"@,
    {
        match self {
            DeclarativeRule::Restrict(r) => r.name(),
            DeclarativeRule::Require(r) => r.name(),
            DeclarativeRule::ScopeDep(r) => r.name(),
        }
    }
}

/// Creates the declarative rules that a configuration activates: one
/// per rule kind that has at least one entry, in a fixed order. An
/// empty configuration yields no rules.
pub fn create_rules(config: DeclarativeConfig) -> (r: Vec<DeclarativeRule>)
    ensures
        r@.map_values(|d: DeclarativeRule| rule_kind(d)) == expected_kinds(config),
        forall|i: int| 0 <= i < r@.len() ==> rule_config(#[trigger] r@[i]) == config,
{
    let has_restrict = config.restrict_uses().len() > 0;
    let has_require = config.require_uses().len() > 0;
    let has_deps = config.scope_deps().len() > 0;
    let shared = Arc::new(config);
    let mut out: Vec<DeclarativeRule> = Vec::new();
    if has_restrict {
        out.push(DeclarativeRule::Restrict(RestrictUseRule::new(arc_clone(&shared))));
    }
    if has_require {
        out.push(DeclarativeRule::Require(RequireUseRule::new(arc_clone(&shared))));
    }
    if has_deps {
        out.push(DeclarativeRule::ScopeDep(ScopeDepRule::new(arc_clone(&shared))));
    }
    proof {
        assert(out@.map_values(|d: DeclarativeRule| rule_kind(d)) =~= expected_kinds(config));
    }
    out
}

} // verus!
