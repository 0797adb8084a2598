//! Layer resolution: maps packages and imports to architecture layers.
//!
//! Resolution uses longest-prefix matching: the resolver table is sorted
//! by prefix length, longest first, and the first matching prefix wins.

use vstd::prelude::*;

verus! {

use crate::strutil::{is_prefix, starts_with, str_eq};
use crate::arch_config::ArchConfig;

/// A package prefix designates `name` when the name is the prefix itself
/// or lies under it, separated by a dot. `com.example.domains` does not
/// lie under `com.example.domain`.
pub open spec fn prefix_designates(name: Seq<char>, prefix: Seq<char>) -> bool {
    name == prefix || (is_prefix(prefix, name) && prefix.len() < name.len() && name[prefix.len() as int]
        == '.')
}

/// Whether `name` is the prefix itself or lies under it dot-separated.
pub fn designates(name: &str, prefix: &str) -> (r: bool)
    ensures
        r == prefix_designates(name@, prefix@),
{
    if str_eq(name, prefix) {
        return true;
    }
    if !starts_with(name, prefix) {
        return false;
    }
    let nlen = name.unicode_len();
    let plen = prefix.unicode_len();
    if plen >= nlen {
        proof {
            assert(name@.subrange(0, plen as int) =~= name@);
        }
        return false;
    }
    name.get_char(plen) == '.'
}

/// The table rows, as (prefix, layer) view pairs.
pub open spec fn row_views(rows: Seq<(String, String)>) -> Seq<(Seq<char>, Seq<char>)> {
    rows.map_values(|r: (String, String)| (r.0@, r.1@))
}

/// The table is ordered by prefix length, longest first.
pub open spec fn rows_len_sorted(rows: Seq<(Seq<char>, Seq<char>)>) -> bool {
    forall|i: int, j: int|
        0 <= i < j < rows.len() ==> (#[trigger] rows[i]).0.len() >= (#[trigger] rows[j]).0.len()
}

/// The first row whose prefix designates `name`, scanning in order.
pub open spec fn spec_resolve(rows: Seq<(Seq<char>, Seq<char>)>, name: Seq<char>) -> Option<
    (Seq<char>, Seq<char>),
>
    decreases rows.len(),
{
    if rows.len() == 0 {
        None
    } else if prefix_designates(name, rows[0].0) {
        Some(rows[0])
    } else {
        spec_resolve(rows.subrange(1, rows.len() as int), name)
    }
}

/// All (prefix, layer) pairs of the layer definitions, in order.
pub open spec fn config_rows(c: ArchConfig) -> Seq<(Seq<char>, Seq<char>)>
    decreases c.layers@.len(),
{
    layer_rows(c.layers@)
}

/// The rows contributed by a list of layer definitions.
pub open spec fn layer_rows(layers: Seq<crate::arch_config::LayerDef>) -> Seq<
    (Seq<char>, Seq<char>),
>
    decreases layers.len(),
{
    if layers.len() == 0 {
        Seq::empty()
    } else {
        layer_rows(layers.drop_last()) + one_layer_rows(layers.last())
    }
}

/// The rows contributed by one layer definition.
pub open spec fn one_layer_rows(l: crate::arch_config::LayerDef) -> Seq<(Seq<char>, Seq<char>)> {
    l.packages@.map_values(|p: String| (p@, l.name@))
}

/// Resolves fully-qualified package names to architecture layer names.
///
/// The table holds `(package_prefix, layer_name)` rows sorted by prefix
/// length descending, so the most specific prefix takes priority.
pub struct LayerResolver {
    /// `(package_prefix, layer_name)`, longest prefix first.
    pub rows: Vec<(String, String)>,
}

impl LayerResolver {
    /// The rows of this resolver, as view pairs.
    pub open spec fn view_rows(&self) -> Seq<(Seq<char>, Seq<char>)> {
        row_views(self.rows@)
    }

    /// Builds a resolver from the configured layer definitions. The table
    /// holds exactly the configured (prefix, layer) pairs, ordered with
    /// longer prefixes first.
    pub fn new(config: &ArchConfig) -> (r: LayerResolver)
        ensures
            r.view_rows().to_multiset() == config_rows(*config).to_multiset(),
            rows_len_sorted(r.view_rows()),
    {
        let mut rows: Vec<(String, String)> = Vec::new();
        let nl = config.layers.len();
        let mut i: usize = 0;
        proof {
            assert(config.layers@.subrange(0, 0) =~= Seq::<crate::arch_config::LayerDef>::empty());
            assert(row_views(rows@) =~= layer_rows(config.layers@.subrange(0, 0)));
        }
        while i < nl
            invariant
                0 <= i <= nl,
                nl == config.layers@.len(),
                row_views(rows@) == layer_rows(config.layers@.subrange(0, i as int)),
            decreases nl - i,
        {
            let layer = &config.layers[i];
            let np = layer.packages.len();
            let mut j: usize = 0;
            proof {
                assert(layer.packages@.subrange(0, 0) =~= Seq::<String>::empty());
                assert(one_layer_rows(*layer).subrange(0, 0) =~= Seq::<
                    (Seq<char>, Seq<char>),
                >::empty());
                assert(row_views(rows@) + one_layer_rows(*layer).subrange(0, 0) =~= row_views(
                    rows@,
                ));
            }
            let ghost rows_before = rows@;
            while j < np
                invariant
                    0 <= j <= np,
                    np == layer.packages@.len(),
                    row_views(rows@) == row_views(rows_before) + one_layer_rows(*layer).subrange(
                        0,
                        j as int,
                    ),
                decreases np - j,
            {
                let pkg = layer.packages[j].clone();
                let name = layer.name.clone();
                let ghost old_rows = rows@;
                rows.push((pkg, name));
                proof {
                    assert(row_views(rows@) =~= row_views(old_rows).push(
                        (layer.packages@[j as int]@, layer.name@),
                    ));
                    assert(one_layer_rows(*layer).subrange(0, j + 1) =~= one_layer_rows(
                        *layer,
                    ).subrange(0, j as int).push((layer.packages@[j as int]@, layer.name@)));
                    assert(row_views(rows@) =~= row_views(rows_before) + one_layer_rows(
                        *layer,
                    ).subrange(0, j + 1));
                }
                j = j + 1;
            }
            proof {
                assert(one_layer_rows(*layer).subrange(0, np as int) =~= one_layer_rows(*layer));
                assert(config.layers@.subrange(0, i + 1).drop_last() =~= config.layers@.subrange(
                    0,
                    i as int,
                ));
                assert(config.layers@.subrange(0, i + 1).last() == config.layers@[i as int]);
                assert(row_views(rows@) =~= layer_rows(config.layers@.subrange(0, i + 1)));
            }
            i = i + 1;
        }
        proof {
            assert(config.layers@.subrange(0, nl as int) =~= config.layers@);
        }
        // Longest prefix first, so specific prefixes win over broad ones.
        let sorted = sort_rows_by_len_desc(rows);
        LayerResolver { rows: sorted }
    }

    /// Which layer this package belongs to: the layer of the first table
    /// row, in longest-first order, whose prefix designates the name.
    pub fn resolve(&self, qualified_name: &str) -> (r: Option<&str>)
        ensures
            match r {
                Some(l) => {
                    &&& spec_resolve(self.view_rows(), qualified_name@) is Some
                    &&& l@ == (spec_resolve(self.view_rows(), qualified_name@)->0).1
                },
                None => spec_resolve(self.view_rows(), qualified_name@) is None,
            },
    {
        let n = self.rows.len();
        let mut i: usize = 0;
        proof {
            assert(self.view_rows().subrange(0, n as int) =~= self.view_rows());
        }
        while i < n
            invariant
                0 <= i <= n,
                n == self.rows@.len(),
                spec_resolve(self.view_rows(), qualified_name@) == spec_resolve(
                    self.view_rows().subrange(i as int, n as int),
                    qualified_name@,
                ),
            decreases n - i,
        {
            let ghost suffix = self.view_rows().subrange(i as int, n as int);
            proof {
                assert(suffix[0] == self.view_rows()[i as int]);
            }
            if designates(qualified_name, self.rows[i].0.as_str()) {
                return Some(self.rows[i].1.as_str());
            }
            proof {
                assert(suffix.subrange(1, suffix.len() as int) =~= self.view_rows().subrange(
                    i + 1,
                    n as int,
                ));
            }
            i = i + 1;
        }
        proof {
            assert(self.view_rows().subrange(n as int, n as int).len() == 0);
        }
        None
    }
}

/// Sorts rows by prefix length, longest first, keeping the same multiset
/// of rows.
fn sort_rows_by_len_desc(rows: Vec<(String, String)>) -> (r: Vec<(String, String)>)
    ensures
        row_views(r@).to_multiset() == row_views(rows@).to_multiset(),
        rows_len_sorted(row_views(r@)),
{
    let mut out = rows;
    let n = out.len();
    if n <= 1 {
        return out;
    }
    let mut i: usize = 1;
    while i < n
        invariant
            1 <= i <= n,
            n == out@.len(),
            row_views(out@).to_multiset() == row_views(rows@).to_multiset(),
            rows_len_sorted(row_views(out@).subrange(0, i as int)),
        decreases n - i,
    {
        // Insert element i into the sorted prefix.
        let mut j: usize = i;
        while j > 0
            invariant
                0 <= j <= i < n,
                n == out@.len(),
                row_views(out@).to_multiset() == row_views(rows@).to_multiset(),
                rows_len_sorted(row_views(out@).subrange(0, j as int)),
                rows_len_sorted(row_views(out@).subrange(j as int, i + 1)),
                forall|a: int, b: int|
                    0 <= a < j && j < b <= i ==> (#[trigger] row_views(out@)[a]).0.len() >= (
                    #[trigger] row_views(out@)[b]).0.len(),
            ensures
                n == out@.len(),
                row_views(out@).to_multiset() == row_views(rows@).to_multiset(),
                rows_len_sorted(row_views(out@).subrange(0, i + 1)),
            decreases j,
        {
            let prev_len = out[j - 1].0.as_str().unicode_len();
            let cur_len = out[j].0.as_str().unicode_len();
            if prev_len >= cur_len {
                proof {
                    lemma_sorted_insert_done(row_views(out@), j as int, i as int);
                }
                break;
            }
            let ghost before = out@;
            let x = out.remove(j);
            out.insert(j - 1, x);
            proof {
                assert(row_views(out@) =~= row_views(before).update(
                    j - 1,
                    row_views(before)[j as int],
                ).update(j as int, row_views(before)[j - 1]));
                crate::sequtil::lemma_adjacent_swap_multiset(
                    row_views(before),
                    row_views(out@),
                    j - 1,
                );
                lemma_swap_keeps_sorted(row_views(before), row_views(out@), j as int, i as int);
            }
            j = j - 1;
        }
        i = i + 1;
    }
    proof {
        assert(row_views(out@).subrange(0, n as int) =~= row_views(out@));
    }
    out
}

/// When the two sorted pieces meet with the boundary ordered, the whole
/// range through `i` is sorted.
proof fn lemma_sorted_insert_done(rows: Seq<(Seq<char>, Seq<char>)>, j: int, i: int)
    requires
        0 <= j <= i < rows.len(),
        rows_len_sorted(rows.subrange(0, j)),
        rows_len_sorted(rows.subrange(j, i + 1)),
        j > 0 ==> rows[j - 1].0.len() >= rows[j].0.len(),
        forall|a: int, b: int|
            0 <= a < j && j < b <= i ==> (#[trigger] rows[a]).0.len() >= (#[trigger] rows[b]).0.len(),
    ensures
        rows_len_sorted(rows.subrange(0, i + 1)),
{
    let whole = rows.subrange(0, i + 1);
    assert forall|a: int, b: int|
        0 <= a < b < whole.len() implies (#[trigger] whole[a]).0.len() >= (
    #[trigger] whole[b]).0.len() by {
        assert(whole[a] == rows[a]);
        assert(whole[b] == rows[b]);
        if b < j {
            assert(rows.subrange(0, j)[a] == rows[a]);
            assert(rows.subrange(0, j)[b] == rows[b]);
        } else if a >= j {
            assert(rows.subrange(j, i + 1)[a - j] == rows[a]);
            assert(rows.subrange(j, i + 1)[b - j] == rows[b]);
        } else if b == j {
            // a < j == b: chain through position j - 1.
            assert(rows.subrange(0, j)[a] == rows[a]);
            assert(rows.subrange(0, j)[j - 1] == rows[j - 1]);
        }
    }
}

/// Swapping an out-of-order adjacent pair keeps both pieces sorted and
/// the cross-boundary ordering.
proof fn lemma_swap_keeps_sorted(
    before: Seq<(Seq<char>, Seq<char>)>,
    after: Seq<(Seq<char>, Seq<char>)>,
    j: int,
    i: int,
)
    requires
        0 < j <= i < before.len(),
        after == before.update(j - 1, before[j]).update(j, before[j - 1]),
        rows_len_sorted(before.subrange(0, j)),
        rows_len_sorted(before.subrange(j, i + 1)),
        before[j].0.len() > before[j - 1].0.len(),
        forall|a: int, b: int|
            0 <= a < j && j < b <= i ==> (#[trigger] before[a]).0.len() >= (
            #[trigger] before[b]).0.len(),
    ensures
        rows_len_sorted(after.subrange(0, j - 1)),
        rows_len_sorted(after.subrange(j - 1, i + 1)),
        forall|a: int, b: int|
            0 <= a < j - 1 && j - 1 < b <= i ==> (#[trigger] after[a]).0.len() >= (
            #[trigger] after[b]).0.len(),
{
    assert forall|a: int, b: int|
        0 <= a < b < after.subrange(0, j - 1).len() implies (#[trigger] after.subrange(
        0,
        j - 1,
    )[a]).0.len() >= (#[trigger] after.subrange(0, j - 1)[b]).0.len() by {
        assert(after.subrange(0, j - 1)[a] == before[a]);
        assert(after.subrange(0, j - 1)[b] == before[b]);
        assert(before.subrange(0, j)[a] == before[a]);
        assert(before.subrange(0, j)[b] == before[b]);
    }
    assert forall|a: int, b: int|
        0 <= a < b < after.subrange(j - 1, i + 1).len() implies (#[trigger] after.subrange(
        j - 1,
        i + 1,
    )[a]).0.len() >= (#[trigger] after.subrange(j - 1, i + 1)[b]).0.len() by {
        let aa = a + j - 1;
        let bb = b + j - 1;
        assert(after.subrange(j - 1, i + 1)[a] == after[aa]);
        assert(after.subrange(j - 1, i + 1)[b] == after[bb]);
        if aa == j - 1 {
            // after[j - 1] is the old row j, at least as long as old row
            // j - 1 and ordered before everything past j.
            if bb == j {
            } else {
                assert(before.subrange(j, i + 1)[0] == before[j]);
                assert(before.subrange(j, i + 1)[bb - j] == before[bb]);
                assert(after[bb] == before[bb]);
            }
        } else if aa == j {
            if bb > j {
                assert(after[bb] == before[bb]);
                assert(0 <= j - 1 < j && j < bb <= i);
            }
        } else {
            assert(after[aa] == before[aa]);
            assert(after[bb] == before[bb]);
            assert(before.subrange(j, i + 1)[aa - j] == before[aa]);
            assert(before.subrange(j, i + 1)[bb - j] == before[bb]);
        }
    }
    assert forall|a: int, b: int|
        0 <= a < j - 1 && j - 1 < b <= i implies (#[trigger] after[a]).0.len() >= (
    #[trigger] after[b]).0.len() by {
        assert(after[a] == before[a]);
        assert(before.subrange(0, j)[a] == before[a]);
        if b == j - 1 + 1 && b == j {
            assert(after[b] == before[j - 1]);
            assert(before.subrange(0, j)[j - 1] == before[j - 1]);
        } else if b == j - 1 {
        } else if b == j {
            assert(after[b] == before[j - 1]);
            assert(before.subrange(0, j)[j - 1] == before[j - 1]);
        } else {
            assert(after[b] == before[b]);
        }
    }
}

/// Longest-prefix stability: when a table row's prefix designates the
/// name, resolution succeeds and returns a row whose prefix is at least
/// as long, never a strictly shorter one that also matches.
pub proof fn lemma_longest_prefix_wins(
    rows: Seq<(Seq<char>, Seq<char>)>,
    name: Seq<char>,
    j: int,
)
    requires
        rows_len_sorted(rows),
        0 <= j < rows.len(),
        prefix_designates(name, rows[j].0),
    ensures
        spec_resolve(rows, name) is Some,
        (spec_resolve(rows, name)->0).0.len() >= rows[j].0.len(),
    decreases rows.len(),
{
    if prefix_designates(name, rows[0].0) {
    } else {
        let rest = rows.subrange(1, rows.len() as int);
        assert(j >= 1);
        assert(rest[j - 1] == rows[j]);
        assert forall|a: int, b: int|
            0 <= a < b < rest.len() implies (#[trigger] rest[a]).0.len() >= (
        #[trigger] rest[b]).0.len() by {
            assert(rest[a] == rows[a + 1]);
            assert(rest[b] == rows[b + 1]);
        }
        lemma_longest_prefix_wins(rest, name, j - 1);
    }
}

} // verus!
