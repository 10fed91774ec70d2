//! Cells with their contents, keyed by their coordinates.

use crate::grid::lists;
use crate::value::LiteralValue;
use std::collections::BTreeMap;
use vstd::prelude::*;
use vstd::std_specs::cmp::OrdSpec;
use vstd::std_specs::iter::IteratorSpec;

verus! {

/// The contents of a cell.
#[derive(Debug, PartialEq)]
pub struct CellData {
    pub value: Option<LiteralValue>,
    pub formula: Option<String>,
    pub style: Option<u32>,
}

/// The order of cells: by row, then by column.
pub open spec fn cell_before(a: (u32, u32), b: (u32, u32)) -> bool {
    a.0 < b.0 || (a.0 == b.0 && a.1 < b.1)
}

/// Whether `order` lists the cells of `cells`, each once, by row and then by
/// column.
pub open spec fn is_listing(
    order: Seq<(u32, u32, CellData)>,
    cells: Map<(u32, u32), CellData>,
) -> bool {
    &&& forall|i: int, j: int|
        0 <= i < j < order.len() ==> cell_before(
            ((#[trigger] order[i]).0, order[i].1),
            ((#[trigger] order[j]).0, order[j].1),
        )
    &&& forall|i: int|
        0 <= i < order.len() ==> cells.contains_key(((#[trigger] order[i]).0, order[i].1))
            && cells[(order[i].0, order[i].1)] == order[i].2
    &&& forall|k: (u32, u32)| #[trigger]
        cells.contains_key(k) ==> exists|i: int|
            0 <= i < order.len() && (#[trigger] order[i]).0 == k.0 && order[i].1 == k.1
}

/// The cells of `cells` by row and then by column.
pub(crate) fn list_range<'a>(cells: &'a BTreeMap<(u32, u32), CellData>) -> (r: (
    Vec<(u32, u32, &'a CellData)>,
    Ghost<Seq<(u32, u32, CellData)>>,
))
    ensures
        is_listing(r.1@, cells@),
        lists(r.0@, r.1@),
{
    broadcast use vstd::laws_cmp::group_laws_cmp;
    broadcast use vstd::std_specs::btree::group_btree_axioms;

    let mut listed: Vec<(u32, u32, &'a CellData)> = Vec::new();
    let ghost all = cells.iter().remaining();
    for entry in it: cells.iter()
        invariant
            it.seq() == all,
            listed@.len() == it.index(),
            forall|i: int|
                0 <= i < listed@.len() ==> (#[trigger] listed@[i]).0 == all[i].0.0 && listed@[i].1
                    == all[i].0.1 && *listed@[i].2 == *all[i].1,
    {
        listed.push((entry.0.0, entry.0.1, entry.1));
    }
    let ghost order = Seq::new(
        listed@.len(),
        |i: int| (listed@[i].0, listed@[i].1, *listed@[i].2),
    );
    proof {
        let keys = all.map_values(|kv: (&(u32, u32), &CellData)| *kv.0);
        assert(vstd::std_specs::btree::increasing_seq(keys));
        assert forall|i: int, j: int| 0 <= i < j < order.len() implies cell_before(
            ((#[trigger] order[i]).0, order[i].1),
            ((#[trigger] order[j]).0, order[j].1),
        ) by {
            assert(listed@[i].0 == keys[i].0 && listed@[i].1 == keys[i].1);
            assert(listed@[j].0 == keys[j].0 && listed@[j].1 == keys[j].1);
            assert(keys[i].cmp_spec(&keys[j]) is Less);
        }
        assert forall|i: int| 0 <= i < order.len() implies cells@.contains_key(
            ((#[trigger] order[i]).0, order[i].1),
        ) && cells@[(order[i].0, order[i].1)] == order[i].2 by {
            assert(listed@[i].0 == all[i].0.0);
            assert(cells@.contains_key(*all[i].0));
        }
        assert forall|k: (u32, u32)| #[trigger] cells@.contains_key(k) implies exists|i: int|
            0 <= i < order.len() && (#[trigger] order[i]).0 == k.0 && order[i].1 == k.1 by {
            assert(all.contains((&k, &cells@[k])));
            let i = choose|i: int| 0 <= i < all.len() && all[i] == (&k, &cells@[k]);
            assert(listed@[i].0 == all[i].0.0);
            assert(order[i].0 == k.0);
        }
    }
    (listed, Ghost(order))
}

/// The cells of a map can be listed in one order only.
pub proof fn law_listing_is_unique(
    a: Seq<(u32, u32, CellData)>,
    b: Seq<(u32, u32, CellData)>,
    cells: Map<(u32, u32), CellData>,
)
    requires
        is_listing(a, cells),
        is_listing(b, cells),
    ensures
        a == b,
{
    lemma_same_prefix(a, b, cells, a.len() as int);
    lemma_same_prefix(b, a, cells, b.len() as int);
    assert(a =~= b);
}

proof fn lemma_same_prefix(
    a: Seq<(u32, u32, CellData)>,
    b: Seq<(u32, u32, CellData)>,
    cells: Map<(u32, u32), CellData>,
    n: int,
)
    requires
        is_listing(a, cells),
        is_listing(b, cells),
        0 <= n <= a.len(),
    ensures
        n <= b.len(),
        forall|i: int| 0 <= i < n ==> #[trigger] a[i] == b[i],
    decreases n,
{
    if n > 0 {
        lemma_same_prefix(a, b, cells, n - 1);
        let k = n - 1;
        let key = (a[k].0, a[k].1);
        assert(cells.contains_key(key));
        let j = choose|j: int|
            0 <= j < b.len() && (#[trigger] b[j]).0 == key.0 && b[j].1 == key.1;
        if j < k {
            assert(a[j] == b[j]);
            assert(cell_before((a[j].0, a[j].1), (a[k].0, a[k].1)));
        }
        let other = (b[k].0, b[k].1);
        assert(cells.contains_key(other));
        let i = choose|i: int|
            0 <= i < a.len() && (#[trigger] a[i]).0 == other.0 && a[i].1 == other.1;
        if i < k {
            assert(a[i] == b[i]);
            assert(cell_before((b[i].0, b[i].1), (b[k].0, b[k].1)));
        }
        if j > k {
            assert(cell_before((b[k].0, b[k].1), (b[j].0, b[j].1)));
            if i > k {
                assert(cell_before((a[k].0, a[k].1), (a[i].0, a[i].1)));
            }
        }
        assert(j == k);
        assert(a[k] == b[k]);
    }
}

} // verus!
