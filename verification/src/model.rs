//! The mathematical model shared by the stores and the codec: a store is a
//! sequence of row images with pairwise distinct keys, read as a map from key
//! to row.

use vstd::prelude::*;

use crate::row::{Row, RowView};

verus! {

/// The images of a sequence of rows.
pub open spec fn views_of(rows: Seq<Row>) -> Seq<RowView> {
    rows.map_values(|r: Row| r@)
}

/// No two rows of the sequence share a key.
pub open spec fn keys_unique(rows: Seq<RowView>) -> bool {
    forall|i: int, j: int| 0 <= i < j < rows.len() ==> #[trigger] rows[i].key != #[trigger] rows[j].key
}

/// Some row of the sequence carries the key `k`.
pub open spec fn has_key(rows: Seq<RowView>, k: Seq<char>) -> bool {
    exists|i: int| 0 <= i < rows.len() && #[trigger] rows[i].key == k
}

/// The sequence read as a map from key to row; on a duplicated key the later
/// row wins.
pub open spec fn row_map(rows: Seq<RowView>) -> Map<Seq<char>, RowView>
    decreases rows.len(),
{
    if rows.len() == 0 {
        Map::empty()
    } else {
        row_map(rows.drop_last()).insert(rows.last().key, rows.last())
    }
}

/// The position of the row carrying `key`, if any is there.
pub(crate) fn find_row(rows: &Vec<Row>, key: &str) -> (r: Option<usize>)
    ensures
        match r {
            Some(i) => i < rows@.len() && views_of(rows@)[i as int].key == key@,
            None => !has_key(views_of(rows@), key@),
        },
{
    let n = rows.len();
    let mut i: usize = 0;
    while i < n
        invariant
            0 <= i <= n,
            n == rows@.len(),
            forall|j: int| 0 <= j < i ==> #[trigger] views_of(rows@)[j].key != key@,
        decreases n - i,
    {
        if crate::strings::str_eq(rows[i].key.as_str(), key) {
            return Some(i);
        }
        i += 1;
    }
    proof {
        if has_key(views_of(rows@), key@) {
            let j = choose|j: int|
                0 <= j < views_of(rows@).len() && #[trigger] views_of(rows@)[j].key == key@;
            assert(views_of(rows@)[j].key != key@);
        }
    }
    None
}

/// The domain of `row_map` is exactly the set of keys of the sequence.
pub proof fn lemma_row_map_dom(rows: Seq<RowView>)
    ensures
        forall|k: Seq<char>| #[trigger] row_map(rows).contains_key(k) <==> has_key(rows, k),
    decreases rows.len(),
{
    if rows.len() == 0 {
    } else {
        let dl = rows.drop_last();
        lemma_row_map_dom(dl);
        assert forall|k: Seq<char>| #[trigger] row_map(rows).contains_key(k) implies has_key(
            rows,
            k,
        ) by {
            if k == rows.last().key {
                assert(rows[rows.len() - 1].key == k);
            } else {
                assert(row_map(dl).contains_key(k));
                assert(has_key(dl, k));
                let i = choose|i: int| 0 <= i < dl.len() && #[trigger] dl[i].key == k;
                assert(rows[i].key == k);
            }
        }
        assert forall|k: Seq<char>| has_key(rows, k) implies #[trigger] row_map(
            rows,
        ).contains_key(k) by {
            let i = choose|i: int| 0 <= i < rows.len() && #[trigger] rows[i].key == k;
            if i < rows.len() - 1 {
                assert(dl[i].key == k);
                assert(has_key(dl, k));
                assert(row_map(dl).contains_key(k));
            }
        }
    }
}

/// Under distinct keys, each row of the sequence is the map's entry for its
/// own key.
pub proof fn lemma_row_map_index(rows: Seq<RowView>, i: int)
    requires
        keys_unique(rows),
        0 <= i < rows.len(),
    ensures
        row_map(rows).contains_key(rows[i].key),
        row_map(rows)[rows[i].key] == rows[i],
    decreases rows.len(),
{
    if i < rows.len() - 1 {
        let dl = rows.drop_last();
        assert(rows[i].key != rows[rows.len() - 1].key);
        lemma_row_map_index(dl, i);
    }
}

/// Appending a row inserts it into the map under its key.
pub proof fn lemma_row_map_push(rows: Seq<RowView>, r: RowView)
    ensures
        row_map(rows.push(r)) == row_map(rows).insert(r.key, r),
{
    assert(rows.push(r).drop_last() =~= rows);
    assert(rows.push(r).last() == r);
}

/// Under distinct keys, removing the row at `i` removes its key from the map.
pub proof fn lemma_row_map_remove(rows: Seq<RowView>, i: int)
    requires
        keys_unique(rows),
        0 <= i < rows.len(),
    ensures
        row_map(rows.remove(i)) == row_map(rows).remove(rows[i].key),
        keys_unique(rows.remove(i)),
    decreases rows.len(),
{
    let k = rows[i].key;
    let dl = rows.drop_last();
    lemma_row_map_dom(dl);
    assert forall|x: int, y: int| 0 <= x < y < rows.remove(i).len() implies #[trigger] rows.remove(
        i,
    )[x].key != #[trigger] rows.remove(i)[y].key by {
        if y < i {
            assert(rows[x].key != rows[y].key);
        } else if x < i {
            assert(rows[x].key != rows[y + 1].key);
        } else {
            assert(rows[x + 1].key != rows[y + 1].key);
        }
    }
    if i == rows.len() - 1 {
        assert(rows.remove(i) =~= dl);
        assert(!has_key(dl, k)) by {
            if has_key(dl, k) {
                let j = choose|j: int| 0 <= j < dl.len() && #[trigger] dl[j].key == k;
                assert(rows[j].key == rows[i].key);
            }
        }
        assert(row_map(rows).remove(k) =~= row_map(dl));
    } else {
        let last = rows.last();
        assert(rows[i].key != rows[rows.len() - 1].key);
        lemma_row_map_remove(dl, i);
        assert(rows.remove(i).drop_last() =~= dl.remove(i));
        assert(rows.remove(i).last() == last);
        assert(row_map(rows.remove(i)) == row_map(dl.remove(i)).insert(last.key, last));
        assert(row_map(dl).remove(k).insert(last.key, last) =~= row_map(dl).insert(
            last.key,
            last,
        ).remove(k));
    }
}

/// Appending a row under a key nobody holds keeps the keys distinct.
pub proof fn lemma_keys_unique_push(rows: Seq<RowView>, r: RowView)
    requires
        keys_unique(rows),
        !has_key(rows, r.key),
    ensures
        keys_unique(rows.push(r)),
{
    assert forall|i: int, j: int| 0 <= i < j < rows.push(r).len() implies #[trigger] rows.push(
        r,
    )[i].key != #[trigger] rows.push(r)[j].key by {
        if j == rows.len() {
            if rows[i].key == r.key {
                assert(has_key(rows, r.key));
            }
        } else {
            assert(rows[i].key != rows[j].key);
        }
    }
}

/// Under distinct keys, removing the row at `i` leaves its key unheld.
pub proof fn lemma_remove_frees_key(rows: Seq<RowView>, i: int)
    requires
        keys_unique(rows),
        0 <= i < rows.len(),
    ensures
        !has_key(rows.remove(i), rows[i].key),
{
    if has_key(rows.remove(i), rows[i].key) {
        let j = choose|j: int|
            0 <= j < rows.remove(i).len() && #[trigger] rows.remove(i)[j].key == rows[i].key;
        if j < i {
            assert(rows[j].key != rows[i].key);
        } else {
            assert(rows[i].key != rows[j + 1].key);
        }
    }
}

/// Under distinct keys, the map has exactly one entry per row.
pub proof fn lemma_row_map_len(rows: Seq<RowView>)
    requires
        keys_unique(rows),
    ensures
        row_map(rows).dom().finite(),
        row_map(rows).dom().len() == rows.len(),
    decreases rows.len(),
{
    if rows.len() == 0 {
        assert(row_map(rows).dom() =~= Set::<Seq<char>>::empty());
    } else {
        let dl = rows.drop_last();
        let k = rows.last().key;
        lemma_row_map_len(dl);
        lemma_row_map_dom(dl);
        assert(!has_key(dl, k)) by {
            if has_key(dl, k) {
                let j = choose|j: int| 0 <= j < dl.len() && #[trigger] dl[j].key == k;
                assert(rows[j].key == rows[rows.len() - 1].key);
            }
        }
        assert(row_map(rows).dom() =~= row_map(dl).dom().insert(k));
        vstd::set::axiom_set_insert_finite(row_map(dl).dom(), k);
        vstd::set::axiom_set_insert_len(row_map(dl).dom(), k);
    }
}

/// The map of any row sequence has finitely many entries.
pub proof fn lemma_row_map_finite(rows: Seq<RowView>)
    ensures
        row_map(rows).dom().finite(),
    decreases rows.len(),
{
    if rows.len() == 0 {
        assert(row_map(rows).dom() =~= Set::<Seq<char>>::empty());
    } else {
        lemma_row_map_finite(rows.drop_last());
        assert(row_map(rows).dom() =~= row_map(rows.drop_last()).dom().insert(rows.last().key));
        vstd::set::axiom_set_insert_finite(row_map(rows.drop_last()).dom(), rows.last().key);
    }
}

/// A sequence of rows with distinct keys, each one an entry of `m`, exactly
/// as many as `m` has entries: the sequence's map is `m`.
pub proof fn lemma_row_map_complete(rows: Seq<RowView>, m: Map<Seq<char>, RowView>)
    requires
        keys_unique(rows),
        m.dom().finite(),
        rows.len() == m.dom().len(),
        forall|i: int|
            0 <= i < rows.len() ==> m.contains_key(#[trigger] rows[i].key) && m[rows[i].key]
                == rows[i],
    ensures
        row_map(rows) == m,
{
    lemma_row_map_dom(rows);
    lemma_row_map_len(rows);
    assert forall|k: Seq<char>| row_map(rows).dom().contains(k) implies m.dom().contains(k) by {
        assert(has_key(rows, k));
        let i = choose|i: int| 0 <= i < rows.len() && #[trigger] rows[i].key == k;
        assert(m.contains_key(rows[i].key));
    }
    vstd::set_lib::lemma_subset_equality(row_map(rows).dom(), m.dom());
    assert forall|k: Seq<char>| #[trigger] row_map(rows).contains_key(k) implies row_map(rows)[k]
        == m[k] by {
        assert(has_key(rows, k));
        let i = choose|i: int| 0 <= i < rows.len() && #[trigger] rows[i].key == k;
        lemma_row_map_index(rows, i);
    }
    assert(row_map(rows) =~= m);
}

} // verus!
