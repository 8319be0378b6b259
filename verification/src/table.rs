//! Tables keyed by text, kept as rows in insertion order.
//!
//! A table is a sequence of `(key, value)` rows. Its meaning is the map from
//! each key to the value of its row; the lemmas here relate edits of the
//! rows to edits of that map.

use vstd::prelude::*;

verus! {

/// A key of a table.
pub type Key = Seq<char>;

/// No key occurs in two rows.
pub open spec fn distinct_keys<V>(rows: Seq<(Key, V)>) -> bool {
    forall|i: int, j: int|
        0 <= i < j < rows.len() ==> (#[trigger] rows[i]).0 != (#[trigger] rows[j]).0
}

/// The map that the rows stand for. Where a key occurs twice, the later
/// row counts.
pub open spec fn keyed<V>(rows: Seq<(Key, V)>) -> Map<Key, V>
    decreases rows.len(),
{
    if rows.len() == 0 {
        Map::empty()
    } else {
        keyed(rows.drop_last()).insert(rows.last().0, rows.last().1)
    }
}

/// Some row has the key.
pub open spec fn has_key<V>(rows: Seq<(Key, V)>, key: Key) -> bool {
    exists|i: int| 0 <= i < rows.len() && (#[trigger] rows[i]).0 == key
}

/// A key is in the map exactly when some row has it.
pub proof fn lemma_keyed_dom<V>(rows: Seq<(Key, V)>, key: Key)
    ensures
        keyed(rows).contains_key(key) <==> has_key(rows, key),
    decreases rows.len(),
{
    if rows.len() > 0 {
        let front = rows.drop_last();
        lemma_keyed_dom(front, key);
        if has_key(front, key) {
            let i = choose|i: int| 0 <= i < front.len() && (#[trigger] front[i]).0 == key;
        }
        if has_key(rows, key) {
            let i = choose|i: int| 0 <= i < rows.len() && (#[trigger] rows[i]).0 == key;
            if i < rows.len() - 1 {
                assert(front[i].0 == key);
            }
        }
        if rows.last().0 == key {
            assert(rows[rows.len() - 1].0 == key);
        }
    }
}

/// With distinct keys, the map sends the key of each row to that row's value.
pub proof fn lemma_keyed_at<V>(rows: Seq<(Key, V)>, i: int)
    requires
        distinct_keys(rows),
        0 <= i < rows.len(),
    ensures
        keyed(rows).contains_key(rows[i].0),
        keyed(rows)[rows[i].0] == rows[i].1,
    decreases rows.len(),
{
    let front = rows.drop_last();
    if i < rows.len() - 1 {
        assert(distinct_keys(front)) by {
            assert forall|a: int, b: int| 0 <= a < b < front.len() implies (#[trigger] front[a]).0
                != (#[trigger] front[b]).0 by {
                assert(rows[a].0 != rows[b].0);
            }
        }
        lemma_keyed_at(front, i);
    }
}

/// Appending a row inserts it into the map.
pub proof fn lemma_keyed_push<V>(rows: Seq<(Key, V)>, key: Key, value: V)
    ensures
        keyed(rows.push((key, value))) == keyed(rows).insert(key, value),
{
    assert(rows.push((key, value)).drop_last() =~= rows);
}

/// With distinct keys, replacing the value of a row replaces it in the map.
pub proof fn lemma_keyed_update<V>(rows: Seq<(Key, V)>, i: int, value: V)
    requires
        distinct_keys(rows),
        0 <= i < rows.len(),
    ensures
        distinct_keys(rows.update(i, (rows[i].0, value))),
        keyed(rows.update(i, (rows[i].0, value))) == keyed(rows).insert(rows[i].0, value),
    decreases rows.len(),
{
    let key = rows[i].0;
    let next = rows.update(i, (key, value));
    assert(distinct_keys(next)) by {
        assert forall|a: int, b: int| 0 <= a < b < next.len() implies (#[trigger] next[a]).0 != (
        #[trigger] next[b]).0 by {
            assert(rows[a].0 != rows[b].0);
        }
    }
    let front = rows.drop_last();
    if i == rows.len() - 1 {
        assert(next.drop_last() =~= front);
    } else {
        assert(distinct_keys(front)) by {
            assert forall|a: int, b: int| 0 <= a < b < front.len() implies (#[trigger] front[a]).0
                != (#[trigger] front[b]).0 by {
                assert(rows[a].0 != rows[b].0);
            }
        }
        lemma_keyed_update(front, i, value);
        assert(next.drop_last() =~= front.update(i, (key, value)));
    }
}

/// Appending a row with a new key keeps the keys distinct.
pub proof fn lemma_distinct_push<V>(rows: Seq<(Key, V)>, key: Key, value: V)
    requires
        distinct_keys(rows),
        !has_key(rows, key),
    ensures
        distinct_keys(rows.push((key, value))),
{
    let next = rows.push((key, value));
    assert forall|a: int, b: int| 0 <= a < b < next.len() implies (#[trigger] next[a]).0 != (
    #[trigger] next[b]).0 by {
        if b < rows.len() {
            assert(rows[a].0 != rows[b].0);
        } else {
            assert(rows[a].0 != key);
        }
    }
}

/// The rows without those before a row keep their keys distinct.
pub proof fn lemma_distinct_front<V>(rows: Seq<(Key, V)>)
    requires
        distinct_keys(rows),
        rows.len() > 0,
    ensures
        distinct_keys(rows.drop_last()),
        !has_key(rows.drop_last(), rows.last().0),
{
    let front = rows.drop_last();
    assert forall|a: int, b: int| 0 <= a < b < front.len() implies (#[trigger] front[a]).0 != (
    #[trigger] front[b]).0 by {
        assert(rows[a].0 != rows[b].0);
    }
    if has_key(front, rows.last().0) {
        let i = choose|i: int| 0 <= i < front.len() && (#[trigger] front[i]).0 == rows.last().0;
    }
}

/// With distinct keys, taking a row out takes its key out of the map.
pub proof fn lemma_keyed_remove<V>(rows: Seq<(Key, V)>, i: int)
    requires
        distinct_keys(rows),
        0 <= i < rows.len(),
    ensures
        distinct_keys(rows.remove(i)),
        keyed(rows.remove(i)) == keyed(rows).remove(rows[i].0),
    decreases rows.len(),
{
    let key = rows[i].0;
    let next = rows.remove(i);
    assert(distinct_keys(next)) by {
        assert forall|a: int, b: int| 0 <= a < b < next.len() implies (#[trigger] next[a]).0 != (
        #[trigger] next[b]).0 by {
            let a0 = if a < i { a } else { a + 1 };
            let b0 = if b < i { b } else { b + 1 };
            assert(rows[a0].0 != rows[b0].0);
        }
    }
    let front = rows.drop_last();
    lemma_distinct_front(rows);
    if i == rows.len() - 1 {
        lemma_keyed_dom(front, key);
    } else {
        lemma_keyed_remove(front, i);
        assert(next.drop_last() =~= front.remove(i));
    }
}

} // verus!
