//! Rows under text keys, each key at most once, read as a map.

use vstd::prelude::*;

verus! {

/// Whether some row stands under `key`.
pub open spec fn has_key<W>(rows: Seq<(Seq<char>, W)>, key: Seq<char>) -> bool {
    exists|i: int| 0 <= i < rows.len() && (#[trigger] rows[i]).0 == key
}

/// The place of a row that stands under `key`.
pub open spec fn row_of<W>(rows: Seq<(Seq<char>, W)>, key: Seq<char>) -> int {
    choose|i: int| 0 <= i < rows.len() && (#[trigger] rows[i]).0 == key
}

/// No two rows stand under the same key.
pub open spec fn distinct_keys<W>(rows: Seq<(Seq<char>, W)>) -> bool {
    forall|i: int, j: int| 0 <= i < j < rows.len() ==> (#[trigger] rows[i]).0 != (#[trigger] rows[j]).0
}

/// The map from each key to what stands under it.
pub open spec fn as_map<W>(rows: Seq<(Seq<char>, W)>) -> Map<Seq<char>, W> {
    Map::new(|key: Seq<char>| has_key(rows, key), |key: Seq<char>| rows[row_of(rows, key)].1)
}

/// The map holds each row under its key.
pub proof fn lemma_row<W>(rows: Seq<(Seq<char>, W)>, i: int)
    requires
        distinct_keys(rows),
        0 <= i < rows.len(),
    ensures
        has_key(rows, rows[i].0),
        row_of(rows, rows[i].0) == i,
        as_map(rows).contains_key(rows[i].0),
        as_map(rows)[rows[i].0] == rows[i].1,
{
}

/// A new value in a row is a new value under the row's key.
pub proof fn lemma_update<W>(rows: Seq<(Seq<char>, W)>, i: int, value: W)
    requires
        distinct_keys(rows),
        0 <= i < rows.len(),
    ensures
        distinct_keys(rows.update(i, (rows[i].0, value))),
        as_map(rows.update(i, (rows[i].0, value))) == as_map(rows).insert(rows[i].0, value),
{
    let after = rows.update(i, (rows[i].0, value));
    let want = as_map(rows).insert(rows[i].0, value);
    assert forall|key: Seq<char>| as_map(after).contains_key(key) == want.contains_key(key) by {
        if has_key(rows, key) {
            let j = row_of(rows, key);
            assert(after[j].0 == key);
        }
    }
}

/// A new row under a new key is a new entry of the map.
pub proof fn lemma_push<W>(rows: Seq<(Seq<char>, W)>, key: Seq<char>, value: W)
    requires
        distinct_keys(rows),
        !has_key(rows, key),
    ensures
        distinct_keys(rows.push((key, value))),
        as_map(rows.push((key, value))) == as_map(rows).insert(key, value),
{
    let after = rows.push((key, value));
    let want = as_map(rows).insert(key, value);
    assert forall|k: Seq<char>| as_map(after).contains_key(k) == want.contains_key(k) by {
        if has_key(rows, k) {
            let j = row_of(rows, k);
            assert(after[j].0 == k);
        }
        lemma_row(after, rows.len() as int);
    }
}

/// A row taken out is a key taken out of the map.
pub proof fn lemma_remove<W>(rows: Seq<(Seq<char>, W)>, i: int)
    requires
        distinct_keys(rows),
        0 <= i < rows.len(),
    ensures
        distinct_keys(rows.remove(i)),
        as_map(rows.remove(i)) == as_map(rows).remove(rows[i].0),
{
    let after = rows.remove(i);
    let want = as_map(rows).remove(rows[i].0);
    assert forall|key: Seq<char>| as_map(after).contains_key(key) == want.contains_key(key) by {
        if has_key(rows, key) && key != rows[i].0 {
            let j = row_of(rows, key);
            let x = if j < i { j } else { j - 1 };
            assert(after[x] == rows[j]);
        }
    }
}

} // verus!
