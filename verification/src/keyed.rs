//! Small tables kept as lists of pairs: the first pair with a key is the
//! entry of that key, and a table that is only changed through these
//! functions holds each key once.

use vstd::prelude::*;

verus! {

/// The pair at `i` is the first with the key `key`.
pub open spec fn is_first_key<K, V>(table: Seq<(K, V)>, key: K, i: int) -> bool {
    &&& 0 <= i < table.len()
    &&& table[i].0 == key
    &&& forall|j: int| 0 <= j < i ==> (#[trigger] table[j]).0 != key
}

/// The place of the first pair with the key `key`, if there is one.
pub open spec fn find<K, V>(table: Seq<(K, V)>, key: K) -> Option<int> {
    if exists|i: int| is_first_key(table, key, i) {
        Some(choose|i: int| is_first_key(table, key, i))
    } else {
        None
    }
}

/// The value under `key`, if the table has one.
pub open spec fn get<K, V>(table: Seq<(K, V)>, key: K) -> Option<V> {
    match find(table, key) {
        Some(i) => Some(table[i].1),
        None => None,
    }
}

/// The table with `value` under `key`: in the place of the old entry, or at
/// the end where there was none.
pub open spec fn put<K, V>(table: Seq<(K, V)>, key: K, value: V) -> Seq<(K, V)> {
    match find(table, key) {
        Some(i) => table.update(i, (key, value)),
        None => table.push((key, value)),
    }
}

/// The table without the entry of `key`.
pub open spec fn cut<K, V>(table: Seq<(K, V)>, key: K) -> Seq<(K, V)> {
    match find(table, key) {
        Some(i) => table.remove(i),
        None => table,
    }
}

/// No key occurs twice.
pub open spec fn distinct_keys<K, V>(table: Seq<(K, V)>) -> bool {
    forall|i: int, j: int|
        0 <= i < j < table.len() ==> (#[trigger] table[i]).0 != (#[trigger] table[j]).0
}

/// A table keyed by strings, as the mathematical table it stands for.
pub open spec fn by_text<V>(table: Seq<(String, V)>) -> Seq<(Seq<char>, V)> {
    table.map_values(|e: (String, V)| (e.0@, e.1))
}

/// A table of strings, as the mathematical table it stands for.
pub open spec fn of_text<K>(table: Seq<(K, String)>) -> Seq<(K, Seq<char>)> {
    table.map_values(|e: (K, String)| (e.0, e.1@))
}

/// Nothing is found in a table that no pair of which has the key.
pub proof fn lemma_find_none<K, V>(table: Seq<(K, V)>, key: K)
    requires
        forall|j: int| 0 <= j < table.len() ==> (#[trigger] table[j]).0 != key,
    ensures
        find(table, key).is_none(),
{
}

/// The first pair with the key is what is found.
pub proof fn lemma_find_some<K, V>(table: Seq<(K, V)>, key: K, i: int)
    requires
        is_first_key(table, key, i),
    ensures
        find(table, key) == Some(i),
{
    let c = choose|c: int| is_first_key(table, key, c);
    if c < i {
        assert(table[c].0 != key);
    } else if i < c {
        assert(table[i].0 != key);
    }
}

/// Putting a value under a key and cutting a key out keep the keys distinct.
pub proof fn lemma_distinct_kept<K, V>(table: Seq<(K, V)>, key: K, value: V)
    requires
        distinct_keys(table),
    ensures
        distinct_keys(put(table, key, value)),
        distinct_keys(cut(table, key)),
{
    match find(table, key) {
        Some(i) => {
            let changed = table.update(i, (key, value));
            assert forall|a: int, b: int| 0 <= a < b < changed.len() implies (
            #[trigger] changed[a]).0 != (#[trigger] changed[b]).0 by {
                assert(table[a].0 != table[b].0);
            }
            let less = table.remove(i);
            assert forall|a: int, b: int| 0 <= a < b < less.len() implies (#[trigger] less[a]).0
                != (#[trigger] less[b]).0 by {
                let a0 = if a < i { a } else { a + 1 };
                let b0 = if b < i { b } else { b + 1 };
                assert(table[a0].0 != table[b0].0);
            }
        },
        None => {
            let more = table.push((key, value));
            assert forall|a: int, b: int| 0 <= a < b < more.len() implies (#[trigger] more[a]).0
                != (#[trigger] more[b]).0 by {
                if b == table.len() {
                    if more[a].0 == key {
                        assert(table[a].0 == key);
                        lemma_has_first(table, key, a);
                    }
                } else {
                    assert(table[a].0 != table[b].0);
                }
            }
        },
    }
}

/// Where some pair has the key, some pair is the first with it.
pub proof fn lemma_has_first<K, V>(table: Seq<(K, V)>, key: K, i: int)
    requires
        0 <= i < table.len(),
        table[i].0 == key,
    ensures
        exists|f: int| is_first_key(table, key, f),
    decreases i,
{
    if exists|j: int| 0 <= j < i && (#[trigger] table[j]).0 == key {
        let j = choose|j: int| 0 <= j < i && (#[trigger] table[j]).0 == key;
        lemma_has_first(table, key, j);
    } else {
        assert(is_first_key(table, key, i));
    }
}

/// The place of the first pair with the key `key`, if there is one.
pub fn locate<V>(table: &Vec<(String, V)>, key: &String) -> (r: Option<usize>)
    ensures
        match r {
            Some(i) => find(by_text(table@), key@) == Some(i as int) && i < table.len(),
            None => find(by_text(table@), key@).is_none(),
        },
{
    let mut i: usize = 0;
    while i < table.len()
        invariant
            i <= table.len(),
            forall|j: int| 0 <= j < i ==> (#[trigger] by_text(table@)[j]).0 != key@,
        decreases table.len() - i,
    {
        if table[i].0 == *key {
            proof {
                lemma_find_some(by_text(table@), key@, i as int);
            }
            return Some(i);
        }
        i += 1;
    }
    proof {
        lemma_find_none(by_text(table@), key@);
    }
    None
}

/// The value under `key`, if the table has one.
pub fn lookup<V: Copy>(table: &Vec<(String, V)>, key: &String) -> (r: Option<V>)
    ensures
        r == get(by_text(table@), key@),
{
    match locate(table, key) {
        Some(i) => Some(table[i].1),
        None => None,
    }
}

/// Puts `value` under `key` and returns the value that was there.
pub fn insert<V: Copy>(table: &mut Vec<(String, V)>, key: String, value: V) -> (r: Option<V>)
    ensures
        by_text(final(table)@) == put(by_text(old(table)@), key@, value),
        r == get(by_text(old(table)@), key@),
{
    match locate(table, &key) {
        Some(i) => {
            let before: V = table[i].1;
            table.set(i, (key, value));
            assert(by_text(table@) =~= put(by_text(old(table)@), key@, value));
            Some(before)
        },
        None => {
            table.push((key, value));
            assert(by_text(table@) =~= put(by_text(old(table)@), key@, value));
            None
        },
    }
}

/// Takes the entry of `key` out and returns its value.
pub fn remove<V: Copy>(table: &mut Vec<(String, V)>, key: &String) -> (r: Option<V>)
    ensures
        by_text(final(table)@) == cut(by_text(old(table)@), key@),
        r == get(by_text(old(table)@), key@),
{
    match locate(table, key) {
        Some(i) => {
            let gone: (String, V) = table.remove(i);
            assert(by_text(table@) =~= cut(by_text(old(table)@), key@));
            Some(gone.1)
        },
        None => None,
    }
}

} // verus!
