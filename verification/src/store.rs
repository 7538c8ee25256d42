//! Keyed storage: vectors of key/value pairs with unique keys.
//!
//! The registry's maps and the chat log's cursors are small id-keyed tables.
//! They are held as vectors of pairs whose keys are unique, with lookup,
//! replace-or-insert, and remove operations specified over `value_of_key`.

use vstd::prelude::*;

use crate::ids::AgentId;

verus! {

/// No key occurs twice.
pub open spec fn keys_unique<V>(s: Seq<(AgentId, V)>) -> bool {
    forall|i: int, j: int| 0 <= i < j < s.len() ==> (#[trigger] s[i]).0 != (#[trigger] s[j]).0
}

pub open spec fn has_key<V>(s: Seq<(AgentId, V)>, k: AgentId) -> bool {
    exists|i: int| 0 <= i < s.len() && (#[trigger] s[i]).0 == k
}

pub open spec fn index_of_key<V>(s: Seq<(AgentId, V)>, k: AgentId) -> int {
    choose|i: int| 0 <= i < s.len() && (#[trigger] s[i]).0 == k
}

/// The value stored under `k`, if any.
pub open spec fn value_of_key<V>(s: Seq<(AgentId, V)>, k: AgentId) -> Option<V> {
    if has_key(s, k) {
        Some(s[index_of_key(s, k)].1)
    } else {
        None
    }
}

/// With unique keys, the pair at index `i` is what lookup of its key finds.
pub proof fn lemma_key_at<V>(s: Seq<(AgentId, V)>, i: int)
    requires
        keys_unique(s),
        0 <= i < s.len(),
    ensures
        has_key(s, s[i].0),
        index_of_key(s, s[i].0) == i,
        value_of_key(s, s[i].0) == Some(s[i].1),
{
    assert(has_key(s, s[i].0));
    let j = index_of_key(s, s[i].0);
    if j != i {
        if j < i {
            assert(s[j].0 != s[i].0);
        } else {
            assert(s[i].0 != s[j].0);
        }
    }
}

/// Removing the pair at index `i` does not disturb lookups of other keys.
pub proof fn lemma_lookup_after_remove<V>(s: Seq<(AgentId, V)>, i: int, k2: AgentId)
    requires
        keys_unique(s),
        0 <= i < s.len(),
        k2 != s[i].0,
    ensures
        keys_unique(s.remove(i)),
        value_of_key(s.remove(i), k2) == value_of_key(s, k2),
{
    let t = s.remove(i);
    assert forall|a: int, b: int| 0 <= a < b < t.len() implies (#[trigger] t[a]).0 != (
    #[trigger] t[b]).0 by {
        let a0 = if a < i {
            a
        } else {
            a + 1
        };
        let b0 = if b < i {
            b
        } else {
            b + 1
        };
        assert(t[a] == s[a0]);
        assert(t[b] == s[b0]);
    }
    if has_key(s, k2) {
        let j = index_of_key(s, k2);
        lemma_key_at(s, j);
        let j2 = if j < i {
            j
        } else {
            j - 1
        };
        assert(t[j2] == s[j]);
        lemma_key_at(t, j2);
    } else {
        assert forall|a: int| 0 <= a < t.len() implies (#[trigger] t[a]).0 != k2 by {
            let a0 = if a < i {
                a
            } else {
                a + 1
            };
            assert(t[a] == s[a0]);
        }
    }
}

/// Replacing the value at index `i` changes only the lookup of that key.
pub proof fn lemma_lookup_after_update<V>(s: Seq<(AgentId, V)>, i: int, v: V, k2: AgentId)
    requires
        keys_unique(s),
        0 <= i < s.len(),
    ensures
        keys_unique(s.update(i, (s[i].0, v))),
        value_of_key(s.update(i, (s[i].0, v)), s[i].0) == Some(v),
        k2 != s[i].0 ==> value_of_key(s.update(i, (s[i].0, v)), k2) == value_of_key(s, k2),
{
    let t = s.update(i, (s[i].0, v));
    assert forall|a: int, b: int| 0 <= a < b < t.len() implies (#[trigger] t[a]).0 != (
    #[trigger] t[b]).0 by {
        assert(t[a].0 == s[a].0);
        assert(t[b].0 == s[b].0);
    }
    lemma_key_at(t, i);
    if k2 != s[i].0 {
        if has_key(s, k2) {
            let j = index_of_key(s, k2);
            lemma_key_at(s, j);
            assert(t[j] == s[j]);
            lemma_key_at(t, j);
        } else {
            assert forall|a: int| 0 <= a < t.len() implies (#[trigger] t[a]).0 != k2 by {
                assert(t[a].0 == s[a].0);
            }
        }
    }
}

/// Appending a fresh key changes only the lookup of that key.
pub proof fn lemma_lookup_after_push<V>(s: Seq<(AgentId, V)>, k: AgentId, v: V, k2: AgentId)
    requires
        keys_unique(s),
        !has_key(s, k),
    ensures
        keys_unique(s.push((k, v))),
        value_of_key(s.push((k, v)), k) == Some(v),
        k2 != k ==> value_of_key(s.push((k, v)), k2) == value_of_key(s, k2),
{
    let t = s.push((k, v));
    assert forall|a: int, b: int| 0 <= a < b < t.len() implies (#[trigger] t[a]).0 != (
    #[trigger] t[b]).0 by {
        if b < s.len() {
            assert(t[a] == s[a]);
            assert(t[b] == s[b]);
        } else {
            assert(t[a] == s[a]);
            assert(!(s[a].0 == k));
        }
    }
    lemma_key_at(t, s.len() as int);
    if k2 != k {
        if has_key(s, k2) {
            let j = index_of_key(s, k2);
            lemma_key_at(s, j);
            assert(t[j] == s[j]);
            lemma_key_at(t, j);
        } else {
            assert forall|a: int| 0 <= a < t.len() implies (#[trigger] t[a]).0 != k2 by {
                if a < s.len() {
                    assert(t[a] == s[a]);
                }
            }
        }
    }
}

/// Removing the pair at index `i` keeps the keys unique, loses that pair's
/// key, and disturbs no other lookup.
pub proof fn lemma_remove_entry<V>(s: Seq<(AgentId, V)>, i: int)
    requires
        keys_unique(s),
        0 <= i < s.len(),
    ensures
        keys_unique(s.remove(i)),
        !has_key(s.remove(i), s[i].0),
        forall|k2: AgentId|
            k2 != s[i].0 ==> value_of_key(s.remove(i), k2) == value_of_key(s, k2),
        forall|k2: AgentId| k2 != s[i].0 ==> has_key(s.remove(i), k2) == has_key(s, k2),
{
    let t = s.remove(i);
    assert forall|a: int, b: int| 0 <= a < b < t.len() implies (#[trigger] t[a]).0 != (
    #[trigger] t[b]).0 by {
        let a0 = if a < i {
            a
        } else {
            a + 1
        };
        let b0 = if b < i {
            b
        } else {
            b + 1
        };
        assert(t[a] == s[a0]);
        assert(t[b] == s[b0]);
    }
    assert forall|a: int| 0 <= a < t.len() implies (#[trigger] t[a]).0 != s[i].0 by {
        let a0 = if a < i {
            a
        } else {
            a + 1
        };
        assert(t[a] == s[a0]);
        if a0 < i {
            assert(s[a0].0 != s[i].0);
        } else {
            assert(s[i].0 != s[a0].0);
        }
    }
    assert forall|k2: AgentId| k2 != s[i].0 implies value_of_key(t, k2) == value_of_key(
        s,
        k2,
    ) by {
        lemma_lookup_after_remove(s, i, k2);
    }
    assert forall|k2: AgentId| k2 != s[i].0 implies has_key(t, k2) == has_key(s, k2) by {
        assert(value_of_key(t, k2) == value_of_key(s, k2));
    }
}

/// Index of the entry holding `k`, if one is present.
pub fn find_key<V>(entries: &Vec<(AgentId, V)>, k: AgentId) -> (r: Option<usize>)
    requires
        keys_unique(entries@),
    ensures
        (r is Some) == has_key(entries@, k),
        r matches Some(i) ==> i < entries@.len() && entries@[i as int].0 == k && index_of_key(
            entries@,
            k,
        ) == i as int,
{
    let n = entries.len();
    let mut i: usize = 0;
    while i < n
        invariant
            0 <= i <= n,
            n == entries@.len(),
            keys_unique(entries@),
            forall|j: int| 0 <= j < i ==> (#[trigger] entries@[j]).0 != k,
        decreases n - i,
    {
        if entries[i].0 == k {
            proof {
                lemma_key_at(entries@, i as int);
            }
            return Some(i);
        }
        i += 1;
    }
    proof {
        assert(!has_key(entries@, k));
    }
    None
}

/// Stores `v` under `k`, replacing any value already there.
pub fn set_key<V>(entries: &mut Vec<(AgentId, V)>, k: AgentId, v: V)
    requires
        keys_unique(old(entries)@),
    ensures
        keys_unique(final(entries)@),
        value_of_key(final(entries)@, k) == Some(v),
        forall|k2: AgentId|
            k2 != k ==> value_of_key(final(entries)@, k2) == value_of_key(old(entries)@, k2),
        has_key(final(entries)@, k),
        forall|k2: AgentId|
            k2 != k ==> has_key(final(entries)@, k2) == has_key(old(entries)@, k2),
{
    let ghost gv = v;
    let found = find_key(entries, k);
    match found {
        Some(i) => {
            entries[i] = (k, v);
            proof {
                assert(entries@ == old(entries)@.update(i as int, (k, gv)));
                assert forall|k2: AgentId| k2 != k implies value_of_key(entries@, k2)
                    == value_of_key(old(entries)@, k2) by {
                    lemma_lookup_after_update(old(entries)@, i as int, gv, k2);
                }
                lemma_lookup_after_update(old(entries)@, i as int, gv, k);
            }
        },
        None => {
            entries.push((k, v));
            proof {
                assert forall|k2: AgentId| k2 != k implies value_of_key(entries@, k2)
                    == value_of_key(old(entries)@, k2) by {
                    lemma_lookup_after_push(old(entries)@, k, gv, k2);
                }
                lemma_lookup_after_push(old(entries)@, k, gv, k);
            }
        },
    }
    proof {
        assert forall|k2: AgentId| k2 != k implies has_key(entries@, k2) == has_key(
            old(entries)@,
            k2,
        ) by {
            assert(value_of_key(entries@, k2) == value_of_key(old(entries)@, k2));
        }
    }
}

/// Removes and returns the value under `k`, if one is present.
pub fn remove_key<V>(entries: &mut Vec<(AgentId, V)>, k: AgentId) -> (r: Option<V>)
    requires
        keys_unique(old(entries)@),
    ensures
        keys_unique(final(entries)@),
        r == value_of_key(old(entries)@, k),
        value_of_key(final(entries)@, k) is None,
        !has_key(final(entries)@, k),
        forall|k2: AgentId|
            k2 != k ==> value_of_key(final(entries)@, k2) == value_of_key(old(entries)@, k2),
        forall|k2: AgentId|
            k2 != k ==> has_key(final(entries)@, k2) == has_key(old(entries)@, k2),
{
    let found = find_key(entries, k);
    match found {
        Some(i) => {
            let pair = entries.remove(i);
            proof {
                lemma_key_at(old(entries)@, i as int);
                assert forall|k2: AgentId| k2 != k implies value_of_key(entries@, k2)
                    == value_of_key(old(entries)@, k2) by {
                    lemma_lookup_after_remove(old(entries)@, i as int, k2);
                }
                assert forall|a: int| 0 <= a < entries@.len() implies (#[trigger] entries@[a]).0
                    != k by {
                    let a0 = if a < i as int {
                        a
                    } else {
                        a + 1
                    };
                    assert(entries@[a] == old(entries)@[a0]);
                    if a0 != i as int {
                        if a0 < i as int {
                            assert(old(entries)@[a0].0 != old(entries)@[i as int].0);
                        } else {
                            assert(old(entries)@[i as int].0 != old(entries)@[a0].0);
                        }
                    }
                }
                assert forall|a: int, b: int| 0 <= a < b < entries@.len() implies (
                #[trigger] entries@[a]).0 != (#[trigger] entries@[b]).0 by {
                    let a0 = if a < i as int {
                        a
                    } else {
                        a + 1
                    };
                    let b0 = if b < i as int {
                        b
                    } else {
                        b + 1
                    };
                    assert(entries@[a] == old(entries)@[a0]);
                    assert(entries@[b] == old(entries)@[b0]);
                }
                assert forall|k2: AgentId| k2 != k implies has_key(entries@, k2) == has_key(
                    old(entries)@,
                    k2,
                ) by {
                    assert(value_of_key(entries@, k2) == value_of_key(old(entries)@, k2));
                }
            }
            Some(pair.1)
        },
        None => None,
    }
}

} // verus!
