//! Association tables keyed by an entity id.
//!
//! The registry keeps each of its storage maps (entities, owners, lineage,
//! listings) as a vector of key/value pairs with distinct keys. This module
//! gives the lookup semantics of such a table, the executable operations on
//! it, and the lemmas that relate the two.

use vstd::prelude::*;

verus! {

/// First-match lookup in an association table.
pub open spec fn spec_lookup<V>(s: Seq<(u32, V)>, key: u32) -> Option<V>
    decreases s.len(),
{
    if s.len() == 0 {
        None
    } else if s[0].0 == key {
        Some(s[0].1)
    } else {
        spec_lookup(s.drop_first(), key)
    }
}

/// No key occurs twice.
pub open spec fn distinct_keys<V>(s: Seq<(u32, V)>) -> bool {
    forall|i: int, j: int| 0 <= i < j < s.len() ==> s[i].0 != s[j].0
}

/// Keys strictly increase with position; in particular they are distinct.
pub open spec fn increasing_keys<V>(s: Seq<(u32, V)>) -> bool {
    forall|i: int, j: int| 0 <= i < j < s.len() ==> s[i].0 < s[j].0
}

/// A key is absent exactly when no entry carries it.
pub proof fn lemma_lookup_none<V>(s: Seq<(u32, V)>, key: u32)
    ensures
        spec_lookup(s, key) is None <==> (forall|i: int| 0 <= i < s.len() ==> s[i].0 != key),
    decreases s.len(),
{
    if s.len() > 0 {
        lemma_lookup_none(s.drop_first(), key);
        assert forall|i: int| 1 <= i < s.len() implies s.drop_first()[i - 1] == s[i] by {}
    }
}

/// The first entry that carries a key decides the lookup.
pub proof fn lemma_lookup_at<V>(s: Seq<(u32, V)>, key: u32, i: int)
    requires
        0 <= i < s.len(),
        s[i].0 == key,
        forall|j: int| 0 <= j < i ==> s[j].0 != key,
    ensures
        spec_lookup(s, key) == Some(s[i].1),
    decreases s.len(),
{
    if i > 0 {
        lemma_lookup_at(s.drop_first(), key, i - 1);
    }
}

/// Appending an entry with a fresh key adds exactly that binding.
pub proof fn lemma_lookup_push<V>(s: Seq<(u32, V)>, key: u32, value: V, key2: u32)
    requires
        spec_lookup(s, key) is None,
    ensures
        spec_lookup(s.push((key, value)), key2) == if key2 == key {
            Some(value)
        } else {
            spec_lookup(s, key2)
        },
    decreases s.len(),
{
    if s.len() == 0 {
        assert(s.push((key, value)).drop_first() =~= s);
    } else {
        lemma_lookup_push(s.drop_first(), key, value, key2);
        assert(s.push((key, value)).drop_first() =~= s.drop_first().push((key, value)));
    }
}

/// Overwriting the value at a position rebinds its key and nothing else.
pub proof fn lemma_lookup_update<V>(s: Seq<(u32, V)>, i: int, value: V, key2: u32)
    requires
        0 <= i < s.len(),
        distinct_keys(s),
    ensures
        spec_lookup(s.update(i, (s[i].0, value)), key2) == if key2 == s[i].0 {
            Some(value)
        } else {
            spec_lookup(s, key2)
        },
    decreases s.len(),
{
    if i == 0 {
        assert(s.update(0, (s[0].0, value)).drop_first() =~= s.drop_first());
    } else {
        lemma_lookup_update(s.drop_first(), i - 1, value, key2);
        assert(s.update(i, (s[i].0, value)).drop_first() =~= s.drop_first().update(
            i - 1,
            (s[i].0, value),
        ));
    }
}

/// Removing the entry at a position drops its key and nothing else.
pub proof fn lemma_lookup_remove<V>(s: Seq<(u32, V)>, i: int, key2: u32)
    requires
        0 <= i < s.len(),
        distinct_keys(s),
    ensures
        spec_lookup(s.remove(i), key2) == if key2 == s[i].0 {
            None::<V>
        } else {
            spec_lookup(s, key2)
        },
    decreases s.len(),
{
    if i == 0 {
        assert(s.remove(0) =~= s.drop_first());
        lemma_lookup_none(s.drop_first(), s[0].0);
    } else {
        lemma_lookup_remove(s.drop_first(), i - 1, key2);
        assert(s.remove(i).drop_first() =~= s.drop_first().remove(i - 1));
    }
}

/// Looks a key up in a table.
pub fn table_get<V: Copy>(t: &Vec<(u32, V)>, key: u32) -> (r: Option<V>)
    ensures
        r == spec_lookup(t@, key),
{
    let n = t.len();
    let mut i: usize = 0;
    while i < n
        invariant
            n == t@.len(),
            0 <= i <= n,
            forall|j: int| 0 <= j < i ==> t@[j].0 != key,
        decreases n - i,
    {
        if t[i].0 == key {
            proof {
                lemma_lookup_at(t@, key, i as int);
            }
            return Some(t[i].1);
        }
        i = i + 1;
    }
    proof {
        lemma_lookup_none(t@, key);
    }
    None
}

/// Rebinds an existing key to a new value, leaving every other binding
/// and the order of keys unchanged.
pub fn table_set<V: Copy>(t: &mut Vec<(u32, V)>, key: u32, value: V)
    requires
        distinct_keys(old(t)@),
        spec_lookup(old(t)@, key) is Some,
    ensures
        final(t)@.len() == old(t)@.len(),
        forall|j: int| 0 <= j < old(t)@.len() ==> final(t)@[j].0 == old(t)@[j].0,
        forall|key2: u32|
            spec_lookup(final(t)@, key2) == if key2 == key {
                Some(value)
            } else {
                spec_lookup(old(t)@, key2)
            },
{
    let n = t.len();
    let mut i: usize = 0;
    proof {
        lemma_lookup_none(t@, key);
    }
    while i < n
        invariant
            n == t@.len(),
            0 <= i <= n,
            t@ == old(t)@,
            distinct_keys(t@),
            forall|j: int| 0 <= j < i ==> t@[j].0 != key,
            exists|j: int| i <= j < t@.len() && t@[j].0 == key,
        decreases n - i,
    {
        if t[i].0 == key {
            let ghost s = t@;
            t[i] = (key, value);
            proof {
                assert(t@ =~= s.update(i as int, (s[i as int].0, value)));
                assert forall|key2: u32|
                    spec_lookup(t@, key2) == if key2 == key {
                        Some(value)
                    } else {
                        spec_lookup(s, key2)
                    } by {
                    lemma_lookup_update(s, i as int, value, key2);
                }
            }
            return ;
        }
        i = i + 1;
    }
    proof {
        lemma_lookup_none(t@, key);
        assert(false);
    }
}

/// Removes the binding of a key that is present, leaving every other
/// binding unchanged.
pub fn table_remove<V: Copy>(t: &mut Vec<(u32, V)>, key: u32)
    requires
        distinct_keys(old(t)@),
        spec_lookup(old(t)@, key) is Some,
    ensures
        final(t)@.len() == old(t)@.len() - 1,
        distinct_keys(final(t)@),
        forall|key2: u32|
            spec_lookup(final(t)@, key2) == if key2 == key {
                None::<V>
            } else {
                spec_lookup(old(t)@, key2)
            },
{
    let n = t.len();
    let mut i: usize = 0;
    proof {
        lemma_lookup_none(t@, key);
    }
    while i < n
        invariant
            n == t@.len(),
            0 <= i <= n,
            t@ == old(t)@,
            distinct_keys(t@),
            forall|j: int| 0 <= j < i ==> t@[j].0 != key,
            exists|j: int| i <= j < t@.len() && t@[j].0 == key,
        decreases n - i,
    {
        if t[i].0 == key {
            let ghost s = t@;
            t.remove(i);
            proof {
                assert forall|key2: u32|
                    spec_lookup(t@, key2) == if key2 == key {
                        None::<V>
                    } else {
                        spec_lookup(s, key2)
                    } by {
                    lemma_lookup_remove(s, i as int, key2);
                }
                assert forall|a: int, b: int| 0 <= a < b < t@.len() implies t@[a].0 != t@[b].0 by {
                    if b < i {
                        assert(t@[a] == s[a] && t@[b] == s[b]);
                    } else if a < i {
                        assert(t@[a] == s[a] && t@[b] == s[b + 1]);
                    } else {
                        assert(t@[a] == s[a + 1] && t@[b] == s[b + 1]);
                    }
                }
            }
            return ;
        }
        i = i + 1;
    }
    proof {
        lemma_lookup_none(t@, key);
        assert(false);
    }
}

} // verus!
