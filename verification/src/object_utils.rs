//! Object utility functions similar to JavaScript object methods
//!
//! This module provides utility functions for working with maps. The hash-map
//! specifications hold when the key type obeys the standard key model, so the
//! contracts here are stated under that condition.

use std::collections::HashMap;
use std::hash::Hash;
use vstd::pervasive::cloned;
use vstd::prelude::*;
use vstd::std_specs::hash::builds_valid_hashers;
use vstd::std_specs::hash::obeys_key_model;
use vstd::std_specs::hash::spec_hash_map_iter;
use vstd::std_specs::cmp::PartialEqSpec;
use vstd::std_specs::iter::IteratorSpec;

verus! {

/// Error type for object operations
#[derive(Debug, Clone, PartialEq)]
pub enum ObjectUtilsError {
    /// Key not found in object
    KeyNotFound(String),
    /// Invalid operation
    InvalidOperation(String),
}

/// Whether the standard hash-map specifications apply to this key type.
pub open spec fn spec_map_model<K>() -> bool {
    obeys_key_model::<K>() && builds_valid_hashers::<std::collections::hash_map::RandomState>()
}

/// One step of any iterator, through its standard specification: when the
/// iterator obeys the prophetic laws, `next` pops the head of the remaining
/// sequence, or reports `None` once it is exhausted.
fn iter_next<I: Iterator>(it: &mut I) -> (r: Option<I::Item>)
    ensures
        (*final(it)).obeys_prophetic_iter_laws() == (*old(it)).obeys_prophetic_iter_laws(),
        (*final(it)).obeys_prophetic_iter_laws() ==> ({
            if (*old(it)).remaining().len() > 0 {
                &&& (*final(it)).remaining() == (*old(it)).remaining().drop_first()
                &&& r == Some((*old(it)).remaining()[0])
            } else {
                r is None && (*final(it)).remaining() == (*old(it)).remaining()
            }
        }),
{
    it.next()
}

/// The map's key-value pairs, as references, in the map's own order.
fn map_pairs<'a, K: Eq + Hash, V>(map: &'a HashMap<K, V>) -> (r: Vec<(&'a K, &'a V)>)
    ensures
        spec_map_model::<K>() ==> {
            &&& r@.len() == map@.dom().len()
            &&& forall|i: int|
                0 <= i < r@.len() ==> map@.contains_key(*(#[trigger] r@[i]).0) && map@[*r@[i].0]
                    == *r@[i].1
            &&& forall|k: K|
                #[trigger] map@.contains_key(k) ==> exists|i: int|
                    0 <= i < r@.len() && *(#[trigger] r@[i]).0 == k
        },
{
    let ghost cond = spec_map_model::<K>();
    let ghost orig = spec_hash_map_iter(map).remaining();
    let mut it = map.iter();
    let n = map.len();
    let mut r: Vec<(&'a K, &'a V)> = Vec::new();
    let mut i: usize = 0;
    while i < n
        invariant
            i <= n,
            cond == spec_map_model::<K>(),
            orig == spec_hash_map_iter(map).remaining(),
            cond ==> n == map@.dom().len(),
            cond ==> orig.len() == map@.dom().len(),
            cond ==> forall|j: int|
                0 <= j < orig.len() ==> map@.contains_key(*(#[trigger] orig[j]).0) && map@[*orig[j].0]
                    == *orig[j].1,
            cond ==> forall|k: K| #[trigger] map@.contains_key(k) ==> orig.contains((&k, &map@[k])),
            cond ==> it.remaining() =~= orig.skip(i as int),
            r@.len() == i,
            cond ==> forall|j: int| 0 <= j < i ==> #[trigger] r@[j] == orig[j],
        decreases n - i,
    {
        match iter_next(&mut it) {
            Some(pair) => {
                r.push(pair);
                proof {
                    if cond {
                        assert(orig.skip(i as int)[0] == orig[i as int]);
                        assert(orig.skip(i as int).drop_first() =~= orig.skip(i + 1));
                    }
                }
            },
            None => {
                proof {
                    if cond {
                        assert(orig.skip(i as int).len() > 0);
                        assert(false);
                    }
                }
                return r;
            },
        }
        i += 1;
    }
    proof {
        if cond {
            assert forall|k: K| #[trigger] map@.contains_key(k) implies exists|j: int|
                0 <= j < r@.len() && *(#[trigger] r@[j]).0 == k by {
                assert(orig.contains((&k, &map@[k])));
                let j = choose|j: int| 0 <= j < orig.len() && orig[j] == (&k, &map@[k]);
                assert(r@[j] == orig[j]);
            }
        }
    }
    r
}

/// Get all keys from a HashMap: one reference per entry, and every key of the
/// map is among them.
pub fn keys<'a, K: Eq + Hash, V>(map: &'a HashMap<K, V>) -> (r: Vec<&'a K>)
    ensures
        spec_map_model::<K>() ==> {
            &&& r@.len() == map@.dom().len()
            &&& forall|i: int| 0 <= i < r@.len() ==> map@.contains_key(*(#[trigger] r@[i]))
            &&& forall|k: K|
                #[trigger] map@.contains_key(k) ==> exists|i: int|
                    0 <= i < r@.len() && *(#[trigger] r@[i]) == k
        },
{
    let ghost cond = spec_map_model::<K>();
    let pairs = map_pairs(map);
    let mut r: Vec<&'a K> = Vec::new();
    let mut i: usize = 0;
    while i < pairs.len()
        invariant
            i <= pairs@.len(),
            r@.len() == i,
            cond == spec_map_model::<K>(),
            cond ==> pairs@.len() == map@.dom().len(),
            cond ==> forall|j: int|
                0 <= j < pairs@.len() ==> map@.contains_key(*(#[trigger] pairs@[j]).0),
            forall|j: int| 0 <= j < i ==> #[trigger] r@[j] == pairs@[j].0,
        decreases pairs@.len() - i,
    {
        r.push(pairs[i].0);
        i += 1;
    }
    proof {
        if cond {
            assert forall|k: K| #[trigger] map@.contains_key(k) implies exists|i: int|
                0 <= i < r@.len() && *(#[trigger] r@[i]) == k by {
                let j = choose|j: int| 0 <= j < pairs@.len() && *(#[trigger] pairs@[j]).0 == k;
                assert(r@[j] == pairs@[j].0);
            }
        }
    }
    r
}

/// Whether `v` is the value of some key of the map.
pub open spec fn spec_is_value_of<K, V>(m: Map<K, V>, v: V) -> bool {
    exists|k: K| #[trigger] m.contains_key(k) && m[k] == v
}

/// Get all values from a HashMap: one reference per entry, each the value of
/// some key of the map.
pub fn values<'a, K: Eq + Hash, V>(map: &'a HashMap<K, V>) -> (r: Vec<&'a V>)
    ensures
        spec_map_model::<K>() ==> {
            &&& r@.len() == map@.dom().len()
            &&& forall|i: int| 0 <= i < r@.len() ==> spec_is_value_of(map@, *(#[trigger] r@[i]))
        },
{
    let ghost cond = spec_map_model::<K>();
    let pairs = map_pairs(map);
    let mut r: Vec<&'a V> = Vec::new();
    let mut i: usize = 0;
    while i < pairs.len()
        invariant
            i <= pairs@.len(),
            r@.len() == i,
            cond == spec_map_model::<K>(),
            cond ==> pairs@.len() == map@.dom().len(),
            cond ==> forall|j: int|
                0 <= j < pairs@.len() ==> map@.contains_key(*(#[trigger] pairs@[j]).0)
                    && map@[*pairs@[j].0] == *pairs@[j].1,
            forall|j: int| 0 <= j < i ==> #[trigger] r@[j] == pairs@[j].1,
        decreases pairs@.len() - i,
    {
        r.push(pairs[i].1);
        i += 1;
    }
    proof {
        if cond {
            assert forall|i: int| 0 <= i < r@.len() implies spec_is_value_of(
                map@,
                *(#[trigger] r@[i]),
            ) by {
                assert(r@[i] == pairs@[i].1);
                assert(map@.contains_key(*pairs@[i].0) && map@[*pairs@[i].0] == *pairs@[i].1);
            }
        }
    }
    r
}

/// Get all key-value pairs from a HashMap: one per entry, each an entry of
/// the map, and every key of the map is among them.
pub fn entries<'a, K: Eq + Hash, V>(map: &'a HashMap<K, V>) -> (r: Vec<(&'a K, &'a V)>)
    ensures
        spec_map_model::<K>() ==> {
            &&& r@.len() == map@.dom().len()
            &&& forall|i: int|
                0 <= i < r@.len() ==> map@.contains_key(*(#[trigger] r@[i]).0) && map@[*r@[i].0]
                    == *r@[i].1
            &&& forall|k: K|
                #[trigger] map@.contains_key(k) ==> exists|i: int|
                    0 <= i < r@.len() && *(#[trigger] r@[i]).0 == k
        },
{
    map_pairs(map)
}

/// Check if a HashMap has a specific key.
pub fn has_key<K: Eq + Hash, V>(map: &HashMap<K, V>, key: &K) -> (r: bool)
    ensures
        spec_map_model::<K>() ==> r == map@.contains_key(*key),
{
    let r = map.contains_key(key);
    proof {
        if spec_map_model::<K>() {
            vstd::std_specs::hash::axiom_contains_deref_key::<K, V>(map@, key);
        }
    }
    r
}

/// The map built by inserting a sequence of pairs in order.
pub open spec fn spec_from_pairs<K, V>(pairs: Seq<(K, V)>) -> Map<K, V>
    decreases pairs.len(),
{
    if pairs.len() == 0 {
        Map::empty()
    } else {
        spec_from_pairs(pairs.drop_last()).insert(pairs.last().0, pairs.last().1)
    }
}

/// Create a HashMap from key-value pairs, later pairs overriding earlier ones.
pub fn from_entries<K: Eq + Hash, V>(entries_list: Vec<(K, V)>) -> (r: HashMap<K, V>)
    ensures
        spec_map_model::<K>() ==> r@ == spec_from_pairs(entries_list@),
{
    let ghost cond = spec_map_model::<K>();
    let ghost all = entries_list@;
    let mut rest = entries_list;
    let mut r: HashMap<K, V> = HashMap::new();
    let ghost mut idx: int = 0;
    proof {
        assert(all.subrange(0, 0) =~= Seq::<(K, V)>::empty());
    }
    while rest.len() > 0
        invariant
            0 <= idx <= all.len(),
            rest@ =~= all.skip(idx),
            cond == spec_map_model::<K>(),
            cond ==> r@ == spec_from_pairs(all.subrange(0, idx)),
        decreases rest@.len(),
    {
        let (k, v) = rest.remove(0);
        proof {
            assert(all.subrange(0, idx + 1).drop_last() =~= all.subrange(0, idx));
            assert(all.subrange(0, idx + 1).last() == all[idx]);
            assert((k, v) == all[idx]);
        }
        r.insert(k, v);
        proof {
            assert(rest@ =~= all.skip(idx + 1));
            idx = idx + 1;
        }
    }
    proof {
        assert(all.subrange(0, all.len() as int) =~= all);
    }
    r
}

/// Assign properties from source maps to a target map, in order: the keys the
/// target already had stay present, and every inserted key is a clone of a key
/// of one of the sources.
pub fn assign<K: Eq + Hash + Clone, V: Clone>(target: &mut HashMap<K, V>, sources: Vec<
    &HashMap<K, V>,
>)
    ensures
        spec_map_model::<K>() ==> {
            &&& forall|k: K|
                old(target)@.contains_key(k) ==> #[trigger] final(target)@.contains_key(k)
            &&& forall|k: K|
                #[trigger] final(target)@.contains_key(k) ==> old(target)@.contains_key(k) || (
                exists|j: int, k0: K|
                    0 <= j < sources@.len() && (#[trigger] sources@[j]@.contains_key(k0))
                        && cloned::<K>(k0, k))
        },
{
    let ghost cond = spec_map_model::<K>();
    let mut si: usize = 0;
    while si < sources.len()
        invariant
            si <= sources@.len(),
            cond == spec_map_model::<K>(),
            cond ==> forall|k: K|
                old(target)@.contains_key(k) ==> #[trigger] target@.contains_key(k),
            cond ==> forall|k: K|
                #[trigger] target@.contains_key(k) ==> old(target)@.contains_key(k) || (exists|
                    j: int,
                    k0: K,
                |
                    0 <= j < sources@.len() && (#[trigger] sources@[j]@.contains_key(k0))
                        && cloned::<K>(k0, k)),
        decreases sources@.len() - si,
    {
        let source = sources[si];
        let pairs = map_pairs(source);
        let mut pi: usize = 0;
        while pi < pairs.len()
            invariant
                pi <= pairs@.len(),
                si < sources@.len(),
                source == sources@[si as int],
                cond == spec_map_model::<K>(),
                cond ==> forall|j: int|
                    0 <= j < pairs@.len() ==> source@.contains_key(*(#[trigger] pairs@[j]).0),
                cond ==> forall|k: K|
                    old(target)@.contains_key(k) ==> #[trigger] target@.contains_key(k),
                cond ==> forall|k: K|
                    #[trigger] target@.contains_key(k) ==> old(target)@.contains_key(k) || (exists|
                        j: int,
                        k0: K,
                    |
                        0 <= j < sources@.len() && (#[trigger] sources@[j]@.contains_key(k0))
                            && cloned::<K>(k0, k)),
            decreases pairs@.len() - pi,
        {
            let k = pairs[pi].0.clone();
            let v = pairs[pi].1.clone();
            proof {
                assert(cloned::<K>(*pairs@[pi as int].0, k));
            }
            target.insert(k, v);
            pi += 1;
        }
        si += 1;
    }
}

/// Pick specific keys from a HashMap: every entry of the result is a clone of
/// a requested key the map has, with a clone of the map's value for it.
pub fn pick<K: Eq + Hash + Clone, V: Clone>(map: &HashMap<K, V>, wanted: &[K]) -> (r: HashMap<
    K,
    V,
>)
    ensures
        spec_map_model::<K>() ==> forall|k: K|
            #[trigger] r@.contains_key(k) ==> exists|i: int|
                0 <= i < wanted@.len() && map@.contains_key(#[trigger] wanted@[i]) && cloned::<K>(
                    wanted@[i],
                    k,
                ),
{
    let ghost cond = spec_map_model::<K>();
    let mut r: HashMap<K, V> = HashMap::new();
    let mut i: usize = 0;
    while i < wanted.len()
        invariant
            i <= wanted@.len(),
            cond == spec_map_model::<K>(),
            cond ==> forall|k: K|
                #[trigger] r@.contains_key(k) ==> exists|j: int|
                    0 <= j < wanted@.len() && map@.contains_key(#[trigger] wanted@[j]) && cloned::<
                        K,
                    >(wanted@[j], k),
        decreases wanted@.len() - i,
    {
        let key = &wanted[i];
        proof {
            if cond {
                vstd::std_specs::hash::axiom_contains_deref_key::<K, V>(map@, key);
            }
        }
        match map.get(key) {
            Some(value) => {
                let k = key.clone();
                let v = value.clone();
                proof {
                    assert(cloned::<K>(wanted@[i as int], k));
                }
                r.insert(k, v);
            },
            None => {},
        }
        i += 1;
    }
    r
}

/// Omit specific keys from a HashMap: every entry of the result is a clone of
/// an entry of the map, and the named keys are filtered out by the key type's
/// own `==`.
pub fn omit<K: Eq + Hash + Clone, V: Clone>(map: &HashMap<K, V>, unwanted: &[K]) -> (r: HashMap<
    K,
    V,
>)
    ensures
        spec_map_model::<K>() ==> forall|k: K|
            #[trigger] r@.contains_key(k) ==> exists|k0: K|
                map@.contains_key(k0) && cloned::<K>(k0, k),
{
    let ghost cond = spec_map_model::<K>();
    let pairs = map_pairs(map);
    let mut r: HashMap<K, V> = HashMap::new();
    let mut i: usize = 0;
    while i < pairs.len()
        invariant
            i <= pairs@.len(),
            cond == spec_map_model::<K>(),
            cond ==> forall|j: int|
                0 <= j < pairs@.len() ==> map@.contains_key(*(#[trigger] pairs@[j]).0),
            cond ==> forall|k: K|
                #[trigger] r@.contains_key(k) ==> exists|k0: K|
                    map@.contains_key(k0) && cloned::<K>(k0, k),
        decreases pairs@.len() - i,
    {
        let key = pairs[i].0;
        if !slice_contains(unwanted, key) {
            let k = key.clone();
            let v = pairs[i].1.clone();
            proof {
                assert(cloned::<K>(*pairs@[i as int].0, k));
            }
            r.insert(k, v);
        }
        i += 1;
    }
    r
}

/// Whether the slice holds an element the type's own `==` accepts as equal to
/// the given one.
fn slice_contains<K: Eq>(list: &[K], key: &K) -> (r: bool)
    ensures
        K::obeys_eq_spec() ==> r == exists|i: int|
            0 <= i < list@.len() && (#[trigger] list@[i]).eq_spec(key),
{
    let mut i: usize = 0;
    while i < list.len()
        invariant
            i <= list@.len(),
            K::obeys_eq_spec() ==> forall|j: int| 0 <= j < i ==> !(#[trigger] list@[j]).eq_spec(
                key,
            ),
        decreases list@.len() - i,
    {
        if list[i] == *key {
            return true;
        }
        i += 1;
    }
    false
}

/// Deep clone a HashMap/// Deep clone a HashMap: the result's contents equal the input's.
pub fn deep_clone<K: Eq + Hash + Clone, V: Clone>(map: &HashMap<K, V>) -> (r: HashMap<K, V>)
    ensures
        r@ == map@,
{
    map.clone()
}

/// Check if a HashMap is empty.
pub fn is_empty<K: Eq + Hash, V>(map: &HashMap<K, V>) -> (r: bool)
    ensures
        r == map@.is_empty(),
{
    map.is_empty()
}

/// Get the number of entries of a HashMap.
pub fn size<K: Eq + Hash, V>(map: &HashMap<K, V>) -> (r: usize)
    ensures
        spec_map_model::<K>() ==> r == map@.len(),
{
    map.len()
}

/// Merge multiple HashMaps into a new one, later maps overriding earlier
/// ones: every entry of the result is a clone of an entry of one of the
/// inputs.
pub fn merge<K: Eq + Hash + Clone, V: Clone>(maps: &[&HashMap<K, V>]) -> (r: HashMap<K, V>)
    ensures
        spec_map_model::<K>() ==> forall|k: K|
            #[trigger] r@.contains_key(k) ==> exists|j: int, k0: K|
                0 <= j < maps@.len() && (#[trigger] maps@[j]@.contains_key(k0)) && cloned::<K>(
                    k0,
                    k,
                ),
{
    let ghost cond = spec_map_model::<K>();
    let mut r: HashMap<K, V> = HashMap::new();
    let mut si: usize = 0;
    while si < maps.len()
        invariant
            si <= maps@.len(),
            cond == spec_map_model::<K>(),
            cond ==> forall|k: K|
                #[trigger] r@.contains_key(k) ==> exists|j: int, k0: K|
                    0 <= j < maps@.len() && (#[trigger] maps@[j]@.contains_key(k0)) && cloned::<K>(
                        k0,
                        k,
                    ),
        decreases maps@.len() - si,
    {
        let source = maps[si];
        let pairs = map_pairs(source);
        let mut pi: usize = 0;
        while pi < pairs.len()
            invariant
                pi <= pairs@.len(),
                si < maps@.len(),
                source == maps@[si as int],
                cond == spec_map_model::<K>(),
                cond ==> forall|j: int|
                    0 <= j < pairs@.len() ==> source@.contains_key(*(#[trigger] pairs@[j]).0),
                cond ==> forall|k: K|
                    #[trigger] r@.contains_key(k) ==> exists|j: int, k0: K|
                        0 <= j < maps@.len() && (#[trigger] maps@[j]@.contains_key(k0)) && cloned::<
                            K,
                        >(k0, k),
            decreases pairs@.len() - pi,
        {
            let k = pairs[pi].0.clone();
            let v = pairs[pi].1.clone();
            proof {
                assert(cloned::<K>(*pairs@[pi as int].0, k));
            }
            r.insert(k, v);
            pi += 1;
        }
        si += 1;
    }
    r
}

} // verus!
