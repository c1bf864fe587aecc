//! The insertion-ordered maps of the `linked_hash_map` crate, as the model of benchmark results
//! uses them: groups keyed by name, and within each group the benchmarks keyed by identity.
//!
//! What a map holds is named by a sequence of key/value pairs in the map's order. The wrappers
//! below state what each method does to that sequence, as the crate's source shows it: `insert`
//! of a new key appends the pair, `insert` of a present key replaces its value and moves the pair
//! to the end, `remove` takes the pair out, `get` and `get_mut` find the pair without moving it.
use crate::model::{Benchmark, BenchmarkGroup};
use crate::report::{BenchmarkId, BenchmarkIdView};
use linked_hash_map::LinkedHashMap;
use linked_hash_set::LinkedHashSet;
use vstd::prelude::*;

verus! {

#[verifier::external_type_specification]
#[verifier::external_body]
#[verifier::reject_recursive_types(K)]
#[verifier::reject_recursive_types(V)]
#[verifier::reject_recursive_types(S)]
pub struct ExLinkedHashMap<K, V, S>(LinkedHashMap<K, V, S>);

/// The position of the pair with key `k` in `es`, or -1 when there is none.
pub open spec fn index_of<K, V>(es: Seq<(K, V)>, k: K) -> int
    decreases es.len(),
{
    if es.len() == 0 {
        -1
    } else if es.last().0 == k {
        es.len() - 1
    } else {
        index_of(es.drop_last(), k)
    }
}

/// `index_of` finds a pair with the key when there is one, and the only one when keys are
/// distinct.
pub proof fn lemma_index_of<K, V>(es: Seq<(K, V)>, k: K)
    ensures
        -1 <= index_of(es, k) < es.len(),
        index_of(es, k) >= 0 ==> es[index_of(es, k)].0 == k,
        index_of(es, k) < 0 ==> forall|j: int| 0 <= j < es.len() ==> #[trigger] es[j].0 != k,
        keys_distinct(es) ==> forall|j: int| 0 <= j < es.len() && #[trigger] es[j].0 == k ==> index_of(es, k) == j,
    decreases es.len(),
{
    if es.len() > 0 {
        let d = es.drop_last();
        lemma_index_of(d, k);
        assert forall|j: int| 0 <= j < es.len() - 1 implies #[trigger] d[j] == es[j] by {}
        if index_of(es, k) < 0 {
            assert forall|j: int| 0 <= j < es.len() implies #[trigger] es[j].0 != k by {
                if j < es.len() - 1 {
                    assert(d[j].0 != k);
                }
            }
        }
        if keys_distinct(es) {
            assert(keys_distinct(d)) by {
                assert forall|a: int, b: int| 0 <= a < b < d.len() implies #[trigger] d[a].0 != #[trigger] d[b].0 by {
                    assert(es[a].0 != es[b].0);
                }
            }
            assert forall|j: int| 0 <= j < es.len() && #[trigger] es[j].0 == k implies index_of(es, k) == j by {
                if j < es.len() - 1 {
                    assert(d[j].0 == k);
                    assert(es[j].0 != es[es.len() - 1].0);
                }
            }
        }
    }
}

/// Removing the pair of a key from pairs with distinct keys leaves no pair of that key, and
/// keeps the keys distinct.
pub proof fn lemma_removed_absent<K, V>(es: Seq<(K, V)>, k: K)
    requires
        keys_distinct(es),
    ensures
        index_of(removed(es, k), k) < 0,
        keys_distinct(removed(es, k)),
{
    lemma_index_of(es, k);
    let r = removed(es, k);
    let i = index_of(es, k);
    if i >= 0 {
        assert forall|j: int| 0 <= j < r.len() implies #[trigger] r[j].0 != k by {
            if j < i {
                assert(r[j] == es[j]);
            } else {
                assert(r[j] == es[j + 1]);
            }
        }
        assert forall|a: int, b: int| 0 <= a < b < r.len() implies #[trigger] r[a].0 != #[trigger] r[b].0 by {
            let a2 = if a < i { a } else { a + 1 };
            let b2 = if b < i { b } else { b + 1 };
            assert(r[a] == es[a2] && r[b] == es[b2]);
        }
    }
    lemma_index_of(r, k);
}

/// Whether no key occurs twice in `es`.
pub open spec fn keys_distinct<K, V>(es: Seq<(K, V)>) -> bool {
    forall|i: int, j: int| 0 <= i < j < es.len() ==> #[trigger] es[i].0 != #[trigger] es[j].0
}

/// The keys of `es`, in order.
pub open spec fn keys_of<K, V>(es: Seq<(K, V)>) -> Seq<K> {
    es.map_values(|e: (K, V)| e.0)
}

/// `es` after inserting the pair (`k`, `v`): a present key has its pair taken out, and the new
/// pair goes to the end.
pub open spec fn inserted<K, V>(es: Seq<(K, V)>, k: K, v: V) -> Seq<(K, V)> {
    let i = index_of(es, k);
    if i >= 0 {
        es.remove(i).push((k, v))
    } else {
        es.push((k, v))
    }
}

/// `es` without the pair of key `k`.
pub open spec fn removed<K, V>(es: Seq<(K, V)>, k: K) -> Seq<(K, V)> {
    let i = index_of(es, k);
    if i >= 0 {
        es.remove(i)
    } else {
        es
    }
}

/// The value of key `k` in `es`, if any.
pub open spec fn lookup<K, V>(es: Seq<(K, V)>, k: K) -> Option<V> {
    let i = index_of(es, k);
    if i >= 0 {
        Some(es[i].1)
    } else {
        None
    }
}

/// The pairs that a map of groups holds, in order: each group's name and the group.
pub uninterp spec fn group_entries(m: LinkedHashMap<String, BenchmarkGroup>) -> Seq<(Seq<char>, BenchmarkGroup)>;

/// The pairs that a map of benchmarks holds, in order: each benchmark's identity and the
/// benchmark.
pub uninterp spec fn benchmark_entries(m: LinkedHashMap<BenchmarkId, Benchmark>) -> Seq<(BenchmarkIdView, Benchmark)>;

/// An empty map of groups (`LinkedHashMap::new`).
#[verifier::external_body]
pub(crate) fn new_group_map() -> (r: LinkedHashMap<String, BenchmarkGroup>)
    ensures
        group_entries(r) == Seq::<(Seq<char>, BenchmarkGroup)>::empty(),
        keys_distinct(group_entries(r)),
{
    LinkedHashMap::new()
}

/// The group of a name (`LinkedHashMap::get`).
#[verifier::external_body]
pub(crate) fn group_get<'a>(m: &'a LinkedHashMap<String, BenchmarkGroup>, k: &str) -> (r: Option<&'a BenchmarkGroup>)
    ensures
        match r {
            Some(g) => lookup(group_entries(*m), k@) == Some(*g),
            None => lookup(group_entries(*m), k@) is None,
        },
{
    m.get(k)
}

/// Access to the group of a name, in place (`LinkedHashMap::get_mut`).
#[verifier::external_body]
pub(crate) fn group_get_mut<'a>(m: &'a mut LinkedHashMap<String, BenchmarkGroup>, k: &str) -> (r: Option<&'a mut BenchmarkGroup>)
    ensures
        keys_distinct(group_entries(*old(m))),
        keys_distinct(group_entries(*final(m))),
        index_of(group_entries(*old(m)), k@) < 0 ==> r is None && group_entries(*final(m)) == group_entries(*old(m)),
        index_of(group_entries(*old(m)), k@) >= 0 ==> r is Some && {
            let es = group_entries(*old(m));
            let i = index_of(es, k@);
            &&& *r.unwrap() == es[i].1
            &&& group_entries(*final(m)) == es.update(i, (es[i].0, *final(r.unwrap())))
        },
{
    m.get_mut(k)
}

/// Inserts a group (`LinkedHashMap::insert`).
#[verifier::external_body]
pub(crate) fn group_insert(m: &mut LinkedHashMap<String, BenchmarkGroup>, k: String, v: BenchmarkGroup) -> (r: Option<BenchmarkGroup>)
    ensures
        keys_distinct(group_entries(*old(m))),
        keys_distinct(group_entries(*final(m))),
        group_entries(*final(m)) == inserted(group_entries(*old(m)), k@, v),
        r == lookup(group_entries(*old(m)), k@),
{
    m.insert(k, v)
}

/// Removes the group of a name (`LinkedHashMap::remove`).
#[verifier::external_body]
pub(crate) fn group_remove(m: &mut LinkedHashMap<String, BenchmarkGroup>, k: &str) -> (r: Option<BenchmarkGroup>)
    ensures
        keys_distinct(group_entries(*old(m))),
        keys_distinct(group_entries(*final(m))),
        group_entries(*final(m)) == removed(group_entries(*old(m)), k@),
        r == lookup(group_entries(*old(m)), k@),
{
    m.remove(k)
}

/// The names of the groups, in order (`LinkedHashMap::keys`).
#[verifier::external_body]
pub(crate) fn group_names(m: &LinkedHashMap<String, BenchmarkGroup>) -> (r: Vec<String>)
    ensures
        r.deep_view() == keys_of(group_entries(*m)),
{
    m.keys().cloned().collect()
}

/// An empty map of benchmarks (`LinkedHashMap::new`).
#[verifier::external_body]
pub(crate) fn new_benchmark_map() -> (r: LinkedHashMap<BenchmarkId, Benchmark>)
    ensures
        benchmark_entries(r) == Seq::<(BenchmarkIdView, Benchmark)>::empty(),
        keys_distinct(benchmark_entries(r)),
{
    LinkedHashMap::new()
}

/// The benchmark of an identity (`LinkedHashMap::get`).
#[verifier::external_body]
pub(crate) fn benchmark_get<'a>(m: &'a LinkedHashMap<BenchmarkId, Benchmark>, k: &BenchmarkId) -> (r: Option<&'a Benchmark>)
    ensures
        match r {
            Some(b) => lookup(benchmark_entries(*m), k@) == Some(*b),
            None => lookup(benchmark_entries(*m), k@) is None,
        },
{
    m.get(k)
}

/// Access to the benchmark of an identity, in place (`LinkedHashMap::get_mut`).
#[verifier::external_body]
pub(crate) fn benchmark_get_mut<'a>(m: &'a mut LinkedHashMap<BenchmarkId, Benchmark>, k: &BenchmarkId) -> (r: Option<&'a mut Benchmark>)
    ensures
        keys_distinct(benchmark_entries(*old(m))),
        keys_distinct(benchmark_entries(*final(m))),
        index_of(benchmark_entries(*old(m)), k@) < 0 ==> r is None && benchmark_entries(*final(m)) == benchmark_entries(*old(m)),
        index_of(benchmark_entries(*old(m)), k@) >= 0 ==> r is Some && {
            let es = benchmark_entries(*old(m));
            let i = index_of(es, k@);
            &&& *r.unwrap() == es[i].1
            &&& benchmark_entries(*final(m)) == es.update(i, (es[i].0, *final(r.unwrap())))
        },
{
    m.get_mut(k)
}

/// Inserts a benchmark (`LinkedHashMap::insert`).
#[verifier::external_body]
pub(crate) fn benchmark_insert(m: &mut LinkedHashMap<BenchmarkId, Benchmark>, k: BenchmarkId, v: Benchmark) -> (r: Option<Benchmark>)
    ensures
        keys_distinct(benchmark_entries(*old(m))),
        keys_distinct(benchmark_entries(*final(m))),
        benchmark_entries(*final(m)) == inserted(benchmark_entries(*old(m)), k@, v),
        r == lookup(benchmark_entries(*old(m)), k@),
{
    m.insert(k, v)
}

/// Removes the benchmark of an identity (`LinkedHashMap::remove`).
#[verifier::external_body]
pub(crate) fn benchmark_remove(m: &mut LinkedHashMap<BenchmarkId, Benchmark>, k: &BenchmarkId) -> (r: Option<Benchmark>)
    ensures
        keys_distinct(benchmark_entries(*old(m))),
        keys_distinct(benchmark_entries(*final(m))),
        benchmark_entries(*final(m)) == removed(benchmark_entries(*old(m)), k@),
        r == lookup(benchmark_entries(*old(m)), k@),
{
    m.remove(k)
}

/// The identities of the benchmarks, in order (`LinkedHashMap::keys`).
#[verifier::external_body]
pub(crate) fn benchmark_ids(m: &LinkedHashMap<BenchmarkId, Benchmark>) -> (r: Vec<BenchmarkId>)
    ensures
        r@.map_values(|id: BenchmarkId| id@) == keys_of(benchmark_entries(*m)),
{
    m.keys().cloned().collect()
}

#[verifier::external_type_specification]
#[verifier::external_body]
#[verifier::reject_recursive_types(T)]
#[verifier::reject_recursive_types(S)]
pub struct ExLinkedHashSet<T, S>(LinkedHashSet<T, S>);

/// The items that a set of optional names holds, in the order they were first inserted.
pub uninterp spec fn option_set_items(s: LinkedHashSet<Option<String>>) -> Seq<Option<Seq<char>>>;

/// An empty set of optional names (`LinkedHashSet::new`).
#[verifier::external_body]
pub(crate) fn new_option_set() -> (r: LinkedHashSet<Option<String>>)
    ensures
        option_set_items(r) == Seq::<Option<Seq<char>>>::empty(),
{
    LinkedHashSet::new()
}

/// Adds an item at the end unless it is already held (`LinkedHashSet::insert_if_absent`);
/// tells whether it was added.
#[verifier::external_body]
pub(crate) fn option_set_insert_if_absent(s: &mut LinkedHashSet<Option<String>>, item: Option<String>) -> (r: bool)
    ensures
        r == !option_set_items(*old(s)).contains(item.deep_view()),
        option_set_items(*final(s)) == if r {
            option_set_items(*old(s)).push(item.deep_view())
        } else {
            option_set_items(*old(s))
        },
{
    s.insert_if_absent(item)
}

/// The items held, in order (`LinkedHashSet::iter`).
#[verifier::external_body]
pub(crate) fn option_set_items_of(s: &LinkedHashSet<Option<String>>) -> (r: Vec<Option<String>>)
    ensures
        r.deep_view() == option_set_items(*s),
{
    s.iter().cloned().collect()
}

} // verus!
