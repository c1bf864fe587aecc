//! What is kept in memory about the benchmarks and their results: groups in the order they were
//! last run, and in each group its benchmarks in the order they were last run.
use crate::linked::{
    lemma_index_of, lemma_removed_absent, benchmark_entries, benchmark_get, benchmark_get_mut, benchmark_insert, benchmark_remove,
    group_entries, group_get, keys_distinct, group_get_mut, group_insert, group_remove, index_of, inserted,
    keys_of, lookup, new_benchmark_map, new_group_map, removed,
};
use crate::connection::Throughput;
use crate::report::{new_id_view, uniquified, BenchmarkId, BenchmarkIdView};
use crate::text::{concat, ends_with, has_prefix, has_suffix, join_path, joined, starts_with, string_of, two_digits};
use linked_hash_map::LinkedHashMap;
use vstd::hash_set::StringHashSet;
use vstd::prelude::*;

verus! {

/// One benchmark: the saved statistics of its latest and previous run, and the target it ran in.
/// Statistics are referred to by the number under which the caller keeps them.
#[derive(Debug)]
pub struct Benchmark {
    pub latest_stats: u64,
    pub previous_stats: Option<u64>,
    pub target: Option<String>,
}

impl Benchmark {
    /// A benchmark with one run behind it and no known target.
    pub open spec fn new_spec(stats: u64) -> Benchmark {
        Benchmark { latest_stats: stats, previous_stats: None, target: None }
    }

    /// A benchmark with one run behind it and no known target.
    pub fn new(stats: u64) -> (r: Benchmark)
        ensures
            r == Benchmark::new_spec(stats),
    {
        Benchmark { latest_stats: stats, previous_stats: None, target: None }
    }

    /// Records a new run: its statistics become the latest, the latest become the previous.
    pub fn add_stats(&mut self, stats: u64)
        ensures
            *final(self) == (Benchmark {
                latest_stats: stats,
                previous_stats: Some(old(self).latest_stats),
                target: old(self).target,
            }),
    {
        let previous_stats = self.latest_stats;
        self.latest_stats = stats;
        self.previous_stats = Some(previous_stats);
    }
}

/// The benchmarks of a group, and the target the group ran in.
pub struct BenchmarkGroup {
    pub benchmarks: LinkedHashMap<BenchmarkId, Benchmark>,
    pub target: Option<String>,
}

/// The pairs a group holds: its benchmarks' identities and the benchmarks.
pub open spec fn benchmarks_of(g: BenchmarkGroup) -> Seq<(BenchmarkIdView, Benchmark)> {
    benchmark_entries(g.benchmarks)
}

impl BenchmarkGroup {
    /// A group with no benchmarks and no known target.
    pub fn default() -> (r: BenchmarkGroup)
        ensures
            benchmarks_of(r) == Seq::<(BenchmarkIdView, Benchmark)>::empty(),
            r.target is None,
    {
        BenchmarkGroup { benchmarks: new_benchmark_map(), target: None }
    }
}

/// The group of the given name in `es`; arbitrary when there is none.
pub open spec fn group_named(es: Seq<(Seq<char>, BenchmarkGroup)>, name: Seq<char>) -> BenchmarkGroup {
    es[index_of(es, name)].1
}

/// The benchmarks of the group of the given name, none when there is no such group.
pub open spec fn benchmarks_named(es: Seq<(Seq<char>, BenchmarkGroup)>, name: Seq<char>) -> Seq<(BenchmarkIdView, Benchmark)> {
    if index_of(es, name) >= 0 {
        benchmarks_of(group_named(es, name))
    } else {
        Seq::empty()
    }
}

/// `new` is `old` where only the group `name` may differ, and that group keeps its place, or,
/// when `old` has no such group, comes last.
pub open spec fn only_group_changed(
    old: Seq<(Seq<char>, BenchmarkGroup)>,
    new: Seq<(Seq<char>, BenchmarkGroup)>,
    name: Seq<char>,
) -> bool {
    &&& keys_of(new) == if index_of(old, name) >= 0 {
        keys_of(old)
    } else {
        keys_of(old).push(name)
    }
    &&& forall|j: int| 0 <= j < old.len() && old[j].0 != name ==> #[trigger] new[j] == old[j]
}

/// The latest statistics saved for a benchmark, if the benchmark is known.
pub open spec fn last_sample(es: Seq<(Seq<char>, BenchmarkGroup)>, id: BenchmarkIdView) -> Option<u64> {
    match lookup(es, id.group_id) {
        Some(g) => match lookup(benchmarks_of(g), id) {
            Some(b) => Some(b.latest_stats),
            None => None,
        },
        None => None,
    }
}

/// What recording a completed run with statistics `stats` does to the benchmarks of a group: a
/// known benchmark keeps its place and target, its latest statistics become the previous; an
/// unknown one is added last.
pub open spec fn completed(bs: Seq<(BenchmarkIdView, Benchmark)>, id: BenchmarkIdView, stats: u64) -> Seq<(BenchmarkIdView, Benchmark)> {
    let i = index_of(bs, id);
    if i >= 0 {
        bs.update(
            i,
            (
                bs[i].0,
                Benchmark {
                    latest_stats: stats,
                    previous_stats: Some(bs[i].1.latest_stats),
                    target: bs[i].1.target,
                },
            ),
        )
    } else {
        bs.push((id, Benchmark { latest_stats: stats, previous_stats: None, target: None }))
    }
}

/// `new` is `old` after recording a completed run of benchmark `id`, whose group is known, with
/// statistics `stats`: only that group changes, it keeps its target, and its benchmarks are
/// updated as [`completed`] says.
pub open spec fn run_recorded(
    old: Seq<(Seq<char>, BenchmarkGroup)>,
    new: Seq<(Seq<char>, BenchmarkGroup)>,
    id: BenchmarkIdView,
    stats: u64,
) -> bool {
    &&& only_group_changed(old, new, id.group_id)
    &&& index_of(new, id.group_id) >= 0
    &&& group_named(new, id.group_id).target == group_named(old, id.group_id).target
    &&& benchmarks_named(new, id.group_id) == completed(benchmarks_named(old, id.group_id), id, stats)
}

/// The statistics saved for the run before the latest of a benchmark, if it is known and had
/// such a run.
pub open spec fn previous_sample(es: Seq<(Seq<char>, BenchmarkGroup)>, id: BenchmarkIdView) -> Option<u64> {
    match lookup(es, id.group_id) {
        Some(g) => match lookup(benchmarks_of(g), id) {
            Some(b) => b.previous_stats,
            None => None,
        },
        None => None,
    }
}

/// What the model keeps about the benchmarks of a run. It is loaded from the saved results at
/// the start of a run and updated as benchmarks are executed.
pub struct Model {
    /// Path to the data directory
    data_directory: String,
    /// All of the benchmark titles seen in this run, so they can be made unique.
    all_titles: StringHashSet,
    /// All of the benchmark directories seen in this run, so they can be made unique.
    all_directories: StringHashSet,
    /// All of the known benchmark groups, in execution order where possible.
    pub groups: LinkedHashMap<String, BenchmarkGroup>,
    history_id: Option<String>,
    history_description: Option<String>,
}

impl Model {
    /// Whether the model's records of titles and directories are finite sets, and no two of its
    /// groups share a name.
    pub closed spec fn wf(&self) -> bool {
        &&& self.all_titles@.finite()
        &&& self.all_directories@.finite()
        &&& keys_distinct(group_entries(self.groups))
    }

    /// The titles handed out in this run.
    pub closed spec fn titles(&self) -> Set<Seq<char>> {
        self.all_titles@
    }

    /// The directory names handed out in this run.
    pub closed spec fn directories(&self) -> Set<Seq<char>> {
        self.all_directories@
    }

    /// The directory that holds the saved data of the timeline.
    pub closed spec fn data_dir(&self) -> Seq<char> {
        self.data_directory@
    }

    /// The pairs of group names and groups that the model holds, in order.
    pub closed spec fn entries(&self) -> Seq<(Seq<char>, BenchmarkGroup)> {
        group_entries(self.groups)
    }

    /// An empty model whose data lives in `data/<timeline>` under `criterion_home`. The saved
    /// benchmarks found there are added with [`Model::load_stored_benchmark`].
    pub fn new(
        criterion_home: &str,
        timeline: &str,
        history_id: Option<String>,
        history_description: Option<String>,
    ) -> (r: Model)
        ensures
            r.wf(),
            r.entries() == Seq::<(Seq<char>, BenchmarkGroup)>::empty(),
            r.titles() == Set::<Seq<char>>::empty(),
            r.directories() == Set::<Seq<char>>::empty(),
            r.data_dir() == joined(joined(criterion_home@, "data"@), timeline@),
            r.hist_id() == history_id.deep_view(),
            r.hist_description() == history_description.deep_view(),
    {
        let data = join_path(criterion_home, "data");
        let data_directory = join_path(data.as_str(), timeline);
        Model {
            data_directory,
            all_titles: StringHashSet::new(),
            all_directories: StringHashSet::new(),
            groups: new_group_map(),
            history_id,
            history_description,
        }
    }

    /// The directory that holds the saved data of the timeline.
    pub fn data_directory(&self) -> (r: &str)
        ensures
            r@ == self.data_dir(),
    {
        self.data_directory.as_str()
    }

    /// The directory that holds the saved data of a benchmark.
    pub fn benchmark_directory(&self, id: &BenchmarkId) -> (r: String)
        ensures
            r@ == joined(self.data_dir(), id@.directory_name),
    {
        join_path(self.data_directory.as_str(), id.as_directory_name())
    }

    /// The identifier given to this run's history entries, if any.
    pub closed spec fn hist_id(&self) -> Option<Seq<char>> {
        self.history_id.deep_view()
    }

    /// The description given to this run's history entries, if any.
    pub closed spec fn hist_description(&self) -> Option<Seq<char>> {
        self.history_description.deep_view()
    }

    /// The identifier given to this run's history entries.
    pub fn history_id(&self) -> (r: &Option<String>)
        ensures
            r.deep_view() == self.hist_id(),
    {
        &self.history_id
    }

    /// The description given to this run's history entries.
    pub fn history_description(&self) -> (r: &Option<String>)
        ensures
            r.deep_view() == self.hist_description(),
    {
        &self.history_description
    }

    /// No two groups of a well-formed model share a name.
    pub proof fn lemma_group_names_distinct(&self)
        requires
            self.wf(),
        ensures
            keys_distinct(self.entries()),
    {
    }

    /// The groups, keyed by name, in order.
    pub fn groups(&self) -> (r: &LinkedHashMap<String, BenchmarkGroup>)
        ensures
            group_entries(*r) == self.entries(),
    {
        &self.groups
    }

    /// The group of the given name, created empty and placed last if it is not known yet.
    fn group_entry(&mut self, name: &String) -> (r: &mut BenchmarkGroup)
        ensures
            final(self).hist_id() == old(self).hist_id(),
            final(self).hist_description() == old(self).hist_description(),
            index_of(old(self).entries(), name@) >= 0 ==> *r == group_named(old(self).entries(), name@),
            index_of(old(self).entries(), name@) < 0 ==> benchmarks_of(*r) == Seq::<(BenchmarkIdView, Benchmark)>::empty() && r.target is None,
            final(self).wf() == old(self).wf(),
            final(self).titles() == old(self).titles(),
            final(self).directories() == old(self).directories(),
            final(self).data_dir() == old(self).data_dir(),
            index_of(final(self).entries(), name@) >= 0,
            group_named(final(self).entries(), name@) == *final(r),
            only_group_changed(old(self).entries(), final(self).entries(), name@),
    {
        proof {
            lemma_index_of(self.entries(), name@);
        }
        let ghost es0 = self.entries();
        if group_get(&self.groups, name.as_str()).is_none() {
            group_insert(&mut self.groups, name.clone(), BenchmarkGroup::default());
            proof {
                assert(keys_of(self.entries()) =~= keys_of(es0).push(name@));
                assert forall|j: int| 0 <= j < es0.len() && es0[j].0 != name@ implies #[trigger] self.entries()[j] == es0[j] by {}
            }
        }
        let ghost es1 = self.entries();
        proof {
            lemma_index_of(es1, name@);
        }
        match group_get_mut(&mut self.groups, name.as_str()) {
            Some(g) => {
                proof {
                    let i = index_of(es1, name@);
                    let fin = es1.update(i, (es1[i].0, *final(g)));
                    assert(keys_of(fin) =~= keys_of(es1));
                    lemma_index_of(fin, name@);
                    assert(fin[i].0 == name@);
                    assert forall|j: int| 0 <= j < es0.len() && es0[j].0 != name@ implies #[trigger] fin[j] == es0[j] by {
                        assert(es1[j] == es0[j]);
                    }
                }
                g
            },
            None => vstd::pervasive::unreached(),
        }
    }

    /// Records the saved results of a benchmark found on disk: the benchmark is added to its
    /// group (created last if new), or, if known, replaced and moved last in the group.
    pub fn load_stored_benchmark(&mut self, id: BenchmarkId, stats: u64)
        requires
            old(self).wf(),
        ensures
            final(self).hist_id() == old(self).hist_id(),
            final(self).hist_description() == old(self).hist_description(),
            final(self).wf(),
            final(self).titles() == old(self).titles(),
            final(self).directories() == old(self).directories(),
            final(self).data_dir() == old(self).data_dir(),
            only_group_changed(old(self).entries(), final(self).entries(), id@.group_id),
            index_of(final(self).entries(), id@.group_id) >= 0,
            group_named(final(self).entries(), id@.group_id).target == if index_of(old(self).entries(), id@.group_id) >= 0 {
                group_named(old(self).entries(), id@.group_id).target
            } else {
                None
            },
            benchmarks_named(final(self).entries(), id@.group_id) == inserted(
                benchmarks_named(old(self).entries(), id@.group_id),
                id@,
                Benchmark::new_spec(stats),
            ),
    {
        let group = self.group_entry(id.group());
        benchmark_insert(&mut group.benchmarks, id, Benchmark::new(stats));
    }

    /// Registers a benchmark that is about to run (or be skipped) in `target`. Its directory
    /// name and title are first made different from all handed out before, and recorded. If
    /// its group is unknown, the group is created last. If the benchmark is already known, it
    /// moves to the end of its group; it takes `target` as its target unless it had one, in
    /// which case the identity was used twice and that first target is returned, for a warning.
    pub fn add_benchmark_id(&mut self, target: &str, id: &mut BenchmarkId) -> (r: Option<String>)
        requires
            old(self).wf(),
        ensures
            final(self).hist_id() == old(self).hist_id(),
            final(self).hist_description() == old(self).hist_description(),
            final(self).wf(),
            uniquified(old(id)@.directory_name, "_"@, old(self).directories(), final(id)@.directory_name),
            uniquified(old(id)@.title, " #"@, old(self).titles(), final(id)@.title),
            final(id)@ == (BenchmarkIdView { title: final(id)@.title, directory_name: final(id)@.directory_name, ..old(id)@ }),
            !old(self).directories().contains(final(id)@.directory_name),
            !old(self).titles().contains(final(id)@.title),
            final(self).directories() == old(self).directories().insert(final(id)@.directory_name),
            final(self).titles() == old(self).titles().insert(final(id)@.title),
            final(self).data_dir() == old(self).data_dir(),
            only_group_changed(old(self).entries(), final(self).entries(), old(id)@.group_id),
            index_of(final(self).entries(), old(id)@.group_id) >= 0,
            group_named(final(self).entries(), old(id)@.group_id).target == if index_of(old(self).entries(), old(id)@.group_id) >= 0 {
                group_named(old(self).entries(), old(id)@.group_id).target
            } else {
                None
            },
            ({
                let bs = benchmarks_named(old(self).entries(), old(id)@.group_id);
                let nbs = benchmarks_named(final(self).entries(), old(id)@.group_id);
                match lookup(bs, final(id)@) {
                    None => nbs == bs && r is None,
                    Some(b) => {
                        &&& nbs == removed(bs, final(id)@).push((final(id)@, nbs.last().1))
                        &&& nbs.last().1.latest_stats == b.latest_stats
                        &&& nbs.last().1.previous_stats == b.previous_stats
                        &&& match b.target {
                            Some(t) => nbs.last().1.target == b.target && r == Some(t),
                            None => nbs.last().1.target.deep_view() == Some(target@) && r is None,
                        }
                    },
                }
            }),
    {
        id.ensure_directory_name_unique(&self.all_directories);
        self.all_directories.insert(id.as_directory_name().to_owned());
        id.ensure_title_unique(&self.all_titles);
        self.all_titles.insert(id.as_title().to_owned());
        let ghost mid = self.entries();
        let group = self.group_entry(id.group());
        let ghost bs = benchmarks_of(*group);
        assert(mid == old(self).entries());
        assert(bs == benchmarks_named(old(self).entries(), id@.group_id));
        let removed_benchmark = benchmark_remove(&mut group.benchmarks, id);
        match removed_benchmark {
            Some(mut benchmark) => {
                let first_target = match &benchmark.target {
                    Some(t) => Some(t.clone()),
                    None => {
                        benchmark.target = Some(target.to_owned());
                        None
                    },
                };
                let ghost moved = benchmark;
                let key = id.duplicate();
                proof {
                    lemma_removed_absent(bs, id@);
                    assert(inserted(removed(bs, id@), key@, moved) == removed(bs, id@).push((id@, moved)));
                }
                benchmark_insert(&mut group.benchmarks, key, benchmark);
                first_target
            },
            None => None,
        }
    }

    /// Records a completed run of a benchmark whose group is known, with the statistics saved
    /// under `stats`: a known benchmark keeps its place and its latest statistics become its
    /// previous ones; an unknown benchmark is added last in its group.
    pub fn benchmark_complete(&mut self, id: &BenchmarkId, stats: u64)
        requires
            old(self).wf(),
            index_of(old(self).entries(), id@.group_id) >= 0,
        ensures
            final(self).hist_id() == old(self).hist_id(),
            final(self).hist_description() == old(self).hist_description(),
            final(self).wf(),
            final(self).titles() == old(self).titles(),
            final(self).directories() == old(self).directories(),
            final(self).data_dir() == old(self).data_dir(),
            run_recorded(old(self).entries(), final(self).entries(), id@, stats),
    {
        let group = self.group_entry(id.group());
        let ghost bs = benchmarks_of(*group);
        proof {
            lemma_index_of(bs, id@);
        }
        match benchmark_get_mut(&mut group.benchmarks, id) {
            Some(benchmark) => {
                benchmark.add_stats(stats);
            },
            None => {
                benchmark_insert(&mut group.benchmarks, id.duplicate(), Benchmark::new(stats));
            },
        }
    }

    /// The number of the latest statistics saved for a benchmark, if the benchmark is known.
    pub fn get_last_sample(&self, id: &BenchmarkId) -> (r: Option<u64>)
        ensures
            r == last_sample(self.entries(), id@),
    {
        match group_get(&self.groups, id.group().as_str()) {
            Some(g) => match benchmark_get(&g.benchmarks, id) {
                Some(b) => Some(b.latest_stats),
                None => None,
            },
            None => None,
        }
    }

    /// Checks a group that is about to run in `current_target`: if the group is known from
    /// another target, group names were used twice, and that other target is returned, for a
    /// warning.
    pub fn check_benchmark_group(&self, current_target: &str, group: &str) -> (r: Option<String>)
        ensures
            r.deep_view() == match lookup(self.entries(), group@) {
                Some(g) => match g.target {
                    Some(t) => if t@ != current_target@ {
                        Some(t@)
                    } else {
                        None
                    },
                    None => None,
                },
                None => None,
            },
    {
        match group_get(&self.groups, group) {
            Some(benchmark_group) => match &benchmark_group.target {
                Some(target) => if !crate::text::str_eq(target.as_str(), current_target) {
                    Some(target.clone())
                } else {
                    None
                },
                None => None,
            },
            None => None,
        }
    }

    /// Marks a group as finished in `target`: the group (created empty if unknown) takes
    /// `target` as its target and moves to the end of the groups. Returns the group.
    pub fn add_benchmark_group(&mut self, target: &str, group_name: &str) -> (r: &BenchmarkGroup)
        requires
            old(self).wf(),
        ensures
            final(self).hist_id() == old(self).hist_id(),
            final(self).hist_description() == old(self).hist_description(),
            final(self).wf(),
            final(self).titles() == old(self).titles(),
            final(self).directories() == old(self).directories(),
            final(self).data_dir() == old(self).data_dir(),
            final(self).entries() == removed(old(self).entries(), group_name@).push((group_name@, *r)),
            r.target.deep_view() == Some(target@),
            benchmarks_of(*r) == benchmarks_named(old(self).entries(), group_name@),
    {
        proof {
            lemma_index_of(self.entries(), group_name@);
        }
        let mut group = match group_remove(&mut self.groups, group_name) {
            Some(g) => g,
            None => BenchmarkGroup::default(),
        };
        group.target = Some(target.to_owned());
        let ghost g = group;
        proof {
            lemma_removed_absent(old(self).entries(), group_name@);
        }
        group_insert(&mut self.groups, group_name.to_owned(), group);
        proof {
            lemma_index_of(self.entries(), group_name@);
        }
        match group_get(&self.groups, group_name) {
            Some(r) => r,
            None => vstd::pervasive::unreached(),
        }
    }
}

/// Pairs with the same keys in the same order find a key at the same place.
proof fn lemma_index_of_same_keys<K, V>(a: Seq<(K, V)>, b: Seq<(K, V)>, k: K)
    requires
        keys_of(a) == keys_of(b),
    ensures
        index_of(a, k) == index_of(b, k),
    decreases a.len(),
{
    assert(keys_of(a).len() == a.len());
    assert(keys_of(b).len() == b.len());
    if a.len() > 0 {
        assert(keys_of(a)[a.len() - 1] == a[a.len() - 1].0);
        assert(keys_of(b)[b.len() - 1] == b[b.len() - 1].0);
        assert(keys_of(a.drop_last()) =~= keys_of(a).drop_last());
        assert(keys_of(b.drop_last()) =~= keys_of(b).drop_last());
        lemma_index_of_same_keys(a.drop_last(), b.drop_last(), k);
    }
}

/// Recording a run of one benchmark changes, among all benchmarks, what is known of that one
/// only: any other benchmark's value is found where it was.
proof fn lemma_completed_other(bs: Seq<(BenchmarkIdView, Benchmark)>, id: BenchmarkIdView, other: BenchmarkIdView, stats: u64)
    requires
        other != id,
    ensures
        lookup(completed(bs, id, stats), other) == lookup(bs, other),
{
    lemma_index_of(bs, id);
    lemma_index_of(bs, other);
    let c = completed(bs, id, stats);
    let i = index_of(bs, id);
    if i >= 0 {
        assert(keys_of(c) =~= keys_of(bs));
        lemma_index_of_same_keys(c, bs, other);
    } else {
        assert(c.drop_last() =~= bs);
    }
}

/// The latest statistics of a benchmark are those of the last run recorded for it.
pub proof fn law_recorded_run_is_latest(
    old: Seq<(Seq<char>, BenchmarkGroup)>,
    new: Seq<(Seq<char>, BenchmarkGroup)>,
    id: BenchmarkIdView,
    stats: u64,
)
    requires
        index_of(old, id.group_id) >= 0,
        run_recorded(old, new, id, stats),
    ensures
        last_sample(new, id) == Some(stats),
        previous_sample(new, id) == last_sample(old, id),
{
    lemma_index_of(old, id.group_id);
    lemma_index_of(new, id.group_id);
    let bs = benchmarks_named(old, id.group_id);
    lemma_index_of(bs, id);
    let c = completed(bs, id, stats);
    lemma_index_of(c, id);
    if index_of(bs, id) < 0 {
        assert(c.last() == (id, Benchmark::new_spec(stats)));
    } else {
        assert(keys_of(c) =~= keys_of(bs));
        lemma_index_of_same_keys(c, bs, id);
    }
}

/// A benchmark loaded from disk has the loaded statistics as its latest, and no earlier run.
pub proof fn law_loaded_benchmark_is_latest(
    old: Seq<(Seq<char>, BenchmarkGroup)>,
    new: Seq<(Seq<char>, BenchmarkGroup)>,
    id: BenchmarkIdView,
    stats: u64,
)
    requires
        index_of(new, id.group_id) >= 0,
        benchmarks_named(new, id.group_id) == inserted(benchmarks_named(old, id.group_id), id, Benchmark::new_spec(stats)),
    ensures
        last_sample(new, id) == Some(stats),
        previous_sample(new, id) == None::<u64>,
{
    lemma_index_of(new, id.group_id);
    let bs = benchmarks_named(new, id.group_id);
    assert(bs.last() == (id, Benchmark::new_spec(stats)));
    assert(index_of(bs, id) == bs.len() - 1);
}

/// Recording a run of one benchmark leaves what is known of every other benchmark unchanged.
pub proof fn law_recorded_run_leaves_others(
    old: Seq<(Seq<char>, BenchmarkGroup)>,
    new: Seq<(Seq<char>, BenchmarkGroup)>,
    id: BenchmarkIdView,
    stats: u64,
    other: BenchmarkIdView,
)
    requires
        index_of(old, id.group_id) >= 0,
        run_recorded(old, new, id, stats),
        other != id,
    ensures
        last_sample(new, other) == last_sample(old, other),
        previous_sample(new, other) == previous_sample(old, other),
{
    lemma_index_of(old, id.group_id);
    lemma_index_of(new, id.group_id);
    lemma_index_of_same_keys(new, old, other.group_id);
    lemma_index_of(old, other.group_id);
    if other.group_id == id.group_id {
        lemma_completed_other(benchmarks_named(old, id.group_id), id, other, stats);
    } else {
        let j = index_of(old, other.group_id);
        if j >= 0 {
            assert(new[j] == old[j]);
        }
    }
}

/// Whether `states` are states of a model at which the identities `ids` were registered, in
/// order: `states[i]` is the model just before `ids[i]` (as the registration changed it) was
/// registered, and at that moment its title and directory were new, as
/// [`Model::add_benchmark_id`] ensures; `states[i + 1]`, reached by any later calls, still holds
/// everything handed out before and that title and directory, as every method of the model
/// ensures.
pub open spec fn registered_in_turn(states: Seq<Model>, ids: Seq<BenchmarkIdView>) -> bool {
    &&& states.len() == ids.len() + 1
    &&& forall|i: int|
        0 <= i < ids.len() ==> {
            &&& !(#[trigger] states[i]).titles().contains(ids[i].title)
            &&& !states[i].directories().contains(ids[i].directory_name)
            &&& states[i].titles().insert(ids[i].title).subset_of(states[i + 1].titles())
            &&& states[i].directories().insert(ids[i].directory_name).subset_of(states[i + 1].directories())
        }
}

/// What a model has handed out only grows along registrations in turn.
proof fn lemma_handed_out_grows(states: Seq<Model>, ids: Seq<BenchmarkIdView>, i: int, j: int)
    requires
        registered_in_turn(states, ids),
        0 <= i <= j < states.len(),
    ensures
        states[i].titles().subset_of(states[j].titles()),
        states[i].directories().subset_of(states[j].directories()),
    decreases j - i,
{
    if i < j {
        lemma_handed_out_grows(states, ids, i + 1, j);
        let _ = states[i];
    }
}

/// Registering one more identity extends a run of registrations: if, at the model `before`
/// (reached from the last state by calls that forgot nothing handed out), `id` gets a title and
/// directory not handed out before and `after` records them, as [`Model::add_benchmark_id`]
/// ensures, the registrations followed by this one are again in turn.
pub proof fn lemma_register_next(
    states: Seq<Model>,
    ids: Seq<BenchmarkIdView>,
    before: Model,
    after: Model,
    id: BenchmarkIdView,
)
    requires
        registered_in_turn(states, ids),
        states.last().titles().subset_of(before.titles()),
        states.last().directories().subset_of(before.directories()),
        !before.titles().contains(id.title),
        !before.directories().contains(id.directory_name),
        after.titles() == before.titles().insert(id.title),
        after.directories() == before.directories().insert(id.directory_name),
    ensures
        registered_in_turn(states.drop_last().push(before).push(after), ids.push(id)),
{
    let ns = states.drop_last().push(before).push(after);
    let nids = ids.push(id);
    assert forall|i: int| 0 <= i < nids.len() implies {
        &&& !(#[trigger] ns[i]).titles().contains(nids[i].title)
        &&& !ns[i].directories().contains(nids[i].directory_name)
        &&& ns[i].titles().insert(nids[i].title).subset_of(ns[i + 1].titles())
        &&& ns[i].directories().insert(nids[i].directory_name).subset_of(ns[i + 1].directories())
    } by {
        if i < ids.len() {
            let _ = states[i];
            assert(ns[i] == states[i]);
            if i + 1 < ids.len() {
                assert(ns[i + 1] == states[i + 1]);
            } else {
                assert(ns[i + 1] == before);
            }
        } else {
            assert(ns[i] == before);
            assert(ns[i + 1] == after);
        }
    }
}

/// Identities registered in turn in a run never share a title or a directory, however many
/// were registered and whatever other calls came between.
pub proof fn law_registered_ids_differ(states: Seq<Model>, ids: Seq<BenchmarkIdView>)
    requires
        registered_in_turn(states, ids),
    ensures
        forall|i: int, j: int|
            0 <= i < j < ids.len() ==> #[trigger] ids[i].title != #[trigger] ids[j].title
                && ids[i].directory_name != ids[j].directory_name,
{
    assert forall|i: int, j: int| 0 <= i < j < ids.len() implies #[trigger] ids[i].title != #[trigger] ids[j].title
        && ids[i].directory_name != ids[j].directory_name by {
        let _ = states[i];
        let _ = states[j];
        lemma_handed_out_grows(states, ids, i + 1, j);
        assert(states[i + 1].titles().contains(ids[i].title));
        assert(states[i + 1].directories().contains(ids[i].directory_name));
    }
}

/// Whether a file name is that of a saved measurement: `measurement_` ... `.cbor`.
pub open spec fn is_measurement_name(name: Seq<char>) -> bool {
    has_prefix(name, "measurement_"@) && has_suffix(name, ".cbor"@)
}

/// Whether a file in a benchmark's directory holds saved measurements.
pub fn is_measurement_file(name: &str) -> (r: bool)
    ensures
        r == is_measurement_name(name@),
{
    starts_with(name, "measurement_") && ends_with(name, ".cbor")
}

/// The name of the file that holds the measurements saved at the given local time (two-digit
/// year, month, day, hour, minute, second): `measurement_YYMMDDhhmmss.cbor`.
pub open spec fn measurement_name(year: nat, month: nat, day: nat, hour: nat, minute: nat, second: nat) -> Seq<char> {
    "measurement_"@ + two_digits(year) + two_digits(month) + two_digits(day) + two_digits(hour)
        + two_digits(minute) + two_digits(second) + ".cbor"@
}

/// Appends the two decimal digits of a number below one hundred.
fn push_two_digits(out: &mut Vec<char>, n: u8)
    requires
        n < 100,
    ensures
        final(out)@ == old(out)@ + two_digits(n as nat),
{
    out.push((48u8 + n / 10) as char);
    out.push((48u8 + n % 10) as char);
    assert(final(out)@ =~= old(out)@ + two_digits(n as nat));
}

/// The name of the file for measurements saved at the given local time (see
/// [`measurement_name`]); each part is below one hundred.
pub fn measurement_file_name(year: u8, month: u8, day: u8, hour: u8, minute: u8, second: u8) -> (r: String)
    requires
        year < 100,
        month < 100,
        day < 100,
        hour < 100,
        minute < 100,
        second < 100,
    ensures
        r@ == measurement_name(year as nat, month as nat, day as nat, hour as nat, minute as nat, second as nat),
{
    let mut digits: Vec<char> = Vec::new();
    push_two_digits(&mut digits, year);
    push_two_digits(&mut digits, month);
    push_two_digits(&mut digits, day);
    push_two_digits(&mut digits, hour);
    push_two_digits(&mut digits, minute);
    push_two_digits(&mut digits, second);
    let middle = string_of(&digits);
    let head = concat("measurement_", middle.as_str());
    let r = concat(head.as_str(), ".cbor");
    assert(r@ =~= measurement_name(year as nat, month as nat, day as nat, hour as nat, minute as nat, second as nat));
    r
}

/// How a benchmark's latest run compares with the one before it.
#[derive(Debug, Clone, Copy, PartialEq, Eq, Structural)]
pub enum ChangeDirection {
    NoChange,
    NotSignificant,
    Improved,
    Regressed,
}

/// The identity of a benchmark as it is saved with its results: the names it was given and its
/// throughput, without the title and directory derived from them.
#[derive(Debug)]
pub struct SavedBenchmarkId {
    pub group_id: String,
    pub function_id: Option<String>,
    pub value_str: Option<String>,
    pub throughput: Option<Throughput>,
}

impl SavedBenchmarkId {
    /// The saved form of an identity.
    pub fn from_id(other: &BenchmarkId) -> (r: SavedBenchmarkId)
        ensures
            r.group_id@ == other@.group_id,
            r.function_id.deep_view() == other@.function_id,
            r.value_str.deep_view() == other@.value_str,
            r.throughput == other@.throughput,
    {
        let function_id = match other.function() {
            Some(f) => Some(f.clone()),
            None => None,
        };
        let value_str = match other.value() {
            Some(v) => Some(v.clone()),
            None => None,
        };
        SavedBenchmarkId {
            group_id: other.group().clone(),
            function_id,
            value_str,
            throughput: other.throughput_of(),
        }
    }

    /// The identity that a saved identity stands for: its title and directory are derived anew
    /// from its names.
    pub fn into_id(self) -> (r: BenchmarkId)
        ensures
            r@ == new_id_view(self.group_id@, self.function_id.deep_view(), self.value_str.deep_view(), self.throughput),
    {
        BenchmarkId::new(self.group_id, self.function_id, self.value_str, self.throughput)
    }
}

/// What is saved about a benchmark next to its measurements: its identity and the file name of
/// its latest measurement.
#[derive(Debug)]
pub struct BenchmarkRecord {
    pub id: SavedBenchmarkId,
    pub latest_record: String,
}

impl BenchmarkRecord {
    /// The record of benchmark `id` whose latest measurement was saved as `measurement_name`.
    pub fn new(id: &BenchmarkId, measurement_name: String) -> (r: BenchmarkRecord)
        ensures
            r.id.group_id@ == id@.group_id,
            r.id.function_id.deep_view() == id@.function_id,
            r.id.value_str.deep_view() == id@.value_str,
            r.id.throughput == id@.throughput,
            r.latest_record@ == measurement_name@,
    {
        BenchmarkRecord { id: SavedBenchmarkId::from_id(id), latest_record: measurement_name }
    }
}

/// The file name under which a benchmark's record is saved.
pub const BENCHMARK_RECORD_FILE: &'static str = "benchmark.cbor";

/// Whether a file found under the data directory is a benchmark's record.
pub fn is_benchmark_record(file_name: &str) -> (r: bool)
    ensures
        r == (file_name@ == BENCHMARK_RECORD_FILE@),
{
    crate::text::str_eq(file_name, BENCHMARK_RECORD_FILE)
}

/// Whether `order` lists the positions of `dates` from the earliest date to the latest, equal
/// dates in the order of their positions: each position once, and no other.
pub open spec fn chronological(dates: Seq<i64>, order: Seq<usize>) -> bool {
    &&& order.len() == dates.len()
    &&& forall|i: int| 0 <= i < order.len() ==> (#[trigger] order[i] as int) < dates.len()
    &&& forall|i: int, j: int| 0 <= i < j < order.len() ==> #[trigger] order[i] != #[trigger] order[j]
    &&& forall|i: int, j: int|
        0 <= i < j < order.len() ==> dates[#[trigger] order[i] as int] <= dates[#[trigger] order[j] as int]
    &&& forall|i: int, j: int|
        0 <= i < j < order.len() && dates[order[i] as int] == dates[order[j] as int] ==> #[trigger] order[i]
            < #[trigger] order[j]
}

/// The order in which saved runs of a benchmark are shown in its history: by the date they were
/// saved, earliest first; runs saved at the same time keep the order in which they were found.
pub fn history_order(dates: &Vec<i64>) -> (r: Vec<usize>)
    ensures
        chronological(dates@, r@),
{
    let mut order: Vec<usize> = Vec::new();
    let mut k: usize = 0;
    while k < dates.len()
        invariant
            k <= dates.len(),
            chronological(dates@.take(k as int), order@),
            forall|i: int| 0 <= i < order.len() ==> (#[trigger] order@[i] as int) < k,
        decreases dates.len() - k,
    {
        let ghost before = order@;
        let ghost ds = dates@.take(k as int);
        let mut p: usize = 0;
        while p < order.len() && dates[order[p]] <= dates[k]
            invariant
                order@ == before,
                k < dates.len(),
                p <= order.len(),
                ds == dates@.take(k as int),
                forall|i: int| 0 <= i < order.len() ==> (#[trigger] order@[i] as int) < k,
                forall|i: int| 0 <= i < p ==> dates[#[trigger] order@[i] as int] <= dates[k as int],
            decreases order.len() - p,
        {
            p = p + 1;
        }
        proof {
            assert forall|i: int| p <= i < order.len() implies dates[k as int] < dates[#[trigger] order@[i] as int] by {
                if p < order.len() {
                    assert(dates[order@[p as int] as int] > dates[k as int]);
                    if i > p {
                        assert(ds[order@[p as int] as int] <= ds[order@[i] as int]);
                    }
                }
            }
        }
        order.insert(p, k);
        proof {
            let ds2 = dates@.take(k + 1);
            assert forall|i: int| 0 <= i < order.len() implies (#[trigger] order@[i] as int) < k + 1 by {
                if i < p {
                    assert(order@[i] == before[i]);
                } else if i > p {
                    assert(order@[i] == before[i - 1]);
                }
            }
            assert forall|i: int, j: int| 0 <= i < j < order.len() implies #[trigger] order@[i] != #[trigger] order@[j]
                && ds2[order@[i] as int] <= ds2[order@[j] as int]
                && (ds2[order@[i] as int] == ds2[order@[j] as int] ==> order@[i] < order@[j]) by {
                let bi = if i < p { i } else { i - 1 };
                let bj = if j < p { j } else { j - 1 };
                if i != p && j != p {
                    assert(order@[i] == before[bi] && order@[j] == before[bj]);
                    assert(bi < bj);
                    assert(ds[before[bi] as int] <= ds[before[bj] as int]);
                } else if i == p {
                    assert(order@[j] == before[bj]);
                    assert(dates[k as int] < dates[before[bj] as int]);
                } else {
                    assert(order@[i] == before[bi]);
                    assert(dates[before[bi] as int] <= dates[k as int]);
                }
            }
        }
        k = k + 1;
    }
    assert(dates@.take(dates.len() as int) =~= dates@);
    order
}

} // verus!
