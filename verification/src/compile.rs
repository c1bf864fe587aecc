//! Processing the messages that `cargo bench --no-run --message-format json` prints: the
//! benchmark executables it built, and the library paths its build scripts linked against.
use crate::bench_target::BenchTarget;
use crate::text::{chars_le, chars_of, lemma_lex_le_reflexive, lemma_lex_le_total, lemma_lex_le_transitive, lex_le, replace, replaced, push_string};
use vstd::prelude::*;

verus! {

/// A build target as Cargo describes it.
#[derive(Debug, Clone)]
pub struct CargoTarget {
    pub name: String,
    pub kind: Vec<String>,
}

/// The messages Cargo prints while building, as far as they matter here.
#[derive(Debug, Clone)]
pub enum CargoMessage {
    /// An artifact was built; test, benchmark and library targets may come with an executable.
    CompilerArtifact { target: CargoTarget, executable: Option<String> },
    CompilerMessage,
    /// A build script ran and asked to link against these paths.
    BuildScriptExecuted { linked_paths: Vec<String> },
    BuildFinished,
}

/// The benchmarks that a build produced.
#[derive(Debug)]
pub struct CompiledBenchmarks {
    pub targets: Vec<BenchTarget>,
    pub library_paths: Vec<String>,
}

/// Whether a target of these kinds can hold benchmarks: benchmarks and tests have executables,
/// and libraries might, if they expose tests.
pub open spec fn runnable_kind(kinds: Seq<Seq<char>>) -> bool {
    exists|i: int| 0 <= i < kinds.len() && (kinds[i] == "bench"@ || kinds[i] == "test"@ || kinds[i] == "lib"@)
}

/// The (name, executable) pairs of the runnable artifacts that the messages announce, in order.
pub open spec fn artifacts(ms: Seq<CargoMessage>) -> Seq<(Seq<char>, Seq<char>)>
    decreases ms.len(),
{
    if ms.len() == 0 {
        seq![]
    } else {
        artifacts(ms.drop_last()) + match ms.last() {
            CargoMessage::CompilerArtifact { target, executable: Some(e) } => if runnable_kind(
                target.kind.deep_view(),
            ) {
                seq![(target.name@, e@)]
            } else {
                seq![]
            },
            _ => seq![],
        }
    }
}

/// A linked path without the kind that Cargo prefixes it with: every occurrence of
/// `dependency=`, `crate=`, `native=`, `framework=` and `all=`, in that order, is removed.
pub open spec fn strip_link_kind(p: Seq<char>) -> Seq<char> {
    replaced(
        replaced(
            replaced(replaced(replaced(p, "dependency="@, seq![]), "crate="@, seq![]), "native="@, seq![]),
            "framework="@,
            seq![],
        ),
        "all="@,
        seq![],
    )
}

/// The library paths that the messages' build scripts linked against, in order.
pub open spec fn linked_paths(ms: Seq<CargoMessage>) -> Seq<Seq<char>>
    decreases ms.len(),
{
    if ms.len() == 0 {
        seq![]
    } else {
        linked_paths(ms.drop_last()) + match ms.last() {
            CargoMessage::BuildScriptExecuted { linked_paths } => linked_paths.deep_view().map_values(
                |p: Seq<char>| strip_link_kind(p),
            ),
            _ => seq![],
        }
    }
}

/// The pairs of `ts` whose name is `n`, in order.
pub open spec fn with_name(ts: Seq<(Seq<char>, Seq<char>)>, n: Seq<char>) -> Seq<(Seq<char>, Seq<char>)>
    decreases ts.len(),
{
    if ts.len() == 0 {
        seq![]
    } else if ts.last().0 == n {
        with_name(ts.drop_last(), n).push(ts.last())
    } else {
        with_name(ts.drop_last(), n)
    }
}

/// Whether the names of `ts` are in order.
pub open spec fn sorted_by_name(ts: Seq<(Seq<char>, Seq<char>)>) -> bool {
    forall|i: int, j: int| 0 <= i < j < ts.len() ==> lex_le(#[trigger] ts[i].0, #[trigger] ts[j].0)
}

/// The (name, executable) pairs of a list of targets.
pub open spec fn target_pairs(ts: Seq<BenchTarget>) -> Seq<(Seq<char>, Seq<char>)> {
    ts.map_values(|t: BenchTarget| t@)
}

/// Picking the pairs of one name distributes over concatenation.
proof fn lemma_with_name_add(a: Seq<(Seq<char>, Seq<char>)>, b: Seq<(Seq<char>, Seq<char>)>, n: Seq<char>)
    ensures
        with_name(a + b, n) == with_name(a, n) + with_name(b, n),
    decreases b.len(),
{
    if b.len() == 0 {
        assert(a + b =~= a);
        assert(with_name(a, n) + with_name(b, n) =~= with_name(a, n));
    } else {
        assert((a + b).drop_last() =~= a + b.drop_last());
        lemma_with_name_add(a, b.drop_last(), n);
        if b.last().0 == n {
            assert(with_name(a, n) + with_name(b.drop_last(), n).push(b.last()) =~= (with_name(a, n)
                + with_name(b.drop_last(), n)).push(b.last()));
        }
    }
}

/// A sequence in which no pair has name `n` has none to pick.
proof fn lemma_with_name_none(a: Seq<(Seq<char>, Seq<char>)>, n: Seq<char>)
    requires
        forall|i: int| 0 <= i < a.len() ==> #[trigger] a[i].0 != n,
    ensures
        with_name(a, n) == Seq::<(Seq<char>, Seq<char>)>::empty(),
    decreases a.len(),
{
    if a.len() > 0 {
        lemma_with_name_none(a.drop_last(), n);
    }
}

/// Inserts a target into a list sorted by name, after all targets of the same or an earlier
/// name, so that targets of equal names keep the order in which they came.
fn insert_by_name(v: &mut Vec<BenchTarget>, t: BenchTarget)
    requires
        sorted_by_name(target_pairs(old(v)@)),
    ensures
        sorted_by_name(target_pairs(final(v)@)),
        forall|n: Seq<char>|
            #[trigger] with_name(target_pairs(final(v)@), n) == with_name(target_pairs(old(v)@), n)
                + with_name(seq![t@], n),
{
    let ghost old_pairs = target_pairs(v@);
    let tn = chars_of(t.name.as_str());
    let mut i: usize = 0;
    while i < v.len()
        invariant
            i <= v.len(),
            v@ == old(v)@,
            old_pairs == target_pairs(v@),
            tn@ == t.name@,
            forall|j: int| 0 <= j < i ==> lex_le(#[trigger] old_pairs[j].0, t@.0),
        ensures
            i <= v.len(),
            v@ == old(v)@,
            forall|j: int| 0 <= j < i ==> lex_le(#[trigger] old_pairs[j].0, t@.0),
            i < v.len() ==> !lex_le(old_pairs[i as int].0, t@.0),
        decreases v.len() - i,
    {
        let vn = chars_of(v[i].name.as_str());
        if !chars_le(&vn, &tn) {
            break;
        }
        i = i + 1;
    }
    proof {
        assert forall|j: int| i <= j < old_pairs.len() implies lex_le(t@.0, #[trigger] old_pairs[j].0)
            && old_pairs[j].0 != t@.0 by {
            lemma_lex_le_total(old_pairs[i as int].0, t@.0);
            if j > i {
                lemma_lex_le_transitive(t@.0, old_pairs[i as int].0, old_pairs[j].0);
            }
            if old_pairs[j].0 == t@.0 {
                lemma_lex_le_reflexive(t@.0);
                if j > i {
                    assert(lex_le(old_pairs[i as int].0, old_pairs[j].0));
                }
            }
        }
    }
    let ghost tv = t@;
    v.insert(i, t);
    proof {
        assert(target_pairs(v@) =~= old_pairs.insert(i as int, tv));
        lemma_insert_keeps_sorted(old_pairs, i as int, tv);
        assert forall|n: Seq<char>|
            #[trigger] with_name(target_pairs(v@), n) == with_name(old_pairs, n) + with_name(seq![tv], n) by {
            lemma_insert_with_name(old_pairs, i as int, tv, n);
        }
    }
}

/// Inserting a pair after every pair of no later name, and before every pair of a later name,
/// keeps a list sorted.
proof fn lemma_insert_keeps_sorted(ps: Seq<(Seq<char>, Seq<char>)>, i: int, tv: (Seq<char>, Seq<char>))
    requires
        0 <= i <= ps.len(),
        sorted_by_name(ps),
        forall|j: int| 0 <= j < i ==> lex_le(#[trigger] ps[j].0, tv.0),
        forall|j: int| i <= j < ps.len() ==> lex_le(tv.0, #[trigger] ps[j].0),
    ensures
        sorted_by_name(ps.insert(i, tv)),
{
    let np = ps.insert(i, tv);
    assert forall|a: int, b: int| 0 <= a < b < np.len() implies lex_le(
        #[trigger] np[a].0,
        #[trigger] np[b].0,
    ) by {
        if a < i && b < i {
            assert(np[a] == ps[a] && np[b] == ps[b]);
        } else if a < i && b == i {
            assert(np[a] == ps[a]);
        } else if a < i && b > i {
            assert(np[a] == ps[a] && np[b] == ps[b - 1]);
            assert(lex_le(ps[a].0, ps[b - 1].0));
        } else if a == i {
            assert(np[b] == ps[b - 1]);
        } else {
            assert(np[a] == ps[a - 1] && np[b] == ps[b - 1]);
            assert(lex_le(ps[a - 1].0, ps[b - 1].0));
        }
    }
}

/// Inserting a pair before every pair of its own name adds it at the end of the pairs of that
/// name, and leaves the pairs of other names alone.
proof fn lemma_insert_with_name(ps: Seq<(Seq<char>, Seq<char>)>, i: int, tv: (Seq<char>, Seq<char>), n: Seq<char>)
    requires
        0 <= i <= ps.len(),
        forall|j: int| i <= j < ps.len() ==> #[trigger] ps[j].0 != tv.0,
    ensures
        with_name(ps.insert(i, tv), n) == with_name(ps, n) + with_name(seq![tv], n),
{
    let head = ps.take(i);
    let tail = ps.skip(i);
    let one = seq![tv];
    let empty = Seq::<(Seq<char>, Seq<char>)>::empty();
    assert(ps.insert(i, tv) =~= head + one + tail);
    assert(ps =~= head + tail);
    lemma_with_name_add(head + one, tail, n);
    lemma_with_name_add(head, one, n);
    lemma_with_name_add(head, tail, n);
    assert(one.drop_last() =~= empty);
    assert(one.last() == tv);
    assert(with_name(empty, n) =~= empty);
    if n == tv.0 {
        assert forall|k: int| 0 <= k < tail.len() implies #[trigger] tail[k].0 != n by {
            assert(tail[k] == ps[i + k]);
        }
        lemma_with_name_none(tail, n);
        assert(with_name(head, n) + empty =~= with_name(head, n));
        assert(with_name(head, n) + with_name(one, n) + empty =~= with_name(head, n) + with_name(one, n));
    } else {
        assert(with_name(one, n) =~= empty);
        assert(with_name(head, n) + empty =~= with_name(head, n));
        assert(with_name(ps, n) + empty =~= with_name(ps, n));
    }
}

/// Whether one of the kinds is `bench`, `test` or `lib`.
fn is_runnable_kind(kinds: &Vec<String>) -> (r: bool)
    ensures
        r == runnable_kind(kinds.deep_view()),
{
    let mut i: usize = 0;
    while i < kinds.len()
        invariant
            i <= kinds.len(),
            forall|j: int|
                0 <= j < i ==> !(#[trigger] kinds.deep_view()[j] == "bench"@ || kinds.deep_view()[j] == "test"@
                    || kinds.deep_view()[j] == "lib"@),
        decreases kinds.len() - i,
    {
        let k = kinds[i].as_str();
        if crate::text::str_eq(k, "bench") || crate::text::str_eq(k, "test") || crate::text::str_eq(k, "lib") {
            assert(kinds.deep_view()[i as int] == kinds[i as int]@);
            return true;
        }
        i = i + 1;
    }
    false
}

/// Removes the kind that Cargo prefixes a linked path with (see [`strip_link_kind`]).
pub fn strip_link_prefixes(p: &str) -> (r: String)
    ensures
        r@ == strip_link_kind(p@),
{
    proof {
        reveal_strlit("dependency=");
        reveal_strlit("crate=");
        reveal_strlit("native=");
        reveal_strlit("framework=");
        reveal_strlit("all=");
        reveal_strlit("");
    }
    assert(""@ =~= Seq::<char>::empty());
    let a = replace(p, "dependency=", "");
    let b = replace(a.as_str(), "crate=", "");
    let c = replace(b.as_str(), "native=", "");
    let d = replace(c.as_str(), "framework=", "");
    replace(d.as_str(), "all=", "")
}

/// Collects the benchmark executables and library paths from Cargo's build messages. The
/// executables come sorted by name; executables of the same name keep their order.
pub fn collect_benchmarks(messages: &Vec<CargoMessage>) -> (r: CompiledBenchmarks)
    ensures
        sorted_by_name(target_pairs(r.targets@)),
        forall|n: Seq<char>|
            #[trigger] with_name(target_pairs(r.targets@), n) == with_name(artifacts(messages@), n),
        r.library_paths.deep_view() == linked_paths(messages@),
{
    let mut targets: Vec<BenchTarget> = Vec::new();
    let mut library_paths: Vec<String> = Vec::new();
    let mut k: usize = 0;
    assert(messages@.take(0) =~= Seq::<CargoMessage>::empty());
    assert(library_paths.deep_view() =~= Seq::<Seq<char>>::empty());
    while k < messages.len()
        invariant
            k <= messages.len(),
            sorted_by_name(target_pairs(targets@)),
            forall|n: Seq<char>|
                #[trigger] with_name(target_pairs(targets@), n) == with_name(artifacts(messages@.take(k as int)), n),
            library_paths.deep_view() == linked_paths(messages@.take(k as int)),
        decreases messages.len() - k,
    {
        let ghost prefix = messages@.take(k as int);
        let ghost next = messages@.take(k + 1);
        assert(next.drop_last() =~= prefix);
        assert(next.last() == messages@[k as int]);
        match &messages[k] {
            CargoMessage::CompilerArtifact { target, executable } => {
                let runnable = is_runnable_kind(&target.kind);
                match executable {
                    Some(e) => {
                        if runnable {
                            let t = BenchTarget { name: target.name.clone(), executable: e.clone() };
                            let ghost before = target_pairs(targets@);
                            insert_by_name(&mut targets, t);
                            assert forall|n: Seq<char>|
                                #[trigger] with_name(target_pairs(targets@), n) == with_name(artifacts(next), n) by {
                                lemma_with_name_add(artifacts(prefix), seq![t@], n);
                            }
                        } else {
                            assert forall|n: Seq<char>|
                                #[trigger] with_name(target_pairs(targets@), n) == with_name(artifacts(next), n) by {
                                assert(artifacts(next) =~= artifacts(prefix));
                            }
                        }
                    },
                    None => {
                        assert(artifacts(next) =~= artifacts(prefix));
                    },
                }
                assert(linked_paths(next) =~= linked_paths(prefix));
            },
            CargoMessage::BuildScriptExecuted { linked_paths: paths } => {
                let ghost start = library_paths.deep_view();
                let mut j: usize = 0;
                while j < paths.len()
                    invariant
                        j <= paths.len(),
                        library_paths.deep_view() == start + paths.deep_view().take(j as int).map_values(
                            |p: Seq<char>| strip_link_kind(p),
                        ),
                    decreases paths.len() - j,
                {
                    let stripped = strip_link_prefixes(paths[j].as_str());
                    push_string(&mut library_paths, stripped);
                    assert(paths.deep_view().take(j + 1) =~= paths.deep_view().take(j as int).push(paths[j as int]@));
                    assert(start + paths.deep_view().take(j + 1).map_values(|p: Seq<char>| strip_link_kind(p))
                        =~= (start + paths.deep_view().take(j as int).map_values(|p: Seq<char>| strip_link_kind(p))).push(
                        strip_link_kind(paths[j as int]@),
                    ));
                    j = j + 1;
                }
                assert(paths.deep_view().take(paths.len() as int) =~= paths.deep_view());
                assert(artifacts(next) =~= artifacts(prefix));
            },
            _ => {
                assert(artifacts(next) =~= artifacts(prefix));
                assert(linked_paths(next) =~= linked_paths(prefix));
            },
        }
        k = k + 1;
    }
    assert(messages@.take(messages.len() as int) =~= messages@);
    CompiledBenchmarks { targets, library_paths }
}

/// The Cargo subcommand that builds the benchmarks: `test --benches` for a debug build, else
/// `bench`.
pub open spec fn build_subcommand(debug_build: bool) -> Seq<Seq<char>> {
    if debug_build {
        seq!["test"@, "--benches"@]
    } else {
        seq!["bench"@]
    }
}

/// The Cargo subcommand that builds the benchmarks (see [`build_subcommand`]).
pub fn cargo_subcommand(debug_build: bool) -> (r: Vec<String>)
    ensures
        r.deep_view() == build_subcommand(debug_build),
{
    let mut r: Vec<String> = Vec::new();
    if debug_build {
        push_string(&mut r, "test".to_owned());
        push_string(&mut r, "--benches".to_owned());
    } else {
        push_string(&mut r, "bench".to_owned());
    }
    r
}

} // verus!
