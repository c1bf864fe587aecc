use cargo_criterion::bench_target::{
    after_close, after_message, benchmark_step, dylib_path_envvar, dylib_search_path, while_waiting, BenchmarkAction,
    ChildStatus, MessageKind, Next, Platform, TargetAction, TargetSession,
};
use cargo_criterion::compile::{collect_benchmarks, strip_link_prefixes, CargoMessage, CargoTarget};

fn strings(items: &[&str]) -> Vec<String> {
    items.iter().map(|s| s.to_string()).collect()
}

fn artifact(name: &str, kinds: &[&str], executable: Option<&str>) -> CargoMessage {
    CargoMessage::CompilerArtifact {
        target: CargoTarget { name: name.to_string(), kind: strings(kinds) },
        executable: executable.map(|e| e.to_string()),
    }
}

#[test]
fn benchmarks_are_sorted_by_name_and_keep_their_order() {
    let messages = vec![
        artifact("zeta", &["bench"], Some("/t/zeta-1")),
        artifact("alpha", &["bench"], Some("/t/alpha-1")),
        artifact("tool", &["bin"], Some("/t/tool")),
        artifact("mylib", &["lib"], None),
        CargoMessage::CompilerMessage,
        CargoMessage::BuildScriptExecuted {
            linked_paths: strings(&["native=/usr/lib/foo", "dependency=/deps", "/plain"]),
        },
        artifact("alpha", &["test"], Some("/t/alpha-2")),
        artifact("mylib", &["lib", "rlib"], Some("/t/mylib")),
        CargoMessage::BuildFinished,
    ];
    let compiled = collect_benchmarks(&messages);
    let pairs: Vec<(String, String)> =
        compiled.targets.iter().map(|t| (t.name.clone(), t.executable.clone())).collect();
    assert_eq!(
        pairs,
        vec![
            ("alpha".to_string(), "/t/alpha-1".to_string()),
            ("alpha".to_string(), "/t/alpha-2".to_string()),
            ("mylib".to_string(), "/t/mylib".to_string()),
            ("zeta".to_string(), "/t/zeta-1".to_string()),
        ]
    );
    assert_eq!(compiled.library_paths, strings(&["/usr/lib/foo", "/deps", "/plain"]));
}

#[test]
fn no_messages_no_benchmarks() {
    let compiled = collect_benchmarks(&vec![]);
    assert!(compiled.targets.is_empty());
    assert!(compiled.library_paths.is_empty());
}

#[test]
fn link_kinds_are_stripped() {
    assert_eq!(strip_link_prefixes("framework=/Library/Frameworks"), "/Library/Frameworks");
    assert_eq!(strip_link_prefixes("crate=/a"), "/a");
    assert_eq!(strip_link_prefixes("all=/b"), "/b");
    assert_eq!(strip_link_prefixes("/c"), "/c");
}

#[test]
fn library_path_variables() {
    assert_eq!(dylib_path_envvar(Platform::Windows), "PATH");
    assert_eq!(dylib_path_envvar(Platform::MacOs), "DYLD_FALLBACK_LIBRARY_PATH");
    assert_eq!(dylib_path_envvar(Platform::Other), "LD_LIBRARY_PATH");
}

#[test]
fn library_search_path() {
    let linked = strings(&["/build/out"]);
    let p = dylib_search_path(strings(&["/opt/lib"]), &linked, Platform::Other, Some("/home/u".to_string()));
    assert_eq!(p, strings(&["/opt/lib", "/build/out"]));

    let p = dylib_search_path(vec![], &linked, Platform::MacOs, Some("/home/u".to_string()));
    assert_eq!(p, strings(&["/build/out", "/home/u/lib", "/usr/local/lib", "/usr/lib"]));

    let p = dylib_search_path(vec![], &linked, Platform::MacOs, None);
    assert_eq!(p, strings(&["/build/out", "/usr/local/lib", "/usr/lib"]));

    let p = dylib_search_path(strings(&["/x"]), &linked, Platform::MacOs, Some("/home/u".to_string()));
    assert_eq!(p, strings(&["/x", "/build/out"]));
}

#[test]
fn separator_follows_a_group_that_ran() {
    let mut s = TargetSession::new();
    assert_eq!(s.on_message(MessageKind::BeginningBenchmarkGroup), TargetAction::CheckGroup);
    assert_eq!(s.on_message(MessageKind::SkippingBenchmark), TargetAction::RecordSkipped);
    assert_eq!(
        s.on_message(MessageKind::FinishedBenchmarkGroup),
        TargetAction::SummarizeGroup { separator: false }
    );
    assert_eq!(s.on_message(MessageKind::BeginningBenchmarkGroup), TargetAction::CheckGroup);
    assert_eq!(s.on_message(MessageKind::BeginningBenchmark), TargetAction::RunBenchmark);
    assert_eq!(
        s.on_message(MessageKind::FinishedBenchmarkGroup),
        TargetAction::SummarizeGroup { separator: true }
    );
    assert_eq!(s.on_message(MessageKind::BeginningBenchmarkGroup), TargetAction::CheckGroup);
    assert!(!s.any_from_group_executed);
}

#[test]
fn process_status_decides() {
    assert_eq!(after_message(ChildStatus::Running, true), Next::Continue);
    assert_eq!(after_message(ChildStatus::Running, false), Next::AwaitExit);
    assert_eq!(after_message(ChildStatus::Exited { success: true, code: Some(0) }, false), Next::Finished);
    assert_eq!(after_close(ChildStatus::Running), Next::AwaitExit);
    assert_eq!(after_close(ChildStatus::Exited { success: true, code: Some(0) }), Next::Finished);
    assert_eq!(after_close(ChildStatus::Exited { success: false, code: Some(3) }), Next::Failed { code: Some(3) });
    assert_eq!(after_close(ChildStatus::PollFailed), Next::PollError);
    assert_eq!(after_message(ChildStatus::Exited { success: true, code: Some(0) }, true), Next::Finished);
    assert_eq!(
        after_message(ChildStatus::Exited { success: false, code: Some(101) }, true),
        Next::Failed { code: Some(101) }
    );
    assert_eq!(after_message(ChildStatus::PollFailed, true), Next::PollError);
    assert_eq!(while_waiting(ChildStatus::Running), Next::Continue);
    assert_eq!(while_waiting(ChildStatus::Exited { success: true, code: Some(0) }), Next::Finished);
    assert_eq!(
        while_waiting(ChildStatus::Exited { success: false, code: None }),
        Next::Failed { code: None }
    );
    assert_eq!(while_waiting(ChildStatus::PollFailed), Next::PollError);
}

#[test]
fn steps_of_a_benchmark() {
    assert_eq!(benchmark_step(MessageKind::Warmup), BenchmarkAction::ReportWarmup);
    assert_eq!(benchmark_step(MessageKind::MeasurementStart), BenchmarkAction::ReportMeasurementStart);
    assert_eq!(benchmark_step(MessageKind::MeasurementComplete), BenchmarkAction::Analyze);
}
