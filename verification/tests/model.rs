use cargo_criterion::model::{
    history_order, is_benchmark_record, is_measurement_file, measurement_file_name, BenchmarkRecord, Model,
    SavedBenchmarkId,
};
use cargo_criterion::report::BenchmarkId;

fn id(group: &str, function: Option<&str>, value: Option<&str>) -> BenchmarkId {
    BenchmarkId::new(group.to_string(), function.map(|s| s.to_string()), value.map(|s| s.to_string()), None)
}

fn group_names(model: &Model) -> Vec<String> {
    model.groups().keys().cloned().collect()
}

fn titles_in(model: &Model, group: &str) -> Vec<String> {
    model.groups().get(group).unwrap().benchmarks.keys().map(|k| k.as_title().to_string()).collect()
}

#[test]
fn data_directory_is_under_the_timeline() {
    let model = Model::new("target/criterion", "main", Some("abc".to_string()), None);
    assert_eq!(model.data_directory(), "target/criterion/data/main");
    assert_eq!(model.benchmark_directory(&id("g", Some("f"), None)), "target/criterion/data/main/g/f");
    assert_eq!(model.history_id(), &Some("abc".to_string()));
    assert_eq!(model.history_description(), &None);
}

#[test]
fn completed_run_becomes_latest_sample() {
    let mut model = Model::new("target/criterion", "main", None, None);
    let i = id("g", Some("f"), None);
    model.load_stored_benchmark(i.clone(), 7);
    assert_eq!(model.get_last_sample(&i), Some(7));
    model.benchmark_complete(&i, 8);
    assert_eq!(model.get_last_sample(&i), Some(8));
    let b = model.groups().get("g").unwrap().benchmarks.get(&i).unwrap();
    assert_eq!(b.previous_stats, Some(7));
    assert_eq!(model.get_last_sample(&id("g", Some("other"), None)), None);
    assert_eq!(model.get_last_sample(&id("h", Some("f"), None)), None);
}

#[test]
fn completed_run_of_new_benchmark_goes_last() {
    let mut model = Model::new("home", "t", None, None);
    let mut a = id("g", Some("a"), None);
    let mut b = id("g", Some("b"), None);
    model.add_benchmark_id("bench", &mut a);
    model.add_benchmark_id("bench", &mut b);
    model.benchmark_complete(&b, 1);
    model.benchmark_complete(&a, 2);
    assert_eq!(titles_in(&model, "g"), vec!["g/b".to_string(), "g/a".to_string()]);
    let stored = model.groups().get("g").unwrap().benchmarks.get(&a).unwrap();
    assert_eq!(stored.latest_stats, 2);
    assert_eq!(stored.previous_stats, None);
}

#[test]
fn repeated_ids_get_unique_titles_and_directories() {
    let mut model = Model::new("home", "t", None, None);
    let mut first = id("g", Some("f"), None);
    let mut second = id("g", Some("f"), None);
    let mut third = id("g", Some("f"), None);
    assert_eq!(model.add_benchmark_id("bench", &mut first), None);
    assert_eq!(model.add_benchmark_id("bench", &mut second), None);
    assert_eq!(model.add_benchmark_id("bench", &mut third), None);
    assert_eq!(first.as_title(), "g/f");
    assert_eq!(first.as_directory_name(), "g/f");
    assert_eq!(second.as_title(), "g/f #2");
    assert_eq!(second.as_directory_name(), "g/f_2");
    assert_eq!(third.as_title(), "g/f #3");
    assert_eq!(third.as_directory_name(), "g/f_3");
}

#[test]
fn known_benchmark_takes_the_target_and_moves_last() {
    let mut model = Model::new("home", "t", None, None);
    model.load_stored_benchmark(id("g", Some("a"), None), 1);
    model.load_stored_benchmark(id("g", Some("b"), None), 2);
    let mut a = id("g", Some("a"), None);
    assert_eq!(model.add_benchmark_id("bench", &mut a), None);
    assert_eq!(titles_in(&model, "g"), vec!["g/b".to_string(), "g/a".to_string()]);
    let stored = model.groups().get("g").unwrap().benchmarks.get(&a).unwrap();
    assert_eq!(stored.target, Some("bench".to_string()));
    assert_eq!(stored.latest_stats, 1);
}

#[test]
fn stored_benchmarks_are_grouped_in_order() {
    let mut model = Model::new("home", "t", None, None);
    model.load_stored_benchmark(id("x", Some("1"), None), 1);
    model.load_stored_benchmark(id("y", Some("1"), None), 2);
    model.load_stored_benchmark(id("x", Some("2"), None), 3);
    model.load_stored_benchmark(id("x", Some("1"), None), 4);
    assert_eq!(group_names(&model), vec!["x".to_string(), "y".to_string()]);
    assert_eq!(titles_in(&model, "x"), vec!["x/2".to_string(), "x/1".to_string()]);
    assert_eq!(model.get_last_sample(&id("x", Some("1"), None)), Some(4));
}

#[test]
fn groups_move_last_when_finished() {
    let mut model = Model::new("home", "t", None, None);
    model.add_benchmark_group("t1", "a");
    model.add_benchmark_group("t1", "b");
    let g = model.add_benchmark_group("t2", "a");
    assert_eq!(g.target, Some("t2".to_string()));
    assert_eq!(group_names(&model), vec!["b".to_string(), "a".to_string()]);
}

#[test]
fn group_seen_in_another_target_is_reported() {
    let mut model = Model::new("home", "t", None, None);
    assert_eq!(model.check_benchmark_group("t1", "g"), None);
    model.add_benchmark_group("t1", "g");
    assert_eq!(model.check_benchmark_group("t1", "g"), None);
    assert_eq!(model.check_benchmark_group("t2", "g"), Some("t1".to_string()));
}

#[test]
fn measurement_files() {
    assert!(is_measurement_file("measurement_200101010101.cbor"));
    assert!(!is_measurement_file("benchmark.cbor"));
    assert!(!is_measurement_file("measurement_200101010101.json"));
    assert!(is_benchmark_record("benchmark.cbor"));
    assert!(!is_benchmark_record("benchmark.json"));
    assert_eq!(measurement_file_name(21, 3, 4, 5, 6, 7), "measurement_210304050607.cbor");
    assert_eq!(measurement_file_name(99, 12, 31, 23, 59, 58), "measurement_991231235958.cbor");
}

#[test]
fn saved_ids_read_back() {
    let given = id("g/h", Some("f"), Some("1"));
    let saved = SavedBenchmarkId::from_id(&given);
    assert_eq!(saved.group_id, "g/h");
    assert_eq!(saved.function_id, Some("f".to_string()));
    let back = saved.into_id();
    assert_eq!(back, given);
    assert_eq!(back.as_directory_name(), "g_h/f/1");
    let record = BenchmarkRecord::new(&given, "measurement_210304050607.cbor".to_string());
    assert_eq!(record.latest_record, "measurement_210304050607.cbor");
    assert_eq!(record.id.value_str, Some("1".to_string()));
}

#[test]
fn history_runs_in_date_order() {
    assert_eq!(history_order(&vec![30, 10, 20, 10]), vec![1, 3, 2, 0]);
    assert_eq!(history_order(&vec![]), Vec::<usize>::new());
    assert_eq!(history_order(&vec![5, 5, 5]), vec![0, 1, 2]);
    assert_eq!(history_order(&vec![-1, i64::MAX, i64::MIN]), vec![2, 0, 1]);
}
