use uffs::fixture::UffsTempDir;
use uffs::fixture::join_path;
use uffs::fixture::random_temp_name;
use uffs::fixture::temp_file_name;
use uffs::fixture::temp_file_paths;
use uffs::frontier::PathFrontier;
use uffs::frontier::ResultSet;
use uffs::frontier::TraversalState;
use uffs::utils::generate_fibonacci;
use uffs::utils::measure_time_normal;
use uffs::utils::measure_time_normal_bench;

#[test]
fn frontier_is_last_in_first_out() {
    let mut f = PathFrontier::new();
    assert_eq!(f.pop(), None);
    f.push(String::from("a"));
    f.push(String::from("b"));
    assert_eq!(f.len(), 2);
    assert_eq!(f.pop(), Some(String::from("b")));
    assert_eq!(f.pop(), Some(String::from("a")));
    assert_eq!(f.pop(), None);
}

#[test]
fn result_set_accumulates() {
    let mut r = ResultSet::new();
    r.record_file(String::from("f1"));
    r.record_dir(String::from("d1"));
    r.record_file(String::from("f2"));
    assert_eq!(r.num_files(), 2);
    assert_eq!(r.num_dirs(), 1);
    let (files, dirs) = r.into_parts();
    assert_eq!(files, vec![String::from("f1"), String::from("f2")]);
    assert_eq!(dirs, vec![String::from("d1")]);
}

#[test]
fn traversal_state_merges_expansions() {
    let mut st = TraversalState::seeded(String::from("C:\\"));
    let root = st.frontier.pop().unwrap();
    assert_eq!(root, "C:\\");
    let new_files = vec![String::from("C:\\a.txt")];
    let new_dirs = vec![String::from("C:\\sub")];
    st.merge_expansion(&new_files, &new_dirs);
    assert_eq!(st.results.num_files(), 1);
    assert_eq!(st.results.num_dirs(), 1);
    // The discovered subdirectory is pending its own expansion.
    assert_eq!(st.frontier.pop(), Some(String::from("C:\\sub")));
    assert_eq!(st.frontier.pop(), None);
}

#[test]
fn merge_order_changes_nothing_but_order() {
    let files_a = vec![String::from("a1"), String::from("a2")];
    let dirs_a = vec![String::from("da")];
    let files_b = vec![String::from("b1")];
    let dirs_b = vec![String::from("db")];

    let mut first = TraversalState::seeded(String::from("R"));
    first.frontier.pop();
    first.merge_expansion(&files_a, &dirs_a);
    first.merge_expansion(&files_b, &dirs_b);

    let mut second = TraversalState::seeded(String::from("R"));
    second.frontier.pop();
    second.merge_expansion(&files_b, &dirs_b);
    second.merge_expansion(&files_a, &dirs_a);

    let (mut f1, mut d1) = first.results.into_parts();
    let (mut f2, mut d2) = second.results.into_parts();
    f1.sort();
    f2.sort();
    d1.sort();
    d2.sort();
    assert_eq!(f1, f2);
    assert_eq!(d1, d2);
}

#[test]
fn fibonacci_prefix() {
    assert_eq!(generate_fibonacci(6), vec![1, 1, 2, 3, 5, 8]);
    assert_eq!(generate_fibonacci(0), vec![1, 1]);
    assert_eq!(generate_fibonacci(2), vec![1, 1]);
    let long = generate_fibonacci(90);
    assert_eq!(long.len(), 90);
    assert_eq!(long[10], 89);
}

#[test]
fn measuring_returns_the_result() {
    let (value, _ns) = measure_time_normal(|| 21 * 2);
    assert_eq!(value, 42);
    let _ns2 = measure_time_normal_bench(|| 1 + 1);
}

#[test]
fn fixture_names() {
    assert_eq!(temp_file_name(3), "file_3.txt");
    assert_eq!(temp_file_name(0), "file_0.txt");
    assert_eq!(join_path("D:\\base", "x"), "D:\\base\\x");
    let paths = temp_file_paths("T:", 3);
    assert_eq!(paths, vec!["T:\\file_0.txt", "T:\\file_1.txt", "T:\\file_2.txt"]);
}

#[test]
fn random_names_are_alphanumeric() {
    let n = random_temp_name(10);
    assert_eq!(n.chars().count(), 10);
    assert!(n.chars().all(|c| c.is_ascii_alphanumeric()));
    let other = random_temp_name(10);
    assert_eq!(other.chars().count(), 10);
}

#[test]
fn temp_dir_records_its_path() {
    let t = UffsTempDir::new_in("D:\\scratch", "abc123");
    assert_eq!(t.path().as_str(), "D:\\scratch\\abc123");
}
