use file_host::text::{name_matches, to_lower};
use file_host::ui::App;

#[test]
fn query_matches_case_insensitively() {
    // "B.txt" holds no 'a' in any case, so it stays outside the filter
    let files = vec![
        String::from("a.txt"),
        String::from("B.txt"),
        String::from("abc.txt"),
    ];
    let mut app = App::new(files);
    app.set_query(String::from("a"));
    assert_eq!(app.filter_indices(), &vec![0, 2]);
    app.set_query(String::new());
    assert_eq!(app.filter_indices(), &Vec::<usize>::new());

    let files = vec![
        String::from("a.txt"),
        String::from("A.txt"),
        String::from("abc.txt"),
    ];
    let mut app = App::new(files);
    app.set_query(String::from("a"));
    assert_eq!(app.filter_indices(), &vec![0, 1, 2]);
    app.set_query(String::from("A"));
    assert_eq!(app.filter_indices(), &vec![0, 1, 2]);
    app.set_query(String::new());
    assert_eq!(app.filter_indices(), &Vec::<usize>::new());
}

#[test]
fn query_is_lowercased_both_ways() {
    let files = vec![String::from("HELLO.TXT"), String::from("world.txt")];
    let mut app = App::new(files);
    app.set_query(String::from("hello"));
    assert_eq!(app.filter_indices(), &vec![0]);
    app.set_query(String::from("WORLD"));
    assert_eq!(app.filter_indices(), &vec![1]);
    app.set_query(String::from("TXT"));
    assert_eq!(app.filter_indices(), &vec![0, 1]);
}

#[test]
fn unmatched_query_gives_empty_filter() {
    let files = vec![String::from("a.txt"), String::from("b.txt")];
    let mut app = App::new(files);
    app.set_query(String::from("zzz"));
    assert_eq!(app.filter_indices(), &Vec::<usize>::new());
}

#[test]
fn recompute_with_same_query_is_idempotent() {
    let files = vec![String::from("alpha"), String::from("beta"), String::from("gamma")];
    let mut app = App::new(files);
    app.set_query(String::from("a"));
    let first = app.filter_indices().clone();
    app.set_query(String::from("a"));
    let second = app.filter_indices().clone();
    assert_eq!(first, second);
    assert_eq!(first, vec![0, 1, 2]);
}

#[test]
fn clear_query_empties_filter() {
    let files = vec![String::from("a.txt")];
    let mut app = App::new(files);
    app.set_query(String::from("a"));
    assert!(app.filter_active());
    app.clear_query();
    assert!(!app.filter_active());
    assert_eq!(app.query_text().as_str(), "");
    assert_eq!(app.filter_indices(), &Vec::<usize>::new());
}

#[test]
fn substring_match_anywhere_in_name() {
    let files = vec![String::from("report_2024.pdf"), String::from("notes.txt")];
    let mut app = App::new(files);
    app.set_query(String::from("2024"));
    assert_eq!(app.filter_indices(), &vec![0]);
    app.set_query(String::from("ote"));
    assert_eq!(app.filter_indices(), &vec![1]);
}

#[test]
fn name_matcher_direct_cases() {
    assert!(name_matches("aBc", "bC"));
    assert!(!name_matches("abc", "d"));
    assert!(name_matches("x", ""));
    assert!(!name_matches("", "x"));
    assert!(name_matches("", ""));
}

#[test]
fn lowercase_single_characters() {
    assert_eq!(to_lower('A'), 'a');
    assert_eq!(to_lower('Z'), 'z');
    assert_eq!(to_lower('m'), 'm');
    assert_eq!(to_lower('5'), '5');
    assert_eq!(to_lower('_'), '_');
}
