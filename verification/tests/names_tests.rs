use file_host::names::{make_file_list, make_file_name};
use file_host::ui::App;

#[test]
fn synthesized_names_render_decimals() {
    assert_eq!(make_file_name(0), "file_0.txt");
    assert_eq!(make_file_name(7), "file_7.txt");
    assert_eq!(make_file_name(10), "file_10.txt");
    assert_eq!(make_file_name(99), "file_99.txt");
    assert_eq!(make_file_name(907), "file_907.txt");
}

#[test]
fn placeholder_list_has_numbered_names() {
    let list = make_file_list(100);
    assert_eq!(list.len(), 100);
    assert_eq!(list[0], "file_0.txt");
    assert_eq!(list[42], "file_42.txt");
    assert_eq!(list[99], "file_99.txt");
}

#[test]
fn default_table_is_fresh() {
    let app = App::default();
    assert_eq!(app.file_count(), 100);
    assert_eq!(app.file_name(0).as_str(), "file_0.txt");
    assert_eq!(app.file_name(99).as_str(), "file_99.txt");
    assert!(app.selection_is_empty());
    assert_eq!(app.query_text().as_str(), "");
    assert_eq!(app.filter_indices(), &Vec::<usize>::new());
}
