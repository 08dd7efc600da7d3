use file_host::ui::App;

fn numbered(n: usize) -> Vec<String> {
    let mut v = Vec::new();
    for i in 0..n {
        v.push(format!("file_{i}.txt"));
    }
    v
}

#[test]
fn plain_click_selects_single_row() {
    let mut app = App::new(numbered(10));
    app.label_click(5, false);
    assert_eq!(app.selected_indices(), &vec![5]);
    app.label_click(7, false);
    assert_eq!(app.selected_indices(), &vec![7]);
}

#[test]
fn shift_click_scenario_end_to_end() {
    let mut app = App::new(numbered(10));
    app.label_click(5, false);
    assert_eq!(app.selected_indices(), &vec![5]);
    app.label_click(2, true);
    assert_eq!(app.selected_indices(), &vec![2, 3, 4, 5]);
    app.label_click(8, true);
    assert_eq!(app.selected_indices(), &vec![2, 3, 4, 5, 6, 7, 8]);
}

#[test]
fn shift_extend_below_minimum() {
    let mut app = App::new(numbered(10));
    app.label_click(5, false);
    app.shift_selected(2);
    assert_eq!(app.selected_indices(), &vec![2, 3, 4, 5]);
}

#[test]
fn shift_extend_above_maximum() {
    let mut app = App::new(numbered(10));
    app.label_click(3, false);
    app.shift_selected(6);
    assert_eq!(app.selected_indices(), &vec![3, 4, 5, 6]);
}

#[test]
fn shift_inside_bounds_fills_gaps() {
    let mut app = App::new(numbered(10));
    app.label_click(2, false);
    app.checkbox_click(8, false);
    assert_eq!(app.selected_indices(), &vec![2, 8]);
    app.label_click(5, true);
    assert_eq!(app.selected_indices(), &vec![2, 3, 4, 5, 6, 7, 8]);
}

#[test]
fn shift_click_on_empty_selection_is_noop() {
    let mut app = App::new(numbered(10));
    app.label_click(4, true);
    assert!(app.selection_is_empty());
    assert_eq!(app.selected_indices(), &Vec::<usize>::new());
}

#[test]
fn checkbox_toggles_membership() {
    let mut app = App::new(numbered(10));
    app.checkbox_click(3, false);
    assert!(app.is_selected(3));
    assert_eq!(app.selected_indices(), &vec![3]);
    app.checkbox_click(3, false);
    assert!(!app.is_selected(3));
    assert!(app.selection_is_empty());
}

#[test]
fn checkbox_shift_click_leaves_dense_range() {
    let mut app = App::new(numbered(10));
    app.checkbox_click(5, false);
    app.checkbox_click(9, false);
    assert_eq!(app.selected_indices(), &vec![5, 9]);
    app.checkbox_click(2, true);
    assert_eq!(app.selected_indices(), &vec![2, 3, 4, 5, 6, 7, 8, 9]);
}

#[test]
fn clear_selection_empties_the_set() {
    let mut app = App::new(numbered(10));
    app.label_click(1, false);
    app.label_click(6, true);
    assert!(!app.selection_is_empty());
    app.clear_selection();
    assert!(app.selection_is_empty());
    assert_eq!(app.selected_indices(), &Vec::<usize>::new());
}
