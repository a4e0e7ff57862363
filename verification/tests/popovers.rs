use queries::popover::{MappingSelection, NavButtons};

fn sel(lists: Vec<Vec<usize>>, plot: usize, curr: Option<usize>) -> MappingSelection {
    MappingSelection { plot_ix: plot, valid_ix: lists, curr_ix: curr }
}

#[test]
fn a_new_selection_is_empty() {
    let s = MappingSelection::new();
    assert_eq!(s.plot_ix, 0);
    assert_eq!(s.valid_ix, vec![Vec::<usize>::new(); 4]);
    assert_eq!(s.curr_ix, None);
    assert_eq!(s.update_nav_sensitive(), Some(NavButtons { table: false, forward: false, backward: false }));
    assert_eq!(s.update_stack(1), Some(0));
}

#[test]
fn navigation_buttons_follow_the_position() {
    assert_eq!(sel(vec![vec![3]], 0, Some(0)).update_nav_sensitive(), Some(NavButtons { table: true, forward: false, backward: false }));
    let l = vec![vec![1, 2, 3]];
    assert_eq!(sel(l.clone(), 0, Some(0)).update_nav_sensitive(), Some(NavButtons { table: true, forward: true, backward: false }));
    assert_eq!(sel(l.clone(), 0, Some(1)).update_nav_sensitive(), Some(NavButtons { table: true, forward: true, backward: true }));
    assert_eq!(sel(l.clone(), 0, Some(2)).update_nav_sensitive(), Some(NavButtons { table: true, forward: false, backward: true }));
    assert_eq!(sel(l, 0, None).update_nav_sensitive(), None);
}

#[test]
fn navigation_moves_through_the_plot_mappings() {
    let mut s = sel(vec![vec![], vec![4, 7, 9]], 1, Some(0));
    assert_eq!(s.navigate(true), Some(8));
    assert_eq!(s.curr_ix, Some(1));
    assert_eq!(s.navigate(true), Some(10));
    assert_eq!(s.navigate(false), Some(8));
    assert_eq!(s.curr_ix, Some(1));
    let mut t = sel(vec![vec![1]], 0, None);
    assert_eq!(t.navigate(true), None);
    assert_eq!(t.curr_ix, None);
}

#[test]
fn mappings_are_added_moved_and_removed() {
    let mut s = MappingSelection::new();
    s.add_mapping(1, 0);
    s.add_mapping(1, 1);
    s.add_mapping(2, 2);
    assert_eq!(s.valid_ix, vec![vec![], vec![0, 1], vec![2], vec![]]);
    assert_eq!(s.plot_ix, 2);
    assert_eq!(s.curr_ix, Some(0));
    assert!(s.replace_mapping(1, 0, 3));
    assert_eq!(s.valid_ix, vec![vec![], vec![1], vec![2], vec![0]]);
    assert!(!s.replace_mapping(0, 5, 1));
    s.add_mapping(1, 3);
    s.remove_mapping_at_ix(1);
    assert_eq!(s.valid_ix, vec![vec![], vec![2], vec![2], vec![0]]);
    assert_eq!(s.curr_ix, Some(0));
    s.remove_mapping_at_ix(0);
    assert_eq!(s.valid_ix, vec![vec![], vec![2], vec![2], vec![]]);
    assert_eq!(s.plot_ix, 0);
    assert_eq!(s.curr_ix, None);
    s.clear();
    assert_eq!(s.valid_ix, vec![Vec::<usize>::new(); 4]);
}

#[test]
fn active_mapping_and_stack_page() {
    let mut s = sel(vec![vec![5, 6]], 0, None);
    assert_eq!(s.set_active_mapping(0, Some(1)), Some(6));
    assert_eq!(s.curr_ix, Some(1));
    assert_eq!(s.update_stack(3), Some(2));
    assert_eq!(s.update_stack(2), None);
    assert_eq!(s.update_stack(1), Some(0));
    assert_eq!(s.set_active_mapping(0, Some(9)), None);
}
