use queries::columns::ColumnNames;
use queries::file_list::{mark_saved, mark_unsaved, query_page_name, query_stack_name, FileList, SqlFile};
use queries::group_toolbar::GroupSelection;
use queries::mapping::MappingType;
use queries::property_map::PropertyMap;
use queries::toolbar::{
    check_mapped, config_toggles_sensitive, on_mapping_toggled, parse_index, set_toggled_mappings, update_mapping_status,
    DataSource, MappingButtons, SelectedMapping, SelectionStatus, ToggleResponse,
};

fn source(tbl: usize, cols: Vec<usize>, ty: &str, plot: usize, name: &str) -> DataSource {
    DataSource {
        tbl_pos: Some(tbl),
        ixs: cols.clone(),
        tbl_ixs: cols,
        col_names: Vec::new(),
        query: String::new(),
        ty: ty.to_string(),
        plot_ix: plot,
        name: name.to_string(),
    }
}

fn mapped(ty: &str, pl: usize, global: usize, local: usize) -> SelectedMapping {
    SelectedMapping { ty: ty.to_string(), pl_ix: pl, global_ix: global, local_ix: local }
}

fn names(v: &[&str]) -> Vec<String> {
    v.iter().map(|s| s.to_string()).collect()
}

#[test]
fn indices_read_as_usize_reads_them() {
    assert_eq!(parse_index("0"), Some(0));
    assert_eq!(parse_index("+12"), Some(12));
    assert_eq!(parse_index("007"), Some(7));
    assert_eq!(parse_index(""), None);
    assert_eq!(parse_index("+"), None);
    assert_eq!(parse_index("-1"), None);
    assert_eq!(parse_index("1a"), None);
    assert_eq!(parse_index("99999999999999999999999"), None);
}

#[test]
fn mappings_on_the_selected_columns() {
    let sources = vec![
        source(0, vec![1, 2], "line", 0, "0"),
        source(0, vec![1, 2], "scatter", 1, "3"),
        source(1, vec![1, 2], "line", 0, "1"),
        source(0, vec![1], "bar", 0, "2"),
    ];
    let all = check_mapped(&[1, 2], 0, &sources, None);
    assert_eq!(all.len(), 2);
    assert_eq!((all[0].ty.as_str(), all[0].pl_ix, all[0].global_ix, all[0].local_ix), ("line", 0, 0, 0));
    assert_eq!((all[1].ty.as_str(), all[1].pl_ix, all[1].global_ix, all[1].local_ix), ("scatter", 1, 1, 3));
    let lines = check_mapped(&[1, 2], 0, &sources, Some("line"));
    assert_eq!(lines.len(), 1);
    assert!(check_mapped(&[2, 1], 0, &sources, None).is_empty());
    assert_eq!(check_mapped(&[1], 0, &sources, Some("bar"))[0].global_ix, 3);
}

#[test]
fn toggles_follow_the_number_of_columns() {
    let all = names(&["bar", "line", "scatter", "text", "area", "surface"]);
    assert_eq!(config_toggles_sensitive(&all, 1), vec![true, false, false, false, false, false]);
    assert_eq!(config_toggles_sensitive(&all, 2), vec![false, true, true, false, false, false]);
    assert_eq!(config_toggles_sensitive(&all, 3), vec![false, false, false, true, true, true]);
    assert_eq!(config_toggles_sensitive(&all, 4), vec![false; 6]);
    assert_eq!(set_toggled_mappings(&all, &names(&["line", "area"])), vec![false, true, false, false, true, false]);
}

fn fresh() -> (MappingButtons, GroupSelection, SelectionStatus, String) {
    let mut g = GroupSelection::new();
    g.set_active(2, 0);
    (MappingButtons { add: false, edit: false, remove: false }, g, SelectionStatus::Nothing, String::new())
}

#[test]
fn pressing_a_free_type_offers_to_add_it() {
    let (mut b, mut g, mut sel, mut name) = fresh();
    g.set_sensitive(false);
    let r = on_mapping_toggled(&mut b, &mut g, &mut sel, &mut name, "line", true, &names(&["line"]), 2, &vec![], &vec![]);
    assert_eq!(r, ToggleResponse { refresh_toggles: true, focus: None });
    assert_eq!(b, MappingButtons { add: true, edit: false, remove: false });
    assert!(matches!(sel, SelectionStatus::New(0, ref t) if t == "line"));
    assert_eq!(name, "line");
    assert!(g.get_sensitive());
}

#[test]
fn pressing_the_mapped_type_selects_its_mapping() {
    let (mut b, mut g, mut sel, mut name) = fresh();
    let this = vec![mapped("line", 1, 4, 0)];
    let r = on_mapping_toggled(&mut b, &mut g, &mut sel, &mut name, "line", true, &names(&["line"]), 2, &this, &this);
    assert_eq!(r, ToggleResponse { refresh_toggles: true, focus: Some(1) });
    assert_eq!(b, MappingButtons { add: false, edit: true, remove: true });
    assert!(matches!(sel, SelectionStatus::Single(ref m) if m.global_ix == 4));
    assert_eq!(g.get_active_area(), Some(1));
    assert!(!g.get_sensitive());
}

#[test]
fn several_mappings_or_no_columns_select_nothing() {
    let (mut b, mut g, mut sel, mut name) = fresh();
    let two = vec![mapped("line", 0, 0, 0), mapped("line", 1, 1, 0)];
    on_mapping_toggled(&mut b, &mut g, &mut sel, &mut name, "line", true, &names(&["line"]), 2, &two, &two);
    assert!(matches!(sel, SelectionStatus::Multiple(ref v) if v.len() == 2));
    assert_eq!(b, MappingButtons { add: false, edit: false, remove: false });
    assert_eq!(g.get_active_area(), None);
    let (mut b, mut g, mut sel, mut name) = fresh();
    let one = vec![mapped("bar", 0, 0, 0)];
    on_mapping_toggled(&mut b, &mut g, &mut sel, &mut name, "bar", true, &names(&["bar"]), 0, &one, &one);
    assert!(matches!(sel, SelectionStatus::Nothing));
    assert_eq!(g.get_active_area(), None);
}

#[test]
fn two_pressed_toggles_disable_everything() {
    let (mut b, mut g, mut sel, mut name) = fresh();
    b = MappingButtons { add: true, edit: true, remove: true };
    let r = on_mapping_toggled(&mut b, &mut g, &mut sel, &mut name, "line", true, &names(&["line", "scatter"]), 2, &vec![], &vec![]);
    assert_eq!(r, ToggleResponse { refresh_toggles: false, focus: None });
    assert_eq!(b, MappingButtons { add: false, edit: false, remove: false });
    assert_eq!(name, "");
}

#[test]
fn releasing_toggles() {
    let (mut b, mut g, mut sel, mut name) = fresh();
    let every = vec![
        mapped("bar", 0, 0, 0), mapped("line", 0, 1, 1), mapped("scatter", 0, 2, 2),
        mapped("text", 0, 3, 3), mapped("area", 0, 4, 4), mapped("surface", 0, 5, 5),
    ];
    on_mapping_toggled(&mut b, &mut g, &mut sel, &mut name, "line", false, &vec![], 2, &vec![], &every);
    assert!(!g.get_sensitive());
    on_mapping_toggled(&mut b, &mut g, &mut sel, &mut name, "line", false, &vec![], 2, &vec![], &every[..5].to_vec());
    assert!(g.get_sensitive());
    let r = on_mapping_toggled(&mut b, &mut g, &mut sel, &mut name, "line", false, &names(&["scatter"]), 2, &vec![], &every);
    assert_eq!(r.focus, Some(0));
    assert_eq!(name, "scatter");
    assert!(matches!(sel, SelectionStatus::Single(ref m) if m.ty == "scatter"));
    let (mut b, mut g, mut sel, mut name) = fresh();
    on_mapping_toggled(&mut b, &mut g, &mut sel, &mut name, "line", false, &names(&["bar"]), 2, &vec![], &vec![mapped("line", 0, 0, 0)]);
    assert_eq!(b, MappingButtons { add: true, edit: false, remove: false });
    on_mapping_toggled(&mut b, &mut g, &mut sel, &mut name, "line", false, &names(&["bar"]), 2, &vec![], &vec![]);
    assert_eq!(b, MappingButtons { add: false, edit: false, remove: false });
}

#[test]
fn mapping_status_follows_the_selection() {
    let (mut b, mut g, _, _) = fresh();
    let types = update_mapping_status(&mut b, &mut g, &vec![mapped("line", 1, 0, 0)]);
    assert_eq!(types, names(&["line"]));
    assert!(b.edit && b.remove);
    assert_eq!(g.get_active_area(), Some(1));
    let types = update_mapping_status(&mut b, &mut g, &vec![mapped("line", 0, 0, 0), mapped("bar", 1, 1, 0)]);
    assert_eq!(types, names(&["line", "bar"]));
    assert!(!b.edit && !b.remove);
    assert_eq!(g.get_active_area(), Some(1));
    let types = update_mapping_status(&mut b, &mut g, &vec![]);
    assert!(types.is_empty());
    assert_eq!(g.get_active_area(), Some(0));
}

#[test]
fn file_list_numbers_untitled_files() {
    let mut l = FileList::build();
    assert_eq!(l.get_n_untitled(), 1);
    assert_eq!(l.add_fresh_source(), "Untitled 2");
    l.add_disk_file(String::from("/q/a.sql"), "q/a.sql");
    assert_eq!(l.get_n_untitled(), 2);
    assert_eq!(l.add_fresh_source(), "Untitled 3");
    assert_eq!(l.files.len(), 4);
    let mut odd = FileList { files: vec![SqlFile { name: String::from("Untitled x"), path: None, saved: true }] };
    assert_eq!(odd.get_n_untitled(), 0);
    assert_eq!(odd.add_fresh_source(), "Untitled 1");
    let empty = FileList { files: vec![] };
    assert_eq!(empty.get_n_untitled(), 0);
}

#[test]
fn file_list_paths_and_removal() {
    let mut l = FileList::build();
    l.add_disk_file(String::from("/q/a.sql"), "q/a.sql");
    assert_eq!(l.current_selected_path(Some(1)), Some(String::from("/q/a.sql")));
    assert_eq!(l.current_selected_path(Some(0)), None);
    assert_eq!(l.current_selected_path(Some(5)), None);
    assert_eq!(l.current_selected_path(None), None);
    assert!(l.set_current_selected_path(Some(0), "q/b.sql", String::from("/q/b.sql"), "Untitled 1"));
    assert_eq!(l.files[0].name, "q/b.sql");
    assert!(!l.set_current_selected_path(Some(1), "q/c.sql", String::from("/q/c.sql"), "q/a.sql*"));
    assert!(!l.set_current_selected_path(Some(9), "x", String::from("x"), "Untitled 1"));
    assert!(l.remove_source(0, 2));
    assert_eq!(l.files.len(), 1);
    assert_eq!(l.files[0].name, "q/c.sql");
    assert!(!l.remove_source(0, 1));
    assert_eq!(l.files.len(), 1);
}

#[test]
fn labels_mark_unsaved_edits() {
    assert_eq!(mark_unsaved("a.sql"), "a.sql*");
    assert_eq!(mark_unsaved("a.sql*"), "a.sql*");
    assert_eq!(mark_saved("a.sql*"), "a.sql");
    assert_eq!(mark_saved("a.sql"), "a.sql");
    assert_eq!(mark_saved(""), "");
    assert_eq!(query_stack_name(12), "queries_12");
}

#[test]
fn column_names_follow_the_mapping_kind() {
    let mut c = ColumnNames::new(MappingType::Bar);
    assert_eq!(c.get_col_name("width"), "None");
    c.set_col_name("height", "sales");
    assert_eq!(c.get_col_name("height"), "sales");
    c.set_col_name("z", "ignored");
    assert_eq!(c.get_col_name("z"), "");
    assert_eq!(c.set_col_names(names(&["a", "b"])), Err("Wrong number of columns."));
    assert_eq!(c.get_col_name("x"), "None");
    assert_eq!(c.set_col_names(names(&["a", "b", "c", "d"])), Ok(()));
    assert_eq!(
        c.get_ordered_col_names(),
        vec![
            (String::from("x"), String::from("a")),
            (String::from("y"), String::from("b")),
            (String::from("width"), String::from("c")),
            (String::from("height"), String::from("d")),
        ]
    );
    let h = c.get_hash_col_names();
    assert_eq!(h.len(), 4);
    assert_eq!(h.get("width"), Some(String::from("c")));
    let mut t = ColumnNames::new(MappingType::Text);
    assert_eq!(t.set_col_names(names(&["x1", "y1", "label"])), Ok(()));
    assert_eq!(t.get_col_name("text"), "label");
    let mut props = PropertyMap::new();
    props.insert(String::from("x"), String::from("t"));
    props.insert(String::from("y"), String::from("v"));
    let l = ColumnNames::from_properties(MappingType::Line, &props);
    assert_eq!(l.get_ordered_col_names(), vec![(String::from("x"), String::from("t")), (String::from("y"), String::from("v"))]);
}

#[test]
fn query_view_shows_the_selected_file_page() {
    assert_eq!(query_page_name(Some(3)), "queries_3");
    assert_eq!(query_page_name(Some(0)), "queries_0");
    assert_eq!(query_page_name(None), "no_queries");
}
