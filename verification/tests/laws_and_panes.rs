use queries::columns::ColumnNames;
use queries::command::index_string;
use queries::file_list::{mark_saved, mark_unsaved, FileList};
use queries::mapping::MappingType;
use queries::panes::{on_environment_update, set_tables, switch_on_view, switch_paned, switch_paned_pos, ContentView, EnvActions, EnvUpdate};
use queries::toolbar::{check_mapped, config_toggles_sensitive, parse_index, DataSource};

#[test]
fn paned_positions() {
    assert_eq!(switch_paned(0, true), Some(426));
    assert_eq!(switch_paned(0, false), None);
    assert_eq!(switch_paned(300, false), Some(0));
    assert_eq!(switch_paned(300, true), None);
    assert_eq!(switch_paned_pos(true, 250, 10, true, 900), (250, 250));
    assert_eq!(switch_paned_pos(false, 250, 310, true, 900), (310, 0));
    assert_eq!(switch_paned_pos(false, 250, 310, false, 900), (310, 900));
}

#[test]
fn table_pages_are_titled_by_shape() {
    assert_eq!(set_tables(&vec![]), None);
    assert_eq!(
        set_tables(&vec![(11, 3), (0, 0), (1, 2)]),
        Some(vec![String::from("(10 x 3)"), String::from("(0 x 2)")])
    );
}

#[test]
fn printed_indices_read_back() {
    for n in [0usize, 7, 10, 99, 12345, usize::MAX] {
        assert_eq!(parse_index(&index_string(n)), Some(n));
    }
}

#[test]
fn unsaved_marks_are_undone() {
    for t in ["", "a.sql", "q*x"] {
        assert_eq!(mark_saved(&mark_unsaved(t)), t);
        assert_eq!(mark_unsaved(&mark_unsaved(t)), mark_unsaved(t));
    }
}

#[test]
fn fresh_files_are_numbered_consecutively() {
    let mut l = FileList::build();
    for n in 2..6 {
        let title = l.add_fresh_source();
        assert_eq!(title, format!("Untitled {}", n));
        assert_eq!(l.get_n_untitled(), n);
    }
}

#[test]
fn columns_read_back_what_was_set() {
    for ty in [MappingType::Line, MappingType::Bar, MappingType::Text, MappingType::Area, MappingType::Surface] {
        let mut c = ColumnNames::new(ty);
        c.set_col_name("x", "first");
        assert_eq!(c.get_col_name("x"), "first");
        assert_eq!(c.get_col_name("y") == "first", false);
    }
}

#[test]
fn typed_searches_find_only_that_type() {
    let mk = |ty: &str, name: &str| DataSource {
        tbl_pos: Some(0),
        ixs: vec![0, 1],
        tbl_ixs: vec![0, 1],
        col_names: Vec::new(),
        query: String::new(),
        ty: ty.to_string(),
        plot_ix: 0,
        name: name.to_string(),
    };
    let sources = vec![mk("line", "0"), mk("scatter", "1"), mk("line", "2")];
    let lines = check_mapped(&[0, 1], 0, &sources, Some("line"));
    let all = check_mapped(&[0, 1], 0, &sources, None);
    assert!(lines.iter().all(|m| m.ty == "line"));
    assert_eq!(lines.len(), 2);
    assert!(lines.len() <= all.len());
    assert_eq!(all.len(), 3);
}

#[test]
fn mappings_need_one_to_three_columns() {
    let all: Vec<String> = ["bar", "line", "scatter", "text", "area", "surface"].iter().map(|s| s.to_string()).collect();
    for n in 0..6 {
        let any = config_toggles_sensitive(&all, n).iter().any(|b| *b);
        assert_eq!(any, (1..=3).contains(&n));
    }
}

#[test]
fn results_arriving_decide_what_is_redrawn() {
    assert_eq!(
        on_environment_update(EnvUpdate::Clear, false),
        EnvActions {
            clear_tables: true,
            show_tables: false,
            clear_mappings: true,
            update_mapping_data: false,
            enable_tables: true,
            switch_to_tables: false,
            clear_invalid_mappings: true,
        }
    );
    let n = on_environment_update(EnvUpdate::NewTables, true);
    assert!(n.show_tables && n.clear_mappings && !n.update_mapping_data && n.switch_to_tables && !n.clear_tables);
    let r = on_environment_update(EnvUpdate::Refresh, false);
    assert!(r.show_tables && !r.clear_mappings && r.update_mapping_data && !r.switch_to_tables);
}

#[test]
fn one_view_toggle_on_at_a_time() {
    let t = switch_on_view(ContentView::Tables, Some(2));
    assert!(!t.query && t.table && !t.plot);
    assert_eq!(t.page, "tables");
    let p = switch_on_view(ContentView::Plot, None);
    assert!(!p.query && !p.table && p.plot);
    assert_eq!(p.page, "plot");
    let q = switch_on_view(ContentView::Queries, Some(2));
    assert!(q.query && !q.table && !q.plot);
    assert_eq!(q.page, "queries_2");
    assert_eq!(switch_on_view(ContentView::Queries, None).page, "no_queries");
}
