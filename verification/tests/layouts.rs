use queries::group_toolbar::{GroupSelection, ToggleState};
use queries::layout::{
    area_of_label, area_of_point, area_of_side, switch_on_split, check_plot_count, group_labels, group_layout_file, plot_placement, ratio_scales_sensitive, read_group_layout, required_plots, split_at,
    split_from_name, stack_index, stack_name, Anchor, GroupSplit, LayoutChild, Share,
};
use queries::mapping::MappingType;
use queries::mapping_tree::{mapping_row_label, subplot_labels};
use queries::property_map::PropertyMap;

const ALL: [GroupSplit; 8] = [
    GroupSplit::Unique,
    GroupSplit::Vertical,
    GroupSplit::Horizontal,
    GroupSplit::Four,
    GroupSplit::ThreeLeft,
    GroupSplit::ThreeTop,
    GroupSplit::ThreeRight,
    GroupSplit::ThreeBottom,
];

fn child(name: &str, attr: Option<&str>, content: &str, numeric: bool) -> LayoutChild {
    LayoutChild {
        name: name.to_string(),
        attr_name: attr.map(|a| a.to_string()),
        content: content.to_string(),
        numeric,
    }
}

#[test]
fn split_names_read_back() {
    assert_eq!(split_from_name("ThreeLeft"), Some(GroupSplit::ThreeLeft));
    assert_eq!(split_from_name("Four"), Some(GroupSplit::Four));
    assert_eq!(split_from_name("four"), None);
    for s in ALL {
        assert_eq!(split_at(stack_index(s)), s);
        assert!(stack_index(s) < 8);
    }
    assert_eq!(stack_name(GroupSplit::Unique), "unique");
}

#[test]
fn plot_counts() {
    assert_eq!(required_plots(GroupSplit::Unique), 1);
    assert_eq!(required_plots(GroupSplit::Horizontal), 2);
    assert_eq!(required_plots(GroupSplit::Four), 4);
    assert_eq!(required_plots(GroupSplit::ThreeTop), 3);
    assert_eq!(check_plot_count(GroupSplit::Vertical, 2), Ok(()));
    assert_eq!(check_plot_count(GroupSplit::Vertical, 3), Err(String::from("Vertical split require 2 plots")));
    assert_eq!(check_plot_count(GroupSplit::Unique, 2), Err(String::from("'None' split require 1 plot")));
    assert_eq!(check_plot_count(GroupSplit::Four, 1), Err(String::from("'Both' split require 4 plots")));
    assert_eq!(check_plot_count(GroupSplit::ThreeRight, 2), Err(String::from("'Three' split require 3 plots")));
}

#[test]
fn group_layouts_are_read_from_the_root_children() {
    let children = vec![
        child("property", Some("split"), "Horizontal", false),
        child("property", Some("vertical_ratio"), "0.3", true),
        child("text", None, "", false),
        child("plotarea", None, "", false),
        child("plotarea", None, "", false),
    ];
    let g = read_group_layout("plotgroup", &children).unwrap();
    assert_eq!(g.split, GroupSplit::Horizontal);
    assert_eq!(g.plots, vec![3, 4]);
    assert_eq!(g.v_ratio, Some(String::from("0.3")));
    assert_eq!(g.h_ratio, None);
}

#[test]
fn group_layouts_refused() {
    let one = vec![child("plotarea", None, "", false)];
    assert_eq!(read_group_layout("plot", &one).err(), Some(String::from("Root node should be called plotgroup")));
    assert_eq!(
        read_group_layout("plotgroup", &vec![]).err(),
        Some(String::from("Root node plotgroup does not contain any plotarea children."))
    );
    let bad_split = vec![child("property", Some("split"), "Five", false), child("plotarea", None, "", false)];
    assert_eq!(read_group_layout("plotgroup", &bad_split).err(), Some(String::from("Unrecognized split value")));
    let bad_ratio = vec![child("property", Some("horizontal_ratio"), "wide", false)];
    assert_eq!(read_group_layout("plotgroup", &bad_ratio).err(), Some(String::from("Unabe to parse horizontal ratio")));
    let unknown = vec![child("property", Some("color"), "red", false)];
    assert_eq!(read_group_layout("plotgroup", &unknown).err(), Some(String::from("Unknown property")));
    let too_few = vec![child("property", Some("split"), "Four", false), child("plotarea", None, "", false)];
    assert_eq!(read_group_layout("plotgroup", &too_few).err(), Some(String::from("'Both' split require 4 plots")));
    assert!(read_group_layout("plotgroup", &one).is_ok());
}

#[test]
fn plots_are_placed_by_split() {
    assert_eq!(plot_placement(GroupSplit::Unique, 0), (Anchor::TopLeft, (Share::Full, Share::Full)));
    assert_eq!(plot_placement(GroupSplit::Horizontal, 1), (Anchor::BelowDivision, (Share::Full, Share::Rest)));
    assert_eq!(plot_placement(GroupSplit::Four, 3), (Anchor::BottomRight, (Share::Rest, Share::Rest)));
    assert_eq!(plot_placement(GroupSplit::ThreeTop, 0), (Anchor::TopLeft, (Share::Rest, Share::Full)));
}

#[test]
fn ratio_scales_follow_the_split() {
    assert_eq!(ratio_scales_sensitive(GroupSplit::Unique), (false, false));
    assert_eq!(ratio_scales_sensitive(GroupSplit::Horizontal), (true, false));
    assert_eq!(ratio_scales_sensitive(GroupSplit::Vertical), (false, true));
    assert_eq!(ratio_scales_sensitive(GroupSplit::ThreeBottom), (true, true));
}

#[test]
fn mapping_tree_has_one_node_per_plot() {
    for s in ALL {
        assert_eq!(subplot_labels(s).len(), required_plots(s));
    }
    let labels = subplot_labels(GroupSplit::Four);
    assert_eq!(labels[3], (String::from("Bottom-right"), String::from("layout/four-4")));
    assert_eq!(subplot_labels(GroupSplit::Unique), vec![(String::from("Center"), String::from("layout/unique-1"))]);
}

#[test]
fn mapping_rows_are_labelled_by_their_columns() {
    let mut props = MappingType::Area.default_hash();
    props.insert(String::from("x"), String::from("day"));
    props.insert(String::from("ymin"), String::from("low"));
    props.insert(String::from("ymax"), String::from("high"));
    assert_eq!(mapping_row_label("area", &props), "day x low x high");
    let mut bar = PropertyMap::new();
    bar.insert(String::from("height"), String::from("sales"));
    assert_eq!(mapping_row_label("bar", &bar), "sales");
    let mut line = PropertyMap::new();
    line.insert(String::from("x"), String::from("t"));
    line.insert(String::from("y"), String::from("v"));
    assert_eq!(mapping_row_label("line", &line), "t x v");
}

#[test]
fn group_toolbar_starts_on_the_unique_layout() {
    let g = GroupSelection::new();
    assert_eq!(g.get_group_ix(), 0);
    assert_eq!(g.get_active_area(), Some(0));
    assert!(g.any_selected());
    assert_eq!(g.toggle_state(0, 0), ToggleState { active: true, sensitive: false });
    assert_eq!(g.toggle_state(3, 2), ToggleState { active: false, sensitive: false });
}

#[test]
fn group_toolbar_selects_and_opens() {
    let mut g = GroupSelection::new();
    g.set_active(3, 2);
    assert_eq!(g.get_group_ix(), 3);
    assert_eq!(g.get_active_area(), Some(2));
    assert_eq!(g.toggle_state(3, 2), ToggleState { active: true, sensitive: true });
    assert_eq!(g.toggle_state(3, 0), ToggleState { active: false, sensitive: true });
    g.set_sensitive(false);
    assert!(!g.get_sensitive());
    assert!(!g.toggle_state(3, 1).sensitive);
    g.set_sensitive(true);
    assert!(g.get_sensitive());
    g.set_inactive();
    assert_eq!(g.get_active_area(), None);
    assert!(!g.toggle_state(3, 2).active);
    g.toggled_on(3, 1);
    assert_eq!(g.get_active_area(), Some(1));
    g.switch_active_plot(0);
    assert_eq!(g.get_active_area(), Some(0));
    g.set_active_default(Some(GroupSplit::ThreeLeft));
    assert_eq!(g.get_group_ix(), stack_index(GroupSplit::ThreeLeft));
    assert_eq!(g.get_active_area(), Some(0));
}

#[test]
fn unique_layout_toolbar_stays_closed() {
    let mut g = GroupSelection::new();
    g.set_sensitive(true);
    assert!(!g.toggle_state(0, 0).sensitive);
    g.set_inactive();
    assert_eq!(g.get_active_area(), Some(0));
}

#[test]
fn focus_and_clear() {
    let mut g = GroupSelection::new();
    g.set_active(1, 0);
    g.set_sensitive(false);
    g.focus_plot(1);
    assert_eq!(g.get_active_area(), Some(1));
    assert!(!g.get_sensitive());
    assert!(g.toggle_state(1, 1).active);
    g.clear_selection();
    assert_eq!(g.get_active_area(), None);
    assert!(!g.get_sensitive());
}

#[test]
fn property_children_read_as_a_map() {
    let children = vec![
        child("property", Some("color"), "#000000", false),
        child("text", Some("ignored"), "x", false),
        child("property", Some("x"), "day", false),
        child("property", Some("color"), "#ffffff", false),
    ];
    let m = queries::layout::children_as_hash(&children, "property");
    assert_eq!(m.len(), 2);
    assert_eq!(m.get("color"), Some(String::from("#ffffff")));
    assert_eq!(m.get("x"), Some(String::from("day")));
    assert_eq!(m.get("ignored"), None);
}

#[test]
fn group_toolbar_chooser_offers_the_split_areas() {
    assert_eq!(group_labels(GroupSplit::Unique), vec!["Center"]);
    assert_eq!(group_labels(GroupSplit::Horizontal), vec!["Top", "Bottom"]);
    assert_eq!(group_labels(GroupSplit::Vertical), vec!["Left", "Right"]);
    assert_eq!(group_labels(GroupSplit::Four), vec!["Top Left", "Top Right", "Bottom Left", "Bottom Right"]);
    assert!(group_labels(GroupSplit::ThreeTop).is_empty());
    assert_eq!(area_of_label("Top"), Some(0));
    assert_eq!(area_of_label("Right"), Some(1));
    assert_eq!(area_of_label("Top Right"), Some(1));
    assert_eq!(area_of_label("Bottom Left"), Some(2));
    assert_eq!(area_of_label("Bottom Right"), Some(3));
    assert_eq!(area_of_label("Center"), None);
    assert_eq!(group_layout_file(GroupSplit::Unique), Some("assets/plot_layout/layout-single.xml"));
    assert_eq!(group_layout_file(GroupSplit::Four), Some("assets/plot_layout/layout-four.xml"));
    assert_eq!(group_layout_file(GroupSplit::ThreeLeft), None);
}

#[test]
fn clicks_select_the_plot_area_under_them() {
    assert_eq!(area_of_point(1, GroupSplit::Unique, 700, 500, 800, 600), 0);
    assert_eq!(area_of_point(2, GroupSplit::Horizontal, 10, 299, 800, 600), 0);
    assert_eq!(area_of_point(2, GroupSplit::Horizontal, 10, 300, 800, 600), 1);
    assert_eq!(area_of_point(2, GroupSplit::Vertical, 401, 10, 800, 600), 1);
    assert_eq!(area_of_point(4, GroupSplit::Four, 10, 10, 800, 600), 0);
    assert_eq!(area_of_point(4, GroupSplit::Four, 10, 400, 800, 600), 1);
    assert_eq!(area_of_point(4, GroupSplit::Four, 500, 10, 800, 600), 2);
    assert_eq!(area_of_point(4, GroupSplit::Four, 500, 400, 800, 601), 3);
    assert_eq!(area_of_point(2, GroupSplit::Vertical, -1, 0, -3, 0), 1);
    assert_eq!(area_of_side(2, GroupSplit::Horizontal, false, true), 1);
    assert_eq!(area_of_side(2, GroupSplit::Vertical, false, true), 0);
    assert_eq!(area_of_side(3, GroupSplit::ThreeLeft, true, false), 0);
    assert_eq!(area_of_side(3, GroupSplit::ThreeLeft, false, false), 2);
    assert_eq!(area_of_side(3, GroupSplit::ThreeTop, false, true), 0);
    assert_eq!(area_of_side(3, GroupSplit::ThreeTop, true, false), 1);
    assert_eq!(area_of_side(3, GroupSplit::ThreeRight, false, false), 1);
    assert_eq!(area_of_side(3, GroupSplit::ThreeRight, true, false), 2);
    assert_eq!(area_of_side(3, GroupSplit::ThreeBottom, false, true), 1);
    assert_eq!(area_of_side(3, GroupSplit::ThreeBottom, true, false), 2);
    assert_eq!(area_of_side(4, GroupSplit::Four, false, true), 1);
    assert_eq!(area_of_side(4, GroupSplit::Four, true, false), 2);
}

#[test]
fn one_split_toggle_on_at_a_time() {
    let u = switch_on_split(GroupSplit::Unique);
    assert_eq!(u.toggles, vec![true, false, false, false]);
    assert!(!u.chooser_sensitive);
    assert_eq!(u.area, 0);
    let f = switch_on_split(GroupSplit::Four);
    assert_eq!(f.toggles, vec![false, false, false, true]);
    assert!(f.chooser_sensitive);
    assert_eq!(switch_on_split(GroupSplit::Vertical).toggles, vec![false, false, true, false]);
}
