use vstd::prelude::*;
use vstd::string::StringExecFns;
use crate::command::{digits, index_string};
use crate::file_list::{query_page_of, query_page_name};

verus! {

/// Where the side bar's pane moves when it is shown or hidden from `position`: a
/// closed pane opens to its default width when shown, an open one closes when
/// hidden, and otherwise it stays.
pub fn switch_paned(position: i32, show: bool) -> (r: Option<i32>)
    ensures
        r == (if position == 0 {
            if show { Some(426i32) } else { None }
        } else {
            if !show { Some(0i32) } else { None }
        }),
{
    if position == 0 {
        if show { Some(426) } else { None }
    } else {
        if !show { Some(0) } else { None }
    }
}

/// The (remembered, new) positions of the main pane when its side is shown
/// (`state`) or hidden: showing goes back to the remembered position; hiding
/// remembers the current one and collapses the pane (to the left edge when it
/// is horizontal, to the bottom, `height`, when it is vertical).
pub fn switch_paned_pos(state: bool, saved: i32, current: i32, horizontal: bool, height: i32) -> (r: (i32, i32))
    ensures
        r == (if state { (saved, saved) } else { (current, if horizontal { 0i32 } else { height }) }),
{
    if state {
        (saved, saved)
    } else if horizontal {
        (current, 0)
    } else {
        (current, height)
    }
}

/// The title of a table page: its number of data rows (rows after the header)
/// by its number of columns.
pub open spec fn table_title(rows: nat, cols: nat) -> Seq<char> {
    "("@ + digits((rows - 1) as nat) + " x "@ + digits(cols) + ")"@
}

/// The titles of the table pages for tables of the given (rows, columns) shape,
/// rows counting the header; tables without rows get no page.
pub open spec fn table_titles(shapes: Seq<(usize, usize)>, n: int) -> Seq<Seq<char>>
    decreases n,
{
    if n <= 0 {
        Seq::empty()
    } else if shapes[n - 1].0 > 0 {
        table_titles(shapes, n - 1).push(table_title(shapes[n - 1].0 as nat, shapes[n - 1].1 as nat))
    } else {
        table_titles(shapes, n - 1)
    }
}

/// The pages to show for the tables of a session, given each table's (rows,
/// columns) shape: `None` when there are no tables (a placeholder page is shown
/// instead), else the title of each table that has rows.
pub fn set_tables(shapes: &Vec<(usize, usize)>) -> (r: Option<Vec<String>>)
    ensures
        shapes@.len() == 0 ==> r is None,
        shapes@.len() > 0 ==> (r matches Some(v) && v@.len() == table_titles(shapes@, shapes@.len() as int).len()
            && forall|k: int| 0 <= k < v@.len() ==> #[trigger] v@[k]@ == table_titles(shapes@, shapes@.len() as int)[k]),
{
    if shapes.len() == 0 {
        return None;
    }
    let mut titles: Vec<String> = Vec::new();
    let mut k: usize = 0;
    while k < shapes.len()
        invariant
            k <= shapes@.len(),
            titles@.len() == table_titles(shapes@, k as int).len(),
            forall|q: int| 0 <= q < titles@.len() ==> #[trigger] titles@[q]@ == table_titles(shapes@, k as int)[q],
        decreases shapes@.len() - k,
    {
        let (rows, cols) = shapes[k];
        if rows > 0 {
            let mut t = "(".to_owned();
            t.append(index_string(rows - 1).as_str());
            t.append(" x ");
            t.append(index_string(cols).as_str());
            t.append(")");
            titles.push(t);
        }
        k = k + 1;
    }
    Some(titles)
}

/// What the table environment reports when a query's results arrive.
#[derive(Debug, Clone, Copy, PartialEq, Eq, Structural)]
pub enum EnvUpdate {
    /// The environment was emptied.
    Clear,
    /// New tables replace the old ones.
    NewTables,
    /// The same tables were refreshed with new rows.
    Refresh,
}

/// What the window does when results arrive.
#[derive(Debug, Clone, Copy, PartialEq, Eq, Structural)]
pub struct EnvActions {
    /// Empty the table notebook.
    pub clear_tables: bool,
    /// Show the environment's tables in the notebook.
    pub show_tables: bool,
    /// Remove every plot mapping.
    pub clear_mappings: bool,
    /// Reload the plot mappings' data from the refreshed tables.
    pub update_mapping_data: bool,
    /// Make the table notebook usable again.
    pub enable_tables: bool,
    /// Switch the view from the queries to the tables.
    pub switch_to_tables: bool,
    /// Drop the mappings whose columns no longer exist.
    pub clear_invalid_mappings: bool,
}

/// The actions for an update: emptying clears the tables and the mappings, new
/// tables are shown and the mappings cleared, refreshed tables are shown and the
/// mappings' data reloaded; in every case the notebook is made usable, invalid
/// mappings are dropped, and the view moves to the tables when the queries were
/// on show.
pub open spec fn env_actions_of(u: EnvUpdate, query_active: bool) -> EnvActions {
    EnvActions {
        clear_tables: u == EnvUpdate::Clear,
        show_tables: u != EnvUpdate::Clear,
        clear_mappings: u != EnvUpdate::Refresh,
        update_mapping_data: u == EnvUpdate::Refresh,
        enable_tables: true,
        switch_to_tables: query_active,
        clear_invalid_mappings: true,
    }
}

/// Decides what to do when a query's results arrive (see `env_actions_of`).
pub fn on_environment_update(u: EnvUpdate, query_active: bool) -> (r: EnvActions)
    ensures
        r == env_actions_of(u, query_active),
{
    let (clear_tables, show_tables, clear_mappings, update_mapping_data) = match u {
        EnvUpdate::Clear => (true, false, true, false),
        EnvUpdate::NewTables => (false, true, true, false),
        EnvUpdate::Refresh => (false, true, false, true),
    };
    EnvActions {
        clear_tables,
        show_tables,
        clear_mappings,
        update_mapping_data,
        enable_tables: true,
        switch_to_tables: query_active,
        clear_invalid_mappings: true,
    }
}

/// The three views of the main window, each with its toggle on the header bar.
#[derive(Debug, Clone, Copy, PartialEq, Eq, Structural)]
pub enum ContentView {
    Queries,
    Tables,
    Plot,
}

/// The page the content stack shows for a view: the tables, the plot, or the
/// selected file's query page (`no_queries` when none is selected).
pub open spec fn view_page_of(v: ContentView, selected: Option<usize>) -> Seq<char> {
    match v {
        ContentView::Queries => query_page_of(selected),
        ContentView::Tables => "tables"@,
        ContentView::Plot => "plot"@,
    }
}

/// The header bar after a view's toggle is switched on: which toggles are on,
/// and the page shown.
pub struct ViewSwitch {
    pub query: bool,
    pub table: bool,
    pub plot: bool,
    pub page: String,
}

/// Switching a view's toggle on switches the other two off, so that it is the
/// only one on, and shows the view's page (see `view_page_of`).
pub fn switch_on_view(v: ContentView, selected: Option<usize>) -> (r: ViewSwitch)
    ensures
        r.query == (v == ContentView::Queries),
        r.table == (v == ContentView::Tables),
        r.plot == (v == ContentView::Plot),
        r.page@ == view_page_of(v, selected),
{
    let page = match v {
        ContentView::Queries => query_page_name(selected),
        ContentView::Tables => "tables".to_owned(),
        ContentView::Plot => "plot".to_owned(),
    };
    ViewSwitch {
        query: v == ContentView::Queries,
        table: v == ContentView::Tables,
        plot: v == ContentView::Plot,
        page,
    }
}

} // verus!
