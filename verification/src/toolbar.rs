use vstd::prelude::*;
use crate::text::{chars_of, str_eq, views};
use crate::group_toolbar::{GroupSelection, sensitivity_set, focused, cleared, plot_switched};

verus! {

/// The value of a run of decimal digits.
pub open spec fn digits_value(s: Seq<char>) -> nat
    decreases s.len(),
{
    if s.len() == 0 {
        0
    } else {
        digits_value(s.drop_last()) * 10 + ((s.last() as nat) - ('0' as nat)) as nat
    }
}

/// Whether every character is a decimal digit.
pub open spec fn all_digits(s: Seq<char>) -> bool {
    forall|k: int| 0 <= k < s.len() ==> '0' <= #[trigger] s[k] <= '9'
}

/// The index a text spells as `usize`'s parser reads it: an optional `+`, then
/// one or more decimal digits, with a value that fits in a `usize`.
pub open spec fn index_of_text(s: Seq<char>) -> Option<nat> {
    let d = if s.len() > 0 && s[0] == '+' { s.skip(1) } else { s };
    if d.len() > 0 && all_digits(d) && digits_value(d) <= usize::MAX {
        Some(digits_value(d))
    } else {
        None
    }
}

proof fn lemma_digits_grow(s: Seq<char>, k: int)
    requires
        0 <= k <= s.len(),
        all_digits(s),
    ensures
        digits_value(s.take(k)) <= digits_value(s),
    decreases s.len() - k,
{
    if k < s.len() {
        lemma_digits_grow(s, k + 1);
        assert(s.take(k + 1).drop_last() =~= s.take(k));
        assert(s.take(k + 1).last() == s[k]);
        assert('0' <= s[k] <= '9');
    } else {
        assert(s.take(k) =~= s);
    }
}

/// Reads an index the way `str::parse::<usize>` does.
pub fn parse_index(s: &str) -> (r: Option<usize>)
    ensures
        match index_of_text(s@) {
            Some(v) => r == Some(v as usize),
            None => r is None,
        },
{
    let cs = chars_of(s);
    let start: usize = if cs.len() > 0 && cs[0] == '+' { 1 } else { 0 };
    let ghost d = if s@.len() > 0 && s@[0] == '+' { s@.skip(1) } else { s@ };
    assert(d =~= cs@.skip(start as int));
    if start >= cs.len() {
        return None;
    }
    let mut val: usize = 0;
    let mut i: usize = start;
    while i < cs.len()
        invariant
            cs@ == s@,
            d == (if s@.len() > 0 && s@[0] == '+' { s@.skip(1) } else { s@ }),
            start <= i <= cs@.len(),
            start < cs@.len(),
            d == cs@.skip(start as int),
            all_digits(d.take(i - start)),
            val as nat == digits_value(d.take(i - start)),
        decreases cs@.len() - i,
    {
        let c = cs[i];
        if c < '0' || c > '9' {
            assert(d[i - start] == c);
            assert(!all_digits(d));
            return None;
        }
        let digit = (c as u32 - '0' as u32) as usize;
        assert(d.take(i + 1 - start).drop_last() =~= d.take(i - start));
        assert(d.take(i + 1 - start).last() == c);
        assert(all_digits(d.take(i + 1 - start)));
        match val.checked_mul(10) {
            Some(m) => match m.checked_add(digit) {
                Some(v) => val = v,
                None => {
                    proof {
                        if all_digits(d) {
                            lemma_digits_grow(d, i + 1 - start);
                        }
                    }
                    return None;
                },
            },
            None => {
                proof {
                    if all_digits(d) {
                        lemma_digits_grow(d, i + 1 - start);
                    }
                }
                return None;
            },
        }
        i = i + 1;
    }
    assert(d.take(i - start) =~= d);
    Some(val)
}

/// Where a mapping's data comes from: the table (by position in the
/// environment) and its columns, linear and within the table, the column names
/// and query, and the mapping's type, plot and name (its index in that plot).
pub struct DataSource {
    pub tbl_pos: Option<usize>,
    pub ixs: Vec<usize>,
    pub tbl_ixs: Vec<usize>,
    pub col_names: Vec<String>,
    pub query: String,
    pub ty: String,
    pub plot_ix: usize,
    pub name: String,
}

/// A mapping found on the selected columns: its type, plot, position among all
/// sources, and position within its plot.
#[derive(Clone, Debug)]
pub struct SelectedMapping {
    pub ty: String,
    pub pl_ix: usize,
    pub global_ix: usize,
    pub local_ix: usize,
}

/// Whether a source maps exactly the selected columns of table `tbl_ix` (and,
/// when a type is given, is of that type).
pub open spec fn source_matches(src: DataSource, selected: Seq<usize>, tbl_ix: usize, ty: Option<Seq<char>>) -> bool {
    &&& src.tbl_pos == Some(tbl_ix)
    &&& src.tbl_ixs@ == selected
    &&& match ty {
        Some(t) => src.ty@ == t,
        None => true,
    }
}

/// The (type, plot, global position, local position) of each source of
/// `sources[..n]` that maps the selection, in order.
pub open spec fn mapped_upto(sources: Seq<DataSource>, selected: Seq<usize>, tbl_ix: usize, ty: Option<Seq<char>>, n: int)
    -> Seq<(Seq<char>, usize, int, nat)>
    decreases n,
{
    if n <= 0 {
        Seq::empty()
    } else {
        let prev = mapped_upto(sources, selected, tbl_ix, ty, n - 1);
        let src = sources[n - 1];
        if source_matches(src, selected, tbl_ix, ty) {
            prev.push((src.ty@, src.plot_ix, n - 1, index_of_text(src.name@)->0))
        } else {
            prev
        }
    }
}

/// What a selected mapping describes.
pub open spec fn mapping_desc(m: SelectedMapping) -> (Seq<char>, usize, int, nat) {
    (m.ty@, m.pl_ix, m.global_ix as int, m.local_ix as nat)
}

/// The sources every mapping check reads: each knows its table, and each one
/// that maps the selection is named by an index.
pub open spec fn sources_readable(sources: Seq<DataSource>, selected: Seq<usize>, tbl_ix: usize, ty: Option<Seq<char>>) -> bool {
    forall|i: int| 0 <= i < sources.len() ==> {
        &&& (#[trigger] sources[i]).tbl_pos is Some
        &&& source_matches(sources[i], selected, tbl_ix, ty) ==> index_of_text(sources[i].name@) is Some
    }
}

/// The mappings (of type `mapping_type`, or of any type) whose data are exactly
/// the selected columns of table `tbl_ix`, in source order.
pub fn check_mapped(selected: &[usize], tbl_ix: usize, sources: &Vec<DataSource>, mapping_type: Option<&str>)
    -> (r: Vec<SelectedMapping>)
    requires
        sources_readable(sources@, selected@, tbl_ix, match mapping_type { Some(t) => Some(t@), None => None }),
    ensures
        ({
            let ty = match mapping_type { Some(t) => Some(t@), None => None };
            let m = mapped_upto(sources@, selected@, tbl_ix, ty, sources@.len() as int);
            &&& r@.len() == m.len()
            &&& forall|k: int| 0 <= k < m.len() ==> mapping_desc(#[trigger] r@[k]) == m[k]
        }),
{
    let ghost ty = match mapping_type { Some(t) => Some(t@), None => None };
    let mut mapped: Vec<SelectedMapping> = Vec::new();
    let mut i: usize = 0;
    while i < sources.len()
        invariant
            i <= sources@.len(),
            ty == match mapping_type { Some(t) => Some(t@), None => None },
            sources_readable(sources@, selected@, tbl_ix, ty),
            mapped@.len() == mapped_upto(sources@, selected@, tbl_ix, ty, i as int).len(),
            forall|k: int| 0 <= k < mapped@.len()
                ==> mapping_desc(#[trigger] mapped@[k]) == mapped_upto(sources@, selected@, tbl_ix, ty, i as int)[k],
        decreases sources@.len() - i,
    {
        let source = &sources[i];
        assert(source.tbl_pos is Some);
        let pos = match source.tbl_pos {
            Some(p) => p,
            None => 0,
        };
        if tbl_ix == pos {
            let len_match = selected.len() == source.tbl_ixs.len();
            let mut col_match = true;
            if len_match {
                let mut j: usize = 0;
                while j < selected.len()
                    invariant
                        j <= selected@.len(),
                        selected@.len() == source.tbl_ixs@.len(),
                        col_match == (forall|q: int| 0 <= q < j ==> selected@[q] == source.tbl_ixs@[q]),
                    decreases selected@.len() - j,
                {
                    if selected[j] != source.tbl_ixs[j] {
                        col_match = false;
                    }
                    j = j + 1;
                }
                if col_match {
                    assert(source.tbl_ixs@ =~= selected@);
                }
            }
            let type_match = match mapping_type {
                Some(t) => str_eq(t, source.ty.as_str()),
                None => true,
            };
            if len_match && col_match && type_match {
                assert(source_matches(*source, selected@, tbl_ix, ty));
                let local = parse_index(source.name.as_str());
                let local_ix = match local {
                    Some(v) => v,
                    None => 0,
                };
                mapped.push(SelectedMapping { ty: source.ty.clone(), pl_ix: source.plot_ix, global_ix: i, local_ix });
            } else {
                assert(!source_matches(*source, selected@, tbl_ix, ty));
            }
        }
        i = i + 1;
    }
    mapped
}

/// Which of the add, edit and remove buttons the user may press.
#[derive(Debug, Clone, Copy, PartialEq, Eq, Structural)]
pub struct MappingButtons {
    pub add: bool,
    pub edit: bool,
    pub remove: bool,
}

/// What the selected columns are to the mapping toolbar: a new mapping (its plot
/// and type), one existing mapping, several, or nothing.
#[derive(Debug)]
pub enum SelectionStatus {
    New(usize, String),
    Single(SelectedMapping),
    Multiple(Vec<SelectedMapping>),
    Nothing,
}

/// What the caller still does after a toggle: whether the toggles' sensitivity is
/// set again from the number of selected columns, and the plot the view should
/// make active, if any.
#[derive(Debug, Clone, Copy, PartialEq, Eq, Structural)]
pub struct ToggleResponse {
    pub refresh_toggles: bool,
    pub focus: Option<usize>,
}

/// A copy of a selected mapping.
pub fn copy_mapping(m: &SelectedMapping) -> (r: SelectedMapping)
    ensures
        mapping_desc(r) == mapping_desc(*m),
{
    SelectedMapping { ty: m.ty.clone(), pl_ix: m.pl_ix, global_ix: m.global_ix, local_ix: m.local_ix }
}

/// The names of the mapping toggles.
pub open spec fn toolbar_names() -> Seq<Seq<char>> {
    seq!["bar"@, "line"@, "scatter"@, "text"@, "area"@, "surface"@]
}

/// Whether no mapping found is of type `ty`.
pub open spec fn type_free(found: Seq<SelectedMapping>, ty: Seq<char>) -> bool {
    forall|j: int| 0 <= j < found.len() ==> (#[trigger] found[j]).ty@ != ty
}

/// Whether some mapping type is not among the mappings found.
pub open spec fn any_new_available(found: Seq<SelectedMapping>) -> bool {
    exists|k: int| 0 <= k < 6 && #[trigger] type_free(found, toolbar_names()[k])
}

/// The position of the first mapping of type `ty`, if any.
pub open spec fn first_of_type(found: Seq<SelectedMapping>, ty: Seq<char>, j: int) -> Option<int>
    decreases found.len() - j,
{
    if j < 0 || j >= found.len() {
        None
    } else if found[j].ty@ == ty {
        Some(j)
    } else {
        first_of_type(found, ty, j + 1)
    }
}

fn no_buttons() -> (r: MappingButtons)
    ensures
        r == (MappingButtons { add: false, edit: false, remove: false }),
{
    MappingButtons { add: false, edit: false, remove: false }
}

/// Selects an existing mapping: the toolbar points at its plot and only edit and
/// remove can be pressed.
fn select_mapping(
    m: &SelectedMapping,
    buttons: &mut MappingButtons,
    group: &mut GroupSelection,
    selection: &mut SelectionStatus,
)
    requires
        old(group).wf(),
    ensures
        final(group).wf(),
        final(group).state() == focused(old(group).state(), m.pl_ix),
        *final(buttons) == (MappingButtons { add: false, edit: true, remove: true }),
        *final(selection) matches SelectionStatus::Single(x) && mapping_desc(x) == mapping_desc(*m),
{
    *selection = SelectionStatus::Single(copy_mapping(m));
    group.focus_plot(m.pl_ix);
    *buttons = MappingButtons { add: false, edit: true, remove: true };
}

/// Whether some mapping type is not among `found`.
fn new_available(found: &Vec<SelectedMapping>) -> (r: bool)
    ensures
        r == any_new_available(found@),
{
    let names: [&str; 6] = ["bar", "line", "scatter", "text", "area", "surface"];
    proof {
        reveal_strlit("bar");
        reveal_strlit("line");
        reveal_strlit("scatter");
        reveal_strlit("text");
        reveal_strlit("area");
        reveal_strlit("surface");
    }
    let ghost named = seq![names[0]@, names[1]@, names[2]@, names[3]@, names[4]@, names[5]@];
    assert(named =~= toolbar_names());
    let mut k: usize = 0;
    while k < 6
        invariant
            k <= 6,
            named == toolbar_names(),
            forall|q: int| 0 <= q < 6 ==> #[trigger] names@[q]@ == named[q],
            forall|q: int| 0 <= q < k ==> !(#[trigger] type_free(found@, toolbar_names()[q])),
        decreases 6 - k,
    {
        let mut j: usize = 0;
        let mut seen = false;
        while j < found.len()
            invariant
                j <= found@.len(),
                k < 6,
                seen == exists|q: int| 0 <= q < j && (#[trigger] found@[q]).ty@ == names@[k as int]@,
            decreases found@.len() - j,
        {
            if str_eq(found[j].ty.as_str(), names[k]) {
                seen = true;
            }
            j = j + 1;
        }
        if !seen {
            assert(type_free(found@, toolbar_names()[k as int]));
            return true;
        }
        assert(!type_free(found@, toolbar_names()[k as int]));
        k = k + 1;
    }
    assert(!any_new_available(found@));
    false
}

/// The response to the user pressing or releasing the toggle of mapping type
/// `name` (`active` is its new state; `toggled` lists the types whose toggles are
/// now pressed; `this_mapped` and `any_mapped` are the mappings on the selected
/// columns of that type and of any type; `n_cols` is the number of columns
/// selected). With more than one toggle pressed nothing can be done. Pressing a
/// type that is not mapped offers to add it; pressing the one mapped type selects
/// that mapping; several mappings, or no columns, leave nothing selected.
/// Releasing the last toggle opens the plot toolbar when some type is still
/// free; releasing down to one pressed toggle selects the mapping of that type,
/// if there is one.
pub fn on_mapping_toggled(
    buttons: &mut MappingButtons,
    group: &mut GroupSelection,
    selection: &mut SelectionStatus,
    sel_mapping: &mut String,
    name: &str,
    active: bool,
    toggled: &Vec<String>,
    n_cols: usize,
    this_mapped: &Vec<SelectedMapping>,
    any_mapped: &Vec<SelectedMapping>,
) -> (r: ToggleResponse)
    requires
        old(group).wf(),
    ensures
        final(group).wf(),
        old(buttons).edit == old(buttons).remove ==> final(buttons).edit == final(buttons).remove,
        toggled@.len() > 1 ==> {
            &&& *final(buttons) == (MappingButtons { add: false, edit: false, remove: false })
            &&& final(group).state() == old(group).state()
            &&& *final(selection) == *old(selection)
            &&& *final(sel_mapping) == *old(sel_mapping)
            &&& r == (ToggleResponse { refresh_toggles: false, focus: None })
        },
        toggled@.len() <= 1 ==> r.refresh_toggles,
        toggled@.len() <= 1 && active ==> {
            &&& final(sel_mapping)@ == name@
            &&& this_mapped@.len() == 0 ==> {
                &&& *final(selection) matches SelectionStatus::New(p, t) && p == 0 && t@ == name@
                &&& *final(buttons) == (MappingButtons { add: true, edit: false, remove: false })
                &&& final(group).state() == (if old(group).is_sensitive() { old(group).state() }
                    else { sensitivity_set(old(group).state(), true) })
                &&& r.focus is None
            }
            &&& this_mapped@.len() == 1 && n_cols >= 1 ==> {
                &&& *final(selection) matches SelectionStatus::Single(x) && mapping_desc(x) == mapping_desc(this_mapped@[0])
                &&& *final(buttons) == (MappingButtons { add: false, edit: true, remove: true })
                &&& final(group).state() == focused(old(group).state(), this_mapped@[0].pl_ix)
                &&& r.focus == Some(this_mapped@[0].pl_ix)
            }
            &&& this_mapped@.len() == 1 && n_cols == 0 ==> {
                &&& *final(selection) is Nothing
                &&& *final(buttons) == (MappingButtons { add: false, edit: false, remove: false })
                &&& final(group).state() == cleared(old(group).state())
                &&& r.focus is None
            }
            &&& this_mapped@.len() > 1 ==> {
                &&& *final(selection) matches SelectionStatus::Multiple(v) && v@.len() == this_mapped@.len()
                    && forall|k: int| 0 <= k < v@.len() ==> mapping_desc(#[trigger] v@[k]) == mapping_desc(this_mapped@[k])
                &&& *final(buttons) == (MappingButtons { add: false, edit: false, remove: false })
                &&& final(group).state() == cleared(old(group).state())
                &&& r.focus is None
            }
        },
        toggled@.len() == 0 && !active ==> {
            &&& *final(buttons) == *old(buttons)
            &&& *final(selection) == *old(selection)
            &&& *final(sel_mapping) == *old(sel_mapping)
            &&& final(group).state() == sensitivity_set(old(group).state(), any_new_available(any_mapped@))
            &&& r.focus is None
        },
        toggled@.len() == 1 && !active ==> {
            &&& final(sel_mapping)@ == toggled@[0]@
            &&& any_mapped@.len() == 0 ==> {
                &&& *final(buttons) == (MappingButtons { add: false, edit: false, remove: false })
                &&& *final(selection) == *old(selection)
                &&& final(group).state() == old(group).state()
                &&& r.focus is None
            }
            &&& any_mapped@.len() > 0 ==> match first_of_type(any_mapped@, toggled@[0]@, 0) {
                Some(k) => {
                    &&& *final(selection) matches SelectionStatus::Single(x) && mapping_desc(x) == mapping_desc(any_mapped@[k])
                    &&& *final(buttons) == (MappingButtons { add: false, edit: true, remove: true })
                    &&& final(group).state() == focused(old(group).state(), any_mapped@[k].pl_ix)
                    &&& r.focus == Some(any_mapped@[k].pl_ix)
                },
                None => {
                    &&& *final(buttons) == (MappingButtons {
                        add: this_mapped@.len() == 0 || any_mapped@[0].ty@ != toggled@[0]@,
                        edit: false,
                        remove: false,
                    })
                    &&& *final(selection) == *old(selection)
                    &&& final(group).state() == old(group).state()
                    &&& r.focus is None
                },
            }
        },
{
    if toggled.len() > 1 {
        *buttons = no_buttons();
        return ToggleResponse { refresh_toggles: false, focus: None };
    }
    if active {
        *sel_mapping = name.to_owned();
        if this_mapped.len() == 0 {
            *selection = SelectionStatus::New(0, name.to_owned());
            *buttons = MappingButtons { add: true, edit: false, remove: false };
            if !group.get_sensitive() {
                group.set_sensitive(true);
            }
            ToggleResponse { refresh_toggles: true, focus: None }
        } else if this_mapped.len() == 1 {
            if n_cols >= 1 {
                select_mapping(&this_mapped[0], buttons, group, selection);
                ToggleResponse { refresh_toggles: true, focus: Some(this_mapped[0].pl_ix) }
            } else {
                *selection = SelectionStatus::Nothing;
                *buttons = no_buttons();
                group.clear_selection();
                ToggleResponse { refresh_toggles: true, focus: None }
            }
        } else {
            let mut copies: Vec<SelectedMapping> = Vec::new();
            let mut k: usize = 0;
            while k < this_mapped.len()
                invariant
                    k <= this_mapped@.len(),
                    copies@.len() == k,
                    forall|q: int| 0 <= q < k ==> mapping_desc(#[trigger] copies@[q]) == mapping_desc(this_mapped@[q]),
                decreases this_mapped@.len() - k,
            {
                copies.push(copy_mapping(&this_mapped[k]));
                k = k + 1;
            }
            *selection = SelectionStatus::Multiple(copies);
            *buttons = no_buttons();
            group.clear_selection();
            ToggleResponse { refresh_toggles: true, focus: None }
        }
    } else if toggled.len() == 0 {
        let open = new_available(any_mapped);
        group.set_sensitive(open);
        ToggleResponse { refresh_toggles: true, focus: None }
    } else {
        *sel_mapping = toggled[0].clone();
        if any_mapped.len() >= 1 {
            let mut j: usize = 0;
            while j < any_mapped.len()
                invariant
                    j <= any_mapped@.len(),
                    toggled@.len() == 1,
                    !active,
                    any_mapped@.len() >= 1,
                    group.wf(),
                    *group == *old(group),
                    *buttons == *old(buttons),
                    *selection == *old(selection),
                    sel_mapping@ == toggled@[0]@,
                    first_of_type(any_mapped@, toggled@[0]@, 0) == first_of_type(any_mapped@, toggled@[0]@, j as int),
                decreases any_mapped@.len() - j,
            {
                if str_eq(any_mapped[j].ty.as_str(), toggled[0].as_str()) {
                    select_mapping(&any_mapped[j], buttons, group, selection);
                    return ToggleResponse { refresh_toggles: true, focus: Some(any_mapped[j].pl_ix) };
                }
                j = j + 1;
            }
            let add_on = this_mapped.len() == 0 || !str_eq(any_mapped[0].ty.as_str(), toggled[0].as_str());
            *buttons = MappingButtons { add: add_on, edit: false, remove: false };
            ToggleResponse { refresh_toggles: true, focus: None }
        } else {
            *buttons = no_buttons();
            ToggleResponse { refresh_toggles: true, focus: None }
        }
    }
}

/// The mapping types that can be added on `ncols` selected columns: bars on one,
/// lines and scatters on two, areas, texts and surfaces on three.
pub open spec fn sensitive_for(ncols: usize) -> Seq<Seq<char>> {
    if ncols == 1 {
        seq!["bar"@]
    } else if ncols == 2 {
        seq!["line"@, "scatter"@]
    } else if ncols == 3 {
        seq!["area"@, "text"@, "surface"@]
    } else {
        Seq::empty()
    }
}

/// Whether a text is one of the given names.
fn among(x: &str, names: &[&str]) -> (r: bool)
    ensures
        r == exists|k: int| 0 <= k < names@.len() && (#[trigger] names@[k])@ == x@,
{
    let mut k: usize = 0;
    while k < names.len()
        invariant
            k <= names@.len(),
            forall|q: int| 0 <= q < k ==> (#[trigger] names@[q])@ != x@,
        decreases names@.len() - k,
    {
        if str_eq(names[k], x) {
            return true;
        }
        k = k + 1;
    }
    false
}

/// For each mapping toggle (by name), whether the user may press it when `ncols`
/// columns are selected.
pub fn config_toggles_sensitive(names: &Vec<String>, ncols: usize) -> (r: Vec<bool>)
    ensures
        r@.len() == names@.len(),
        forall|k: int| 0 <= k < names@.len() ==> #[trigger] r@[k] == sensitive_for(ncols).contains(names@[k]@),
{
    let sensitive: &[&str] = if ncols == 1 {
        &["bar"]
    } else if ncols == 2 {
        &["line", "scatter"]
    } else if ncols == 3 {
        &["area", "text", "surface"]
    } else {
        &[]
    };
    proof {
        reveal_strlit("bar");
        reveal_strlit("line");
        reveal_strlit("scatter");
        reveal_strlit("area");
        reveal_strlit("text");
        reveal_strlit("surface");
    }
    let ghost listed = Seq::new(sensitive@.len(), |q: int| sensitive@[q]@);
    assert(listed =~= sensitive_for(ncols));
    let mut out: Vec<bool> = Vec::new();
    let mut k: usize = 0;
    while k < names.len()
        invariant
            k <= names@.len(),
            out@.len() == k,
            listed == sensitive_for(ncols),
            listed == Seq::new(sensitive@.len(), |q: int| sensitive@[q]@),
            forall|q: int| 0 <= q < k ==> #[trigger] out@[q] == sensitive_for(ncols).contains(names@[q]@),
        decreases names@.len() - k,
    {
        let on = among(names[k].as_str(), sensitive);
        proof {
            if on {
                let w = choose|j: int| 0 <= j < sensitive@.len() && (#[trigger] sensitive@[j])@ == names@[k as int]@;
                assert(listed[w] == names@[k as int]@);
            } else {
                assert forall|j: int| 0 <= j < listed.len() implies listed[j] != names@[k as int]@ by {
                    assert(listed[j] == sensitive@[j]@);
                }
            }
        }
        out.push(on);
        k = k + 1;
    }
    out
}

/// For each mapping toggle (by name), whether it is pressed when the selected
/// columns carry mappings of the given types.
pub fn set_toggled_mappings(names: &Vec<String>, mapping_types: &Vec<String>) -> (r: Vec<bool>)
    ensures
        r@.len() == names@.len(),
        forall|k: int| 0 <= k < names@.len() ==> #[trigger] r@[k] == views(mapping_types@).contains(names@[k]@),
{
    let mut out: Vec<bool> = Vec::new();
    let mut k: usize = 0;
    while k < names.len()
        invariant
            k <= names@.len(),
            out@.len() == k,
            forall|q: int| 0 <= q < k ==> #[trigger] out@[q] == views(mapping_types@).contains(names@[q]@),
        decreases names@.len() - k,
    {
        let mut found = false;
        let mut j: usize = 0;
        while j < mapping_types.len()
            invariant
                j <= mapping_types@.len(),
                k < names@.len(),
                found == exists|q: int| 0 <= q < j && (#[trigger] mapping_types@[q])@ == names@[k as int]@,
            decreases mapping_types@.len() - j,
        {
            if str_eq(mapping_types[j].as_str(), names[k].as_str()) {
                found = true;
            }
            j = j + 1;
        }
        proof {
            if found {
                let w = choose|q: int| 0 <= q < mapping_types@.len() && (#[trigger] mapping_types@[q])@ == names@[k as int]@;
                assert(views(mapping_types@)[w] == names@[k as int]@);
            } else {
                assert forall|q: int| 0 <= q < views(mapping_types@).len() implies views(mapping_types@)[q] != names@[k as int]@ by {
                    assert(views(mapping_types@)[q] == mapping_types@[q]@);
                }
            }
        }
        out.push(found);
        k = k + 1;
    }
    out
}

/// Brings the toolbar in line with the mappings found on the newly selected
/// columns: when there are some, their types are the toggles to press, edit and
/// remove are offered only for a single mapping, and the plot toolbar points at
/// the last mapping's plot; when there are none, no toggle is pressed and the plot
/// toolbar selects the first plot of its page. Returns the types to press.
pub fn update_mapping_status(buttons: &mut MappingButtons, group: &mut GroupSelection, mapped: &Vec<SelectedMapping>)
    -> (r: Vec<String>)
    requires
        old(group).wf(),
    ensures
        final(group).wf(),
        final(buttons).add == old(buttons).add,
        old(buttons).edit == old(buttons).remove ==> final(buttons).edit == final(buttons).remove,
        views(r@) == Seq::new(mapped@.len(), |k: int| mapped@[k].ty@),
        mapped@.len() > 0 ==> {
            &&& final(buttons).edit == (mapped@.len() == 1)
            &&& final(buttons).remove == (mapped@.len() == 1)
            &&& final(group).state() == focused(old(group).state(), mapped@.last().pl_ix)
        },
        mapped@.len() == 0 ==> {
            &&& *final(buttons) == *old(buttons)
            &&& final(group).state() == plot_switched(old(group).state(), 0)
        },
{
    let mut types: Vec<String> = Vec::new();
    let mut k: usize = 0;
    while k < mapped.len()
        invariant
            k <= mapped@.len(),
            types@.len() == k,
            forall|q: int| 0 <= q < k ==> #[trigger] types@[q]@ == mapped@[q].ty@,
        decreases mapped@.len() - k,
    {
        types.push(mapped[k].ty.clone());
        k = k + 1;
    }
    assert(views(types@) =~= Seq::new(mapped@.len(), |k: int| mapped@[k].ty@));
    if mapped.len() > 0 {
        let last = mapped.len() - 1;
        let single = mapped.len() == 1;
        buttons.edit = single;
        buttons.remove = single;
        group.focus_plot(mapped[last].pl_ix);
    } else {
        group.set_active_default(None);
    }
    types
}

/// A search for mappings of one type finds only mappings of that type, and
/// never more than a search over every type.
pub proof fn lemma_typed_mappings_have_type(sources: Seq<DataSource>, selected: Seq<usize>, tbl_ix: usize, ty: Seq<char>, n: int)
    requires
        0 <= n <= sources.len(),
    ensures
        forall|k: int| 0 <= k < mapped_upto(sources, selected, tbl_ix, Some(ty), n).len()
            ==> (#[trigger] mapped_upto(sources, selected, tbl_ix, Some(ty), n)[k]).0 == ty,
        mapped_upto(sources, selected, tbl_ix, Some(ty), n).len() <= mapped_upto(sources, selected, tbl_ix, None, n).len(),
    decreases n,
{
    if n > 0 {
        lemma_typed_mappings_have_type(sources, selected, tbl_ix, ty, n - 1);
    }
}

/// An index printed in decimal reads back as itself.
pub proof fn lemma_index_text_roundtrip(n: nat)
    requires
        n <= usize::MAX,
    ensures
        index_of_text(crate::command::digits(n)) == Some(n),
{
    lemma_digits_read(n);
    let d = crate::command::digits(n);
    assert(d.len() > 0);
    assert(d[0] != '+');
}

proof fn lemma_digits_read(n: nat)
    ensures
        crate::command::digits(n).len() > 0,
        all_digits(crate::command::digits(n)),
        digits_value(crate::command::digits(n)) == n,
        crate::command::digits(n)[0] != '+',
    decreases n,
{
    let d = crate::command::digits(n);
    if n < 10 {
        let c = (('0' as u8) + n as u8) as char;
        assert(d == seq![c]);
        assert(d.drop_last() =~= Seq::<char>::empty());
        assert(c as nat == 48 + n);
        assert(('0' as nat) == 48);
        assert(d.last() == c);
        assert(digits_value(d) == digits_value(d.drop_last()) * 10 + ((c as nat) - ('0' as nat)) as nat);
    } else {
        lemma_digits_read(n / 10);
        let c = ((('0' as u8) + (n % 10) as u8) as char);
        assert(d == crate::command::digits(n / 10).push(c));
        assert(d.drop_last() =~= crate::command::digits(n / 10));
        assert(c as nat == 48 + n % 10);
        assert(('0' as nat) == 48);
        assert(d.last() == c);
        assert(digits_value(d) == digits_value(d.drop_last()) * 10 + ((c as nat) - ('0' as nat)) as nat);
        assert((n / 10) * 10 + n % 10 == n) by (nonlinear_arith);
        assert(all_digits(d)) by {
            assert forall|k: int| 0 <= k < d.len() implies '0' <= #[trigger] d[k] <= '9' by {
                if k < d.len() - 1 {
                    assert(d[k] == crate::command::digits(n / 10)[k]);
                }
            }
        }
    }
}

/// Mappings can be added on one, two or three selected columns, and only then;
/// every type offered is one of the toolbar's mapping types.
pub proof fn lemma_mappings_for_columns(ncols: usize)
    ensures
        sensitive_for(ncols).len() > 0 <==> 1 <= ncols <= 3,
        forall|k: int| 0 <= k < sensitive_for(ncols).len() ==> toolbar_names().contains(#[trigger] sensitive_for(ncols)[k]),
{
    let names = toolbar_names();
    assert(names[0] == "bar"@ && names[1] == "line"@ && names[2] == "scatter"@);
    assert(names[3] == "text"@ && names[4] == "area"@ && names[5] == "surface"@);
}

} // verus!
