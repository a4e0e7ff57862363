use vstd::prelude::*;
use crate::layout::{GroupSplit, plots_of, split_at_stack, stack_pos_of, required_plots, split_at, stack_index, split_stem};

verus! {

/// The state of one layout toggle: whether it is pressed, and whether the user may press it.
#[derive(Debug, Clone, Copy, PartialEq, Eq, Structural)]
pub struct ToggleState {
    pub active: bool,
    pub sensitive: bool,
}

/// The plot-selection toolbar: one page of toggles per split (page `p` has one toggle
/// per plot of `split_at(p)`), the page on show, the selected plot on it, and whether
/// the toolbar is open to the user.
pub struct GroupSelection {
    group: usize,
    area: Option<usize>,
    sensitive: bool,
    toggles: Vec<Vec<ToggleState>>,
}

/// Every toggle made sensitive (or not), pressed state kept.
pub open spec fn with_sensitivity(t: Seq<Seq<ToggleState>>, s: bool) -> Seq<Seq<ToggleState>> {
    Seq::new(t.len(), |p: int| Seq::new(t[p].len(), |i: int| ToggleState { active: t[p][i].active, sensitive: s }))
}

/// Every toggle released, sensitivity kept.
pub open spec fn released(t: Seq<Seq<ToggleState>>) -> Seq<Seq<ToggleState>> {
    Seq::new(t.len(), |p: int| Seq::new(t[p].len(), |i: int| ToggleState { active: false, sensitive: t[p][i].sensitive }))
}

/// A toolbar with nothing pressed and everything sensitive.
pub open spec fn fresh_toggles() -> Seq<Seq<ToggleState>> {
    Seq::new(8, |p: int| Seq::new(plots_of(split_at_stack(p as usize)), |i: int| ToggleState { active: false, sensitive: true }))
}

/// Page `pos` made sensitive with only toggle `sel` pressed; other pages kept.
pub open spec fn selecting(t: Seq<Seq<ToggleState>>, pos: int, sel: usize) -> Seq<Seq<ToggleState>> {
    t.update(pos, Seq::new(t[pos].len(), |i: int| ToggleState { active: i == sel, sensitive: true }))
}

/// Page `page` after its toggle `i` is pressed: its other toggles are released,
/// sensitivity kept; other pages kept.
pub open spec fn toggled_page(t: Seq<Seq<ToggleState>>, page: int, i: int) -> Seq<Seq<ToggleState>> {
    t.update(page, Seq::new(t[page].len(), |k: int| if k == i { t[page][k] } else {
        ToggleState { active: false, sensitive: t[page][k].sensitive }
    }))
}

/// How many toggles the toolbar page named `prefix` holds: one for `unique`,
/// two for `vert` and `horiz`, three for a name starting with `three`, four
/// otherwise.
pub open spec fn buttons_for_prefix(prefix: Seq<char>) -> nat {
    if prefix == "unique"@ {
        1
    } else if prefix == "vert"@ || prefix == "horiz"@ {
        2
    } else if prefix.len() >= 5 && prefix.take(5) == "three"@ {
        3
    } else {
        4
    }
}

/// The shape every toolbar has: eight pages, page `p` with one toggle per plot of its split.
pub open spec fn shaped(t: Seq<Seq<ToggleState>>) -> bool {
    &&& t.len() == 8
    &&& forall|p: int| 0 <= p < 8 ==> #[trigger] t[p].len() == plots_of(split_at_stack(p as usize))
}

impl GroupSelection {
    pub closed spec fn group(&self) -> usize {
        self.group
    }

    pub closed spec fn area(&self) -> Option<usize> {
        self.area
    }

    pub closed spec fn is_sensitive(&self) -> bool {
        self.sensitive
    }

    pub closed spec fn toggles(&self) -> Seq<Seq<ToggleState>> {
        Seq::new(self.toggles@.len(), |p: int| self.toggles@[p]@)
    }

    pub closed spec fn wf(&self) -> bool {
        &&& self.group < 8
        &&& shaped(self.toggles())
    }

    /// A well-formed toolbar shows one of the eight pages and has the toolbar
    /// shape: eight pages, each with one toggle per plot of its split.
    pub proof fn lemma_wf_shaped(s: &GroupSelection)
        requires
            s.wf(),
        ensures
            s.group() < 8,
            shaped(s.toggles()),
    {
    }

    /// The state after `set_sensitive(s)`: the unique layout (page 0) is never sensitive.
    pub open spec fn after_set_sensitive(g: usize, sens: bool, t: Seq<Seq<ToggleState>>, s: bool)
        -> (bool, Seq<Seq<ToggleState>>) {
        if g != 0 {
            (s, with_sensitivity(t, s))
        } else {
            (sens, with_sensitivity(t, false))
        }
    }

    /// The toggles after `set_inactive()`: released unless the unique layout is on show.
    pub open spec fn after_set_inactive(g: usize, t: Seq<Seq<ToggleState>>) -> Seq<Seq<ToggleState>> {
        if g != 0 {
            released(t)
        } else {
            t
        }
    }

    /// The (area, sensitivity, toggles) after `set_active(pos, sel)` from page `g`.
    pub open spec fn after_set_active(g: usize, sens: bool, t: Seq<Seq<ToggleState>>, pos: usize, sel: usize)
        -> (Option<usize>, bool, Seq<Seq<ToggleState>>) {
        let t1 = selecting(Self::after_set_inactive(g, t), pos as int, sel);
        if pos == 0 {
            let (s2, t2) = Self::after_set_sensitive(0, sens, t1, false);
            (Some(sel), s2, t2)
        } else {
            (Some(sel), sens, t1)
        }
    }

    fn set_all_sensitive(&mut self, s: bool)
        requires
            old(self).wf(),
        ensures
            final(self).wf(),
            final(self).toggles() == with_sensitivity(old(self).toggles(), s),
            final(self).group == old(self).group,
            final(self).area == old(self).area,
            final(self).sensitive == old(self).sensitive,
    {
        let ghost t0 = self.toggles();
        let mut out: Vec<Vec<ToggleState>> = Vec::new();
        let mut p: usize = 0;
        while p < self.toggles.len()
            invariant
                self.wf(),
                t0 == self.toggles(),
                p <= self.toggles@.len(),
                out@.len() == p,
                forall|q: int| 0 <= q < p ==> #[trigger] out@[q]@ == with_sensitivity(t0, s)[q],
            decreases self.toggles@.len() - p,
        {
            let mut row: Vec<ToggleState> = Vec::new();
            let mut i: usize = 0;
            while i < self.toggles[p].len()
                invariant
                    self.wf(),
                    t0 == self.toggles(),
                    p < self.toggles@.len(),
                    i <= self.toggles@[p as int]@.len(),
                    row@.len() == i,
                    forall|k: int| 0 <= k < i ==> #[trigger] row@[k] == (ToggleState { active: t0[p as int][k].active, sensitive: s }),
                decreases self.toggles@[p as int]@.len() - i,
            {
                let a = self.toggles[p][i].active;
                row.push(ToggleState { active: a, sensitive: s });
                i = i + 1;
            }
            assert(row@ =~= with_sensitivity(t0, s)[p as int]);
            out.push(row);
            p = p + 1;
        }
        self.toggles = out;
        assert(self.toggles() =~= with_sensitivity(t0, s));
    }

    fn release_all(&mut self)
        requires
            old(self).wf(),
        ensures
            final(self).wf(),
            final(self).toggles() == released(old(self).toggles()),
            final(self).group == old(self).group,
            final(self).area == old(self).area,
            final(self).sensitive == old(self).sensitive,
    {
        let ghost t0 = self.toggles();
        let mut out: Vec<Vec<ToggleState>> = Vec::new();
        let mut p: usize = 0;
        while p < self.toggles.len()
            invariant
                self.wf(),
                t0 == self.toggles(),
                p <= self.toggles@.len(),
                out@.len() == p,
                forall|q: int| 0 <= q < p ==> #[trigger] out@[q]@ == released(t0)[q],
            decreases self.toggles@.len() - p,
        {
            let mut row: Vec<ToggleState> = Vec::new();
            let mut i: usize = 0;
            while i < self.toggles[p].len()
                invariant
                    self.wf(),
                    t0 == self.toggles(),
                    p < self.toggles@.len(),
                    i <= self.toggles@[p as int]@.len(),
                    row@.len() == i,
                    forall|k: int| 0 <= k < i ==> #[trigger] row@[k] == (ToggleState { active: false, sensitive: t0[p as int][k].sensitive }),
                decreases self.toggles@[p as int]@.len() - i,
            {
                let s = self.toggles[p][i].sensitive;
                row.push(ToggleState { active: false, sensitive: s });
                i = i + 1;
            }
            assert(row@ =~= released(t0)[p as int]);
            out.push(row);
            p = p + 1;
        }
        self.toggles = out;
        assert(self.toggles() =~= released(t0));
    }

    /// Opens or closes the toolbar to the user; the unique layout's toolbar stays closed.
    pub fn set_sensitive(&mut self, sensitive: bool)
        requires
            old(self).wf(),
        ensures
            final(self).wf(),
            final(self).group() == old(self).group(),
            final(self).area() == old(self).area(),
            (final(self).is_sensitive(), final(self).toggles()) == Self::after_set_sensitive(
                old(self).group(), old(self).is_sensitive(), old(self).toggles(), sensitive),
    {
        if self.group != 0 {
            self.set_all_sensitive(sensitive);
            self.sensitive = sensitive;
        } else {
            self.set_all_sensitive(false);
        }
    }

    /// Releases every toggle and forgets the selected plot (the unique layout keeps its toggle).
    pub fn set_inactive(&mut self)
        requires
            old(self).wf(),
        ensures
            final(self).wf(),
            final(self).group() == old(self).group(),
            final(self).is_sensitive() == old(self).is_sensitive(),
            final(self).toggles() == Self::after_set_inactive(old(self).group(), old(self).toggles()),
            final(self).area() == (if old(self).group() != 0 { None } else { old(self).area() }),
    {
        if self.group != 0 {
            self.release_all();
            self.area = None;
        }
    }

    /// Shows page `stack_pos` with plot `toggle_pos` selected.
    pub fn set_active(&mut self, stack_pos: usize, toggle_pos: usize)
        requires
            old(self).wf(),
            stack_pos < 8,
        ensures
            final(self).wf(),
            final(self).group() == stack_pos,
            (final(self).area(), final(self).is_sensitive(), final(self).toggles()) == Self::after_set_active(
                old(self).group(), old(self).is_sensitive(), old(self).toggles(), stack_pos, toggle_pos),
    {
        self.set_inactive();
        let ghost t1 = self.toggles();
        self.group = stack_pos;
        self.area = Some(toggle_pos);
        let n = self.toggles[stack_pos].len();
        let mut row: Vec<ToggleState> = Vec::new();
        let mut i: usize = 0;
        while i < n
            invariant
                i <= n,
                row@.len() == i,
                forall|k: int| 0 <= k < i ==> #[trigger] row@[k] == (ToggleState { active: k == toggle_pos, sensitive: true }),
            decreases n - i,
        {
            row.push(ToggleState { active: i == toggle_pos, sensitive: true });
            i = i + 1;
        }
        let ghost expected = selecting(t1, stack_pos as int, toggle_pos);
        assert(row@ =~= expected[stack_pos as int]);
        self.toggles.set(stack_pos, row);
        assert(self.toggles() =~= expected);
        assert(shaped(self.toggles()));
        if self.group == 0 {
            self.set_sensitive(false);
        }
    }

    /// A fresh toolbar: nothing pressed, everything sensitive, then the unique
    /// layout shown with its plot selected.
    pub fn new() -> (r: GroupSelection)
        ensures
            r.wf(),
            r.group() == 0,
            r.area() == Some(0usize),
            r.is_sensitive(),
            r.toggles() == with_sensitivity(selecting(fresh_toggles(), 0, 0), false),
    {
        let mut toggles: Vec<Vec<ToggleState>> = Vec::new();
        let ghost fresh = fresh_toggles();
        let mut p: usize = 0;
        while p < 8
            invariant
                p <= 8,
                toggles@.len() == p,
                fresh == fresh_toggles(),
                forall|q: int| 0 <= q < p ==> #[trigger] toggles@[q]@ == fresh[q],
            decreases 8 - p,
        {
            let n = required_plots(split_at(p));
            let mut row: Vec<ToggleState> = Vec::new();
            let mut i: usize = 0;
            while i < n
                invariant
                    i <= n,
                    row@.len() == i,
                    forall|k: int| 0 <= k < i ==> #[trigger] row@[k] == (ToggleState { active: false, sensitive: true }),
                decreases n - i,
            {
                row.push(ToggleState { active: false, sensitive: true });
                i = i + 1;
            }
            assert(row@ =~= fresh[p as int]);
            toggles.push(row);
            p = p + 1;
        }
        let mut g = GroupSelection { group: 0, area: None, sensitive: true, toggles };
        assert(g.toggles() =~= fresh);
        g.set_active(0, 0);
        g
    }

    /// Shows the page of `layout` (or keeps the page on show) with its first plot selected.
    pub fn set_active_default(&mut self, layout: Option<GroupSplit>)
        requires
            old(self).wf(),
        ensures
            final(self).wf(),
            ({
                let pos = match layout {
                    Some(l) => stack_pos_of(l),
                    None => old(self).group(),
                };
                &&& final(self).group() == pos
                &&& (final(self).area(), final(self).is_sensitive(), final(self).toggles())
                    == Self::after_set_active(old(self).group(), old(self).is_sensitive(), old(self).toggles(), pos, 0)
            }),
    {
        let pos = match layout {
            Some(l) => stack_index(l),
            None => self.group,
        };
        self.set_active(pos, 0);
    }

    /// Keeps the page on show, selecting plot `plot_ix`.
    pub fn switch_active_plot(&mut self, plot_ix: usize)
        requires
            old(self).wf(),
        ensures
            final(self).wf(),
            final(self).group() == old(self).group(),
            (final(self).area(), final(self).is_sensitive(), final(self).toggles()) == Self::after_set_active(
                old(self).group(), old(self).is_sensitive(), old(self).toggles(), old(self).group(), plot_ix),
    {
        let g = self.group;
        self.set_active(g, plot_ix);
    }

    /// The user pressed toggle `i` of page `page`: the other toggles of that page are
    /// released and plot `i` becomes the selected one.
    pub fn toggled_on(&mut self, page: usize, i: usize)
        requires
            old(self).wf(),
            page < 8,
            i < plots_of(split_at_stack(page)),
        ensures
            final(self).wf(),
            final(self).group() == old(self).group(),
            final(self).is_sensitive() == old(self).is_sensitive(),
            final(self).area() == Some(i),
            final(self).toggles() == toggled_page(old(self).toggles(), page as int, i as int),
    {
        let ghost t0 = self.toggles();
        let n = self.toggles[page].len();
        let mut row: Vec<ToggleState> = Vec::new();
        let mut k: usize = 0;
        while k < n
            invariant
                self.wf(),
                t0 == self.toggles(),
                page < 8,
                n == t0[page as int].len(),
                k <= n,
                row@.len() == k,
                forall|j: int| 0 <= j < k ==> #[trigger] row@[j] == (if j == i { t0[page as int][j] } else {
                    ToggleState { active: false, sensitive: t0[page as int][j].sensitive }
                }),
            decreases n - k,
        {
            let t = self.toggles[page][k];
            if k == i {
                row.push(t);
            } else {
                row.push(ToggleState { active: false, sensitive: t.sensitive });
            }
            k = k + 1;
        }
        let ghost expected = toggled_page(t0, page as int, i as int);
        assert(row@ =~= expected[page as int]);
        self.toggles.set(page, row);
        assert(self.toggles() =~= expected);
        assert(shaped(self.toggles()));
        self.area = Some(i);
    }

    /// Whether the toolbar is open to the user.
    pub fn get_sensitive(&self) -> (r: bool)
        ensures
            r == self.is_sensitive(),
    {
        self.sensitive
    }

    /// The toolbar page on show.
    pub fn get_group_ix(&self) -> (r: usize)
        ensures
            r == self.group(),
    {
        self.group
    }

    /// The selected plot, if any.
    pub fn get_active_area(&self) -> (r: Option<usize>)
        ensures
            r == self.area(),
    {
        self.area
    }

    /// Whether some plot is selected.
    pub fn any_selected(&self) -> (r: bool)
        ensures
            r == self.area().is_some(),
    {
        self.area.is_some()
    }

    /// The state of toggle `i` on page `page`.
    pub fn toggle_state(&self, page: usize, i: usize) -> (r: ToggleState)
        requires
            self.wf(),
            page < 8,
            i < self.toggles()[page as int].len(),
        ensures
            r == self.toggles()[page as int][i as int],
    {
        self.toggles[page][i]
    }
}

/// The toolbar after `set_sensitive(b)`.
pub open spec fn sensitivity_set(s: (usize, Option<usize>, bool, Seq<Seq<ToggleState>>), b: bool)
    -> (usize, Option<usize>, bool, Seq<Seq<ToggleState>>) {
    let (sens, t) = GroupSelection::after_set_sensitive(s.0, s.2, s.3, b);
    (s.0, s.1, sens, t)
}

/// The toolbar after `set_inactive()`.
pub open spec fn made_inactive(s: (usize, Option<usize>, bool, Seq<Seq<ToggleState>>))
    -> (usize, Option<usize>, bool, Seq<Seq<ToggleState>>) {
    (s.0, if s.0 != 0 { None } else { s.1 }, s.2, GroupSelection::after_set_inactive(s.0, s.3))
}

/// The toolbar after `switch_active_plot(ix)`.
pub open spec fn plot_switched(s: (usize, Option<usize>, bool, Seq<Seq<ToggleState>>), ix: usize)
    -> (usize, Option<usize>, bool, Seq<Seq<ToggleState>>) {
    let (a, sens, t) = GroupSelection::after_set_active(s.0, s.2, s.3, s.0, ix);
    (s.0, a, sens, t)
}

/// The toolbar after it is opened (if closed), switched to plot `ix`, and closed.
pub open spec fn focused(s: (usize, Option<usize>, bool, Seq<Seq<ToggleState>>), ix: usize)
    -> (usize, Option<usize>, bool, Seq<Seq<ToggleState>>) {
    sensitivity_set(plot_switched(if s.2 { s } else { sensitivity_set(s, true) }, ix), false)
}

/// The toolbar after its selection is dropped and it is closed.
pub open spec fn cleared(s: (usize, Option<usize>, bool, Seq<Seq<ToggleState>>))
    -> (usize, Option<usize>, bool, Seq<Seq<ToggleState>>) {
    sensitivity_set(made_inactive(s), false)
}

impl GroupSelection {
    /// The whole state: page on show, selected plot, whether open, toggles.
    pub open spec fn state(&self) -> (usize, Option<usize>, bool, Seq<Seq<ToggleState>>) {
        (self.group(), self.area(), self.is_sensitive(), self.toggles())
    }

    /// Points the toolbar at plot `plot_ix` of the page on show, leaving it closed
    /// to the user (it is opened first if it was closed, as switching needs).
    pub fn focus_plot(&mut self, plot_ix: usize)
        requires
            old(self).wf(),
        ensures
            final(self).wf(),
            final(self).state() == focused(old(self).state(), plot_ix),
    {
        if !self.get_sensitive() {
            self.set_sensitive(true);
        }
        self.switch_active_plot(plot_ix);
        self.set_sensitive(false);
    }

    /// Drops the selected plot and closes the toolbar.
    pub fn clear_selection(&mut self)
        requires
            old(self).wf(),
        ensures
            final(self).wf(),
            final(self).state() == cleared(old(self).state()),
    {
        self.set_inactive();
        self.set_sensitive(false);
    }
}

/// Selecting a plot of a page presses exactly that plot's toggle on the page and
/// selects that plot; the unique layout's toolbar then stays closed to the user,
/// any other page is left open.
pub proof fn lemma_set_active_selects(g: usize, sens: bool, t: Seq<Seq<ToggleState>>, pos: usize, sel: usize)
    requires
        shaped(t),
        pos < 8,
        sel < plots_of(split_at_stack(pos)),
    ensures
        ({
            let (a, s2, t2) = GroupSelection::after_set_active(g, sens, t, pos, sel);
            &&& a == Some(sel)
            &&& shaped(t2)
            &&& t2[pos as int][sel as int].active
            &&& forall|k: int| 0 <= k < t2[pos as int].len() && k != sel ==> !(#[trigger] t2[pos as int][k]).active
            &&& pos == 0 ==> forall|p: int, i: int| 0 <= p < 8 && 0 <= i < t2[p].len() ==> !(#[trigger] t2[p][i]).sensitive
            &&& pos != 0 ==> forall|i: int| 0 <= i < t2[pos as int].len() ==> (#[trigger] t2[pos as int][i]).sensitive
        }),
{
    let t0 = GroupSelection::after_set_inactive(g, t);
    assert(shaped(t0));
    let t1 = selecting(t0, pos as int, sel);
    assert(shaped(t1));
    if pos == 0 {
        assert(shaped(with_sensitivity(t1, false)));
    }
}

/// Opening or closing a toolbar that shows a split other than the unique layout
/// opens or closes every toggle and the toolbar itself, and keeps which are pressed.
pub proof fn lemma_set_sensitive_open(g: usize, sens: bool, t: Seq<Seq<ToggleState>>, s: bool)
    requires
        shaped(t),
        g != 0,
    ensures
        ({
            let (s2, t2) = GroupSelection::after_set_sensitive(g, sens, t, s);
            &&& s2 == s
            &&& shaped(t2)
            &&& forall|p: int, i: int| 0 <= p < 8 && 0 <= i < t2[p].len() ==>
                (#[trigger] t2[p][i]).sensitive == s && t2[p][i].active == t[p][i].active
        }),
{
}


/// Pressing toggle `i` of a page leaves it the only pressed toggle of that page,
/// keeps every other page as it was, and keeps the toolbar's shape; the pressed
/// plot becomes the selected one (`toggled_on` sets the area to `Some(i)`).
pub proof fn lemma_toggled_on_exclusive(t: Seq<Seq<ToggleState>>, page: usize, i: usize)
    requires
        shaped(t),
        page < 8,
        i < plots_of(split_at_stack(page)),
        t[page as int][i as int].active,
    ensures
        ({
            let t2 = toggled_page(t, page as int, i as int);
            &&& shaped(t2)
            &&& t2[page as int][i as int].active
            &&& forall|k: int| 0 <= k < t2[page as int].len() && k != i ==> !(#[trigger] t2[page as int][k]).active
            &&& forall|p: int| 0 <= p < 8 && p != page ==> #[trigger] t2[p] == t[p]
        }),
{
    let t2 = toggled_page(t, page as int, i as int);
    assert forall|p: int| 0 <= p < 8 implies #[trigger] t2[p].len() == plots_of(split_at_stack(p as usize)) by {
        if p != page {
            assert(t2[p] == t[p]);
        }
    }
}

/// Each toolbar page holds as many toggles as its name calls for: one for the
/// `unique` page, two for `vert` and `horiz`, three for the `three-*` pages and
/// four for `four`, which is the number of plots of the page's split.
pub proof fn lemma_page_sizes_by_name(s: &GroupSelection)
    requires
        s.wf(),
    ensures
        forall|p: int| 0 <= p < 8 ==> (#[trigger] s.toggles()[p]).len()
            == buttons_for_prefix(split_stem(split_at_stack(p as usize))),
{
    reveal_strlit("unique");
    reveal_strlit("vert");
    reveal_strlit("horiz");
    reveal_strlit("four");
    reveal_strlit("three");
    reveal_strlit("three-left");
    reveal_strlit("three-top");
    reveal_strlit("three-right");
    reveal_strlit("three-bottom");
    assert("three-left"@.take(5) =~= "three"@);
    assert("three-top"@.take(5) =~= "three"@);
    assert("three-right"@.take(5) =~= "three"@);
    assert("three-bottom"@.take(5) =~= "three"@);
    assert("four"@[0] == 'f' && "four"@.len() == 4);
    assert("unique"@[0] == 'u' && "vert"@[0] == 'v' && "horiz"@[0] == 'h');
    assert("three-left"@[0] == 't' && "three-top"@[0] == 't');
    assert("three-right"@[0] == 't' && "three-bottom"@[0] == 't');
}

} // verus!
