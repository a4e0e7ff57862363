use vstd::prelude::*;

verus! {

/// Which mapping the plot popover shows: the plot selected, the positions (in
/// the popover's stack of mapping pages) of the mappings of each plot, and the
/// position, within the selected plot's list, of the mapping on show.
#[derive(Debug)]
pub struct MappingSelection {
    pub plot_ix: usize,
    pub valid_ix: Vec<Vec<usize>>,
    pub curr_ix: Option<usize>,
}

/// Which of the popover's table, forward and backward buttons can be pressed.
#[derive(Debug, Clone, Copy, PartialEq, Eq, Structural)]
pub struct NavButtons {
    pub table: bool,
    pub forward: bool,
    pub backward: bool,
}

/// The mapping lists of a selection.
pub open spec fn lists(v: Seq<Vec<usize>>) -> Seq<Seq<usize>> {
    Seq::new(v.len(), |p: int| v[p]@)
}

/// The buttons offered for `n` mappings on the selected plot, `curr` being the
/// one on show: none without mappings; only the table with one; with several,
/// forward unless at the last and backward unless at the first (no change when
/// none is on show).
pub open spec fn nav_buttons(n: nat, curr: Option<usize>) -> Option<NavButtons> {
    if n == 0 {
        Some(NavButtons { table: false, forward: false, backward: false })
    } else if n == 1 {
        Some(NavButtons { table: true, forward: false, backward: false })
    } else {
        match curr {
            Some(c) => if c == 0 {
                Some(NavButtons { table: true, forward: true, backward: false })
            } else if c == n - 1 {
                Some(NavButtons { table: true, forward: false, backward: true })
            } else {
                Some(NavButtons { table: true, forward: true, backward: true })
            },
            None => None,
        }
    }
}

/// The position the selection moves to when navigating from `curr` among `n`
/// mappings, if it moves (it moves only from a position within the list).
pub open spec fn nav_target(n: nat, curr: Option<usize>, forward: bool) -> Option<int> {
    match curr {
        Some(c) => if c < n {
            Some(if forward { c + 1 } else { c - 1 })
        } else {
            None
        },
        None => None,
    }
}

/// Where the mapping `ix` lies: the first plot whose list holds it, and its
/// first position there.
pub open spec fn holder(v: Seq<Seq<usize>>, ix: usize) -> Option<(int, int)> {
    if exists|p: int| 0 <= p < v.len() && v[p].contains(ix) {
        let p = choose|p: int| 0 <= p < v.len() && v[p].contains(ix)
            && forall|q: int| 0 <= q < p ==> !(#[trigger] v[q]).contains(ix);
        let m = choose|m: int| 0 <= m < v[p].len() && v[p][m] == ix
            && forall|k: int| 0 <= k < m ==> (#[trigger] v[p][k]) != ix;
        Some((p, m))
    } else {
        None
    }
}

fn position_of(v: &Vec<usize>, x: usize) -> (r: Option<usize>)
    ensures
        match r {
            Some(m) => m < v@.len() && v@[m as int] == x && forall|k: int| 0 <= k < m ==> v@[k] != x,
            None => !v@.contains(x),
        },
{
    let mut k: usize = 0;
    while k < v.len()
        invariant
            k <= v@.len(),
            forall|q: int| 0 <= q < k ==> v@[q] != x,
        decreases v@.len() - k,
    {
        if v[k] == x {
            return Some(k);
        }
        k = k + 1;
    }
    None
}

fn find_holder(v: &Vec<Vec<usize>>, ix: usize) -> (r: Option<(usize, usize)>)
    ensures
        match r {
            Some((p, m)) => {
                &&& p < v@.len()
                &&& m < v@[p as int]@.len()
                &&& v@[p as int]@[m as int] == ix
                &&& forall|q: int| 0 <= q < p ==> !(#[trigger] v@[q]@).contains(ix)
                &&& forall|k: int| 0 <= k < m ==> v@[p as int]@[k] != ix
            },
            None => forall|q: int| 0 <= q < v@.len() ==> !(#[trigger] v@[q]@).contains(ix),
        },
{
    let mut p: usize = 0;
    while p < v.len()
        invariant
            p <= v@.len(),
            forall|q: int| 0 <= q < p ==> !(#[trigger] v@[q]@).contains(ix),
        decreases v@.len() - p,
    {
        match position_of(&v[p], ix) {
            Some(m) => {
                return Some((p, m));
            },
            None => {},
        }
        p = p + 1;
    }
    None
}

fn shift_after(list: &mut Vec<usize>, m: usize)
    requires
        forall|q: int| m <= q < old(list)@.len() ==> #[trigger] old(list)@[q] > 0,
    ensures
        final(list)@ == Seq::new(old(list)@.len(), |q: int| if q >= m { (old(list)@[q] - 1) as usize } else { old(list)@[q] }),
{
    let ghost start = list@;
    let mut k: usize = m;
    if k > list.len() {
        assert(list@ =~= Seq::new(start.len(), |q: int| if q >= m { (start[q] - 1) as usize } else { start[q] }));
        return;
    }
    while k < list.len()
        invariant
            m <= k <= list@.len(),
            list@.len() == start.len(),
            forall|q: int| m <= q < start.len() ==> #[trigger] start[q] > 0,
            forall|q: int| 0 <= q < list@.len() ==> #[trigger] list@[q] == (if m <= q < k { (start[q] - 1) as usize } else { start[q] }),
        decreases list@.len() - k,
    {
        let x = list[k];
        list.set(k, x - 1);
        k = k + 1;
    }
    assert(list@ =~= Seq::new(start.len(), |q: int| if q >= m { (start[q] - 1) as usize } else { start[q] }));
}

impl MappingSelection {
    /// No plot's mapping selected: plot 0 and four empty lists.
    pub fn new() -> (r: MappingSelection)
        ensures
            r.plot_ix == 0,
            lists(r.valid_ix@) == seq![Seq::<usize>::empty(), Seq::empty(), Seq::empty(), Seq::empty()],
            r.curr_ix is None,
    {
        let mut valid_ix: Vec<Vec<usize>> = Vec::new();
        valid_ix.push(Vec::new());
        valid_ix.push(Vec::new());
        valid_ix.push(Vec::new());
        valid_ix.push(Vec::new());
        let r = MappingSelection { plot_ix: 0, valid_ix, curr_ix: None };
        assert(lists(r.valid_ix@) =~= seq![Seq::<usize>::empty(), Seq::empty(), Seq::empty(), Seq::empty()]);
        r
    }

    /// Forgets every mapping: plot 0, every list emptied, nothing on show.
    pub fn clear(&mut self)
        ensures
            final(self).plot_ix == 0,
            final(self).curr_ix is None,
            lists(final(self).valid_ix@) == Seq::new(old(self).valid_ix@.len(), |p: int| Seq::<usize>::empty()),
    {
        self.plot_ix = 0;
        let n = self.valid_ix.len();
        let mut out: Vec<Vec<usize>> = Vec::new();
        let mut p: usize = 0;
        while p < n
            invariant
                p <= n,
                out@.len() == p,
                forall|q: int| 0 <= q < p ==> (#[trigger] out@[q])@ == Seq::<usize>::empty(),
            decreases n - p,
        {
            out.push(Vec::new());
            p = p + 1;
        }
        self.valid_ix = out;
        self.curr_ix = None;
        assert(lists(self.valid_ix@) =~= Seq::new(old(self).valid_ix@.len(), |p: int| Seq::<usize>::empty()));
    }

    /// The buttons to offer for the selected plot (`None`: leave them as they are).
    pub fn update_nav_sensitive(&self) -> (r: Option<NavButtons>)
        requires
            self.plot_ix < self.valid_ix@.len(),
        ensures
            r == nav_buttons(self.valid_ix@[self.plot_ix as int]@.len(), self.curr_ix),
    {
        let curr_sz = self.valid_ix[self.plot_ix].len();
        if curr_sz == 0 {
            Some(NavButtons { table: false, forward: false, backward: false })
        } else if curr_sz == 1 {
            Some(NavButtons { table: true, forward: false, backward: false })
        } else {
            match self.curr_ix {
                Some(c) => {
                    if c == 0 {
                        Some(NavButtons { table: true, forward: true, backward: false })
                    } else if c == curr_sz - 1 {
                        Some(NavButtons { table: true, forward: false, backward: true })
                    } else {
                        Some(NavButtons { table: true, forward: true, backward: true })
                    }
                },
                None => None,
            }
        }
    }

    /// Moves to the next (or previous) mapping of the selected plot, returning the
    /// stack page to show (the mapping's position plus one, past the empty
    /// page); nothing moves when no mapping within the list is on show.
    pub fn navigate(&mut self, forward: bool) -> (r: Option<usize>)
        requires
            old(self).plot_ix < old(self).valid_ix@.len(),
            nav_target(old(self).valid_ix@[old(self).plot_ix as int]@.len(), old(self).curr_ix, forward) matches Some(t)
                ==> 0 <= t < old(self).valid_ix@[old(self).plot_ix as int]@.len()
                && old(self).valid_ix@[old(self).plot_ix as int]@[t] < usize::MAX,
        ensures
            final(self).plot_ix == old(self).plot_ix,
            final(self).valid_ix == old(self).valid_ix,
            match nav_target(old(self).valid_ix@[old(self).plot_ix as int]@.len(), old(self).curr_ix, forward) {
                Some(t) => final(self).curr_ix == Some(t as usize)
                    && r == Some((old(self).valid_ix@[old(self).plot_ix as int]@[t] + 1) as usize),
                None => final(self).curr_ix == old(self).curr_ix && r is None,
            },
    {
        match self.curr_ix {
            Some(c) => {
                if c < self.valid_ix[self.plot_ix].len() {
                    let new_ix = if forward { c + 1 } else { c - 1 };
                    self.curr_ix = Some(new_ix);
                    Some(self.valid_ix[self.plot_ix][new_ix] + 1)
                } else {
                    None
                }
            },
            None => None,
        }
    }

    /// Moves mapping `src_ix` from plot `src_plot`'s list to the end of plot
    /// `dst_plot`'s; says whether it was found.
    pub fn replace_mapping(&mut self, src_plot: usize, src_ix: usize, dst_plot: usize) -> (r: bool)
        requires
            src_plot < old(self).valid_ix@.len(),
            dst_plot < old(self).valid_ix@.len(),
        ensures
            final(self).plot_ix == old(self).plot_ix,
            final(self).curr_ix == old(self).curr_ix,
            r == old(self).valid_ix@[src_plot as int]@.contains(src_ix),
            !r ==> final(self).valid_ix == old(self).valid_ix,
            r ==> ({
                let old_lists = lists(old(self).valid_ix@);
                let m = choose|m: int| 0 <= m < old_lists[src_plot as int].len() && old_lists[src_plot as int][m] == src_ix
                    && forall|k: int| 0 <= k < m ==> (#[trigger] old_lists[src_plot as int][k]) != src_ix;
                let removed = old_lists.update(src_plot as int, old_lists[src_plot as int].remove(m));
                lists(final(self).valid_ix@) == removed.update(dst_plot as int, removed[dst_plot as int].push(src_ix))
            }),
    {
        match position_of(&self.valid_ix[src_plot], src_ix) {
            Some(m) => {
                let ghost old_lists = lists(self.valid_ix@);
                let mut src = self.valid_ix[src_plot].clone();
                assert(src@ == old_lists[src_plot as int]);
                src.remove(m);
                self.valid_ix.set(src_plot, src);
                let ghost removed = lists(self.valid_ix@);
                let mut dst = self.valid_ix[dst_plot].clone();
                dst.push(src_ix);
                self.valid_ix.set(dst_plot, dst);
                proof {
                    let w = choose|w: int| 0 <= w < old_lists[src_plot as int].len() && old_lists[src_plot as int][w] == src_ix
                        && forall|k: int| 0 <= k < w ==> (#[trigger] old_lists[src_plot as int][k]) != src_ix;
                    if w < m {
                        assert(old_lists[src_plot as int][w] == src_ix);
                    } else if w > m {
                        assert(old_lists[src_plot as int][m as int] != src_ix);
                    }
                    assert(w == m);
                    assert(removed =~= old_lists.update(src_plot as int, old_lists[src_plot as int].remove(m as int)));
                    assert(lists(self.valid_ix@) =~= removed.update(dst_plot as int, removed[dst_plot as int].push(src_ix)));
                }
                true
            },
            None => false,
        }
    }

    /// Adds mapping `pos` (a stack page not yet listed for that plot) to plot
    /// `pl_ix`, which becomes the selected plot with the new mapping on show.
    pub fn add_mapping(&mut self, pl_ix: usize, pos: usize)
        requires
            pl_ix < old(self).valid_ix@.len(),
            !old(self).valid_ix@[pl_ix as int]@.contains(pos),
        ensures
            lists(final(self).valid_ix@) == lists(old(self).valid_ix@).update(pl_ix as int, old(self).valid_ix@[pl_ix as int]@.push(pos)),
            final(self).plot_ix == pl_ix,
            final(self).curr_ix == Some(old(self).valid_ix@[pl_ix as int]@.len() as usize),
    {
        let mut v = self.valid_ix[pl_ix].clone();
        v.push(pos);
        let n = v.len();
        self.valid_ix.set(pl_ix, v);
        self.curr_ix = Some(n - 1);
        self.plot_ix = pl_ix;
        assert(lists(self.valid_ix@) =~= lists(old(self).valid_ix@).update(pl_ix as int, old(self).valid_ix@[pl_ix as int]@.push(pos)));
    }

    /// Forgets mapping `ix` (found in the first plot's list that holds it): the
    /// mappings listed after it in that list move one stack page back; the plot
    /// shows its first mapping, or, when it has none left, the selection goes back
    /// to plot 0 with nothing on show.
    pub fn remove_mapping_at_ix(&mut self, ix: usize)
        requires
            holder(lists(old(self).valid_ix@), ix) is Some,
            ({
                let (p, m) = holder(lists(old(self).valid_ix@), ix)->0;
                forall|k: int| m < k < old(self).valid_ix@[p]@.len() ==> #[trigger] old(self).valid_ix@[p]@[k] > 0
            }),
        ensures
            ({
                let (p, m) = holder(lists(old(self).valid_ix@), ix)->0;
                let kept = old(self).valid_ix@[p]@.remove(m);
                let shifted = Seq::new(kept.len(), |k: int| if k >= m { (kept[k] - 1) as usize } else { kept[k] });
                &&& lists(final(self).valid_ix@) == lists(old(self).valid_ix@).update(p, shifted)
                &&& shifted.len() == 0 ==> final(self).plot_ix == 0 && final(self).curr_ix is None
                &&& shifted.len() > 0 ==> final(self).plot_ix == old(self).plot_ix && final(self).curr_ix == Some(0usize)
            }),
    {
        let ghost v = lists(self.valid_ix@);
        let ghost h = holder(v, ix)->0;
        let (pl, m) = match find_holder(&self.valid_ix, ix) {
            Some(f) => f,
            None => {
                proof {
                    let q = choose|q: int| 0 <= q < v.len() && v[q].contains(ix);
                    assert(!v[q].contains(ix));
                }
                return;
            },
        };
        proof {
            assert(v[pl as int][m as int] == ix);
            assert(v[pl as int].contains(ix));
            assert(forall|q: int| 0 <= q < pl ==> !(#[trigger] v[q]).contains(ix));
            assert(forall|k: int| 0 <= k < m ==> (#[trigger] v[pl as int][k]) != ix);
            let hp = h.0;
            let hm = h.1;
            if hp < pl {
                assert(v[hp].contains(ix));
            } else if hp > pl {
                assert(forall|q: int| 0 <= q < hp ==> !(#[trigger] v[q]).contains(ix));
                assert(v[pl as int][m as int] == ix);
            }
            assert(hp == pl);
            if hm < m {
                assert(v[pl as int][hm] == ix);
            } else if hm > m {
                assert(v[pl as int][m as int] == ix);
            }
            assert(hm == m);
        }
        let mut list = self.valid_ix[pl].clone();
        assert(list@ == v[pl as int]);
        list.remove(m);
        let ghost kept = list@;
        assert(forall|q: int| m <= q < kept.len() ==> #[trigger] kept[q] == v[pl as int][q + 1]);
        shift_after(&mut list, m);
        let empty = list.len() == 0;
        self.valid_ix.set(pl, list);
        if empty {
            self.plot_ix = 0;
            self.curr_ix = None;
        } else {
            self.curr_ix = Some(0);
        }
        assert(lists(self.valid_ix@) =~= v.update(pl as int, Seq::new(kept.len(), |q: int| if q >= m { (kept[q] - 1) as usize } else { kept[q] })));
    }

    /// Makes `curr_ix` the mapping on show for plot `plot_ix`.
    pub fn set_active_mapping(&mut self, plot_ix: usize, curr_ix: Option<usize>) -> (r: Option<usize>)
        requires
            plot_ix < old(self).valid_ix@.len(),
        ensures
            final(self).valid_ix == old(self).valid_ix,
            final(self).plot_ix == old(self).plot_ix,
            final(self).curr_ix == curr_ix,
            r == match curr_ix {
                Some(c) => if c < old(self).valid_ix@[plot_ix as int]@.len() {
                    Some(old(self).valid_ix@[plot_ix as int]@[c as int])
                } else {
                    None
                },
                None => None,
            },
    {
        self.curr_ix = curr_ix;
        match curr_ix {
            Some(c) => {
                if c < self.valid_ix[plot_ix].len() {
                    Some(self.valid_ix[plot_ix][c])
                } else {
                    None
                }
            },
            None => None,
        }
    }

    /// The stack page to show among `n_children` pages (the first is the empty
    /// one): the empty page when there are no mappings, else the page after the
    /// one of the mapping on show; `None` when there is no such page.
    pub fn update_stack(&self, n_children: usize) -> (r: Option<usize>)
        requires
            self.plot_ix < self.valid_ix@.len(),
        ensures
            r == (if n_children == 1 || self.valid_ix@[self.plot_ix as int]@.len() == 0 {
                Some(0usize)
            } else {
                match self.curr_ix {
                    Some(c) => if c + 1 < n_children { Some((c + 1) as usize) } else { None },
                    None => None,
                }
            }),
    {
        if n_children == 1 || self.valid_ix[self.plot_ix].len() == 0 {
            Some(0)
        } else {
            match self.curr_ix {
                Some(c) => {
                    if n_children > 0 && c < n_children - 1 {
                        Some(c + 1)
                    } else {
                        None
                    }
                },
                None => None,
            }
        }
    }
}

/// Navigating with a button the popover offers never leaves the selected plot's
/// list: forward is offered only before the last mapping, backward only after
/// the first, and either way the new position is within the list.
pub proof fn lemma_offered_navigation_stays_in_range(n: nat, curr: Option<usize>, forward: bool)
    requires
        curr matches Some(c) ==> c < n,
        nav_buttons(n, curr) matches Some(b) && (if forward { b.forward } else { b.backward }),
    ensures
        nav_target(n, curr, forward) matches Some(t) && 0 <= t < n,
{
}

} // verus!
