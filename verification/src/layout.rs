use vstd::prelude::*;
use crate::text::str_eq;
use crate::property_map::PropertyMap;

verus! {

/// How a plot group divides its area among its plots.
#[derive(Debug, Clone, Copy, PartialEq, Eq, Hash, Structural)]
pub enum GroupSplit {
    Unique,
    Vertical,
    Horizontal,
    Four,
    ThreeLeft,
    ThreeTop,
    ThreeRight,
    ThreeBottom,
}

/// The name of a split in a layout file.
pub open spec fn split_name(s: GroupSplit) -> Seq<char> {
    match s {
        GroupSplit::Unique => "Unique"@,
        GroupSplit::Vertical => "Vertical"@,
        GroupSplit::Horizontal => "Horizontal"@,
        GroupSplit::Four => "Four"@,
        GroupSplit::ThreeLeft => "ThreeLeft"@,
        GroupSplit::ThreeTop => "ThreeTop"@,
        GroupSplit::ThreeRight => "ThreeRight"@,
        GroupSplit::ThreeBottom => "ThreeBottom"@,
    }
}

/// The split named `s` in a layout file, if any.
pub open spec fn split_of(s: Seq<char>) -> Option<GroupSplit> {
    if s == "Unique"@ {
        Some(GroupSplit::Unique)
    } else if s == "Four"@ {
        Some(GroupSplit::Four)
    } else if s == "Horizontal"@ {
        Some(GroupSplit::Horizontal)
    } else if s == "Vertical"@ {
        Some(GroupSplit::Vertical)
    } else if s == "ThreeLeft"@ {
        Some(GroupSplit::ThreeLeft)
    } else if s == "ThreeTop"@ {
        Some(GroupSplit::ThreeTop)
    } else if s == "ThreeRight"@ {
        Some(GroupSplit::ThreeRight)
    } else if s == "ThreeBottom"@ {
        Some(GroupSplit::ThreeBottom)
    } else {
        None
    }
}

/// The number of plots a split holds.
pub open spec fn plots_of(s: GroupSplit) -> nat {
    match s {
        GroupSplit::Unique => 1,
        GroupSplit::Vertical => 2,
        GroupSplit::Horizontal => 2,
        GroupSplit::Four => 4,
        _ => 3,
    }
}

/// The complaint about a plot count that does not fit a split.
pub open spec fn count_error(s: GroupSplit) -> Seq<char> {
    match s {
        GroupSplit::Unique => "'None' split require 1 plot"@,
        GroupSplit::Vertical => "Vertical split require 2 plots"@,
        GroupSplit::Horizontal => "Horizontal split require 2 plots"@,
        GroupSplit::Four => "'Both' split require 4 plots"@,
        _ => "'Three' split require 3 plots"@,
    }
}

/// Reads the name of a split as written in a layout file.
pub fn split_from_name(name: &str) -> (r: Option<GroupSplit>)
    ensures
        r == split_of(name@),
{
    if str_eq(name, "Unique") {
        Some(GroupSplit::Unique)
    } else if str_eq(name, "Four") {
        Some(GroupSplit::Four)
    } else if str_eq(name, "Horizontal") {
        Some(GroupSplit::Horizontal)
    } else if str_eq(name, "Vertical") {
        Some(GroupSplit::Vertical)
    } else if str_eq(name, "ThreeLeft") {
        Some(GroupSplit::ThreeLeft)
    } else if str_eq(name, "ThreeTop") {
        Some(GroupSplit::ThreeTop)
    } else if str_eq(name, "ThreeRight") {
        Some(GroupSplit::ThreeRight)
    } else if str_eq(name, "ThreeBottom") {
        Some(GroupSplit::ThreeBottom)
    } else {
        None
    }
}

/// The number of plots a split holds.
pub fn required_plots(split: GroupSplit) -> (n: usize)
    ensures
        n == plots_of(split),
{
    match split {
        GroupSplit::Unique => 1,
        GroupSplit::Vertical => 2,
        GroupSplit::Horizontal => 2,
        GroupSplit::Four => 4,
        _ => 3,
    }
}

/// Checks that a split is given exactly as many plots as it holds.
pub fn check_plot_count(split: GroupSplit, n_plots: usize) -> (r: Result<(), String>)
    ensures
        match r {
            Ok(()) => n_plots == plots_of(split),
            Err(e) => n_plots != plots_of(split) && e@ == count_error(split),
        },
{
    if n_plots == required_plots(split) {
        return Ok(());
    }
    match split {
        GroupSplit::Unique => Err("'None' split require 1 plot".to_owned()),
        GroupSplit::Vertical => Err("Vertical split require 2 plots".to_owned()),
        GroupSplit::Horizontal => Err("Horizontal split require 2 plots".to_owned()),
        GroupSplit::Four => Err("'Both' split require 4 plots".to_owned()),
        _ => Err("'Three' split require 3 plots".to_owned()),
    }
}

/// One child node of a layout's root element: its element name, its `name`
/// attribute if it has one, its text content, and whether that content reads
/// as a number.
pub struct LayoutChild {
    pub name: String,
    pub attr_name: Option<String>,
    pub content: String,
    pub numeric: bool,
}

/// What a layout's root element declares: its split, the positions (among the
/// root's children) of its plot areas, and the texts of the ratios it sets.
pub struct GroupLayout {
    pub split: GroupSplit,
    pub plots: Vec<usize>,
    pub v_ratio: Option<String>,
    pub h_ratio: Option<String>,
}

pub open spec fn opt_view(o: Option<String>) -> Option<Seq<char>> {
    match o {
        Some(s) => Some(s@),
        None => None,
    }
}

/// The state of a scan over a root's children: the last split declared, the
/// positions of plot areas met, and the last vertical and horizontal ratio texts.
pub type ScanState = (Option<GroupSplit>, Seq<usize>, Option<Seq<char>>, Option<Seq<char>>);

/// Reads one child node at position `idx`.
pub open spec fn scan_step(st: ScanState, c: LayoutChild, idx: usize) -> Result<ScanState, Seq<char>> {
    let read = if c.name@ == "property"@ {
        match c.attr_name {
            Some(a) => if a@ == "vertical_ratio"@ {
                if c.numeric {
                    Ok((st.0, st.1, Some(c.content@), st.3))
                } else {
                    Err("Unabe to parse vertical ratio"@)
                }
            } else if a@ == "horizontal_ratio"@ {
                if c.numeric {
                    Ok((st.0, st.1, st.2, Some(c.content@)))
                } else {
                    Err("Unabe to parse horizontal ratio"@)
                }
            } else if a@ == "split"@ {
                match split_of(c.content@) {
                    Some(sp) => Ok((Some(sp), st.1, st.2, st.3)),
                    None => Err("Unrecognized split value"@),
                }
            } else {
                Err("Unknown property"@)
            },
            None => Err("Unknown property"@),
        }
    } else {
        Ok(st)
    };
    match read {
        Ok(st2) => if c.name@ == "plotarea"@ {
            Ok((st2.0, st2.1.push(idx), st2.2, st2.3))
        } else {
            Ok(st2)
        },
        Err(e) => Err(e),
    }
}

/// Reads the first `n` children, stopping at the first that is refused.
pub open spec fn scan_children(ch: Seq<LayoutChild>, n: nat) -> Result<ScanState, Seq<char>>
    decreases n,
{
    if n == 0 {
        Ok((None, Seq::empty(), None, None))
    } else {
        match scan_children(ch, (n - 1) as nat) {
            Ok(st) => scan_step(st, ch[n - 1], (n - 1) as usize),
            Err(e) => Err(e),
        }
    }
}

/// What a layout whose root element is named `root` and has children `ch` declares,
/// or why it is refused.
pub open spec fn group_layout_of(root: Seq<char>, ch: Seq<LayoutChild>) -> Result<ScanState, Seq<char>> {
    if root != "plotgroup"@ {
        Err("Root node should be called plotgroup"@)
    } else {
        match scan_children(ch, ch.len()) {
            Err(e) => Err(e),
            Ok(st) => {
                let split = match st.0 {
                    Some(sp) => sp,
                    None => GroupSplit::Unique,
                };
                if st.1.len() == 0 {
                    Err("Root node plotgroup does not contain any plotarea children."@)
                } else if st.1.len() != plots_of(split) {
                    Err(count_error(split))
                } else {
                    Ok((Some(split), st.1, st.2, st.3))
                }
            },
        }
    }
}

/// Once the scan refuses a child, it refuses the rest of the children with the same complaint.
proof fn lemma_scan_err_persists(ch: Seq<LayoutChild>, k: nat, m: nat)
    requires
        k <= m,
        scan_children(ch, k) is Err,
    ensures
        scan_children(ch, m) == scan_children(ch, k),
    decreases m - k,
{
    if m > k {
        lemma_scan_err_persists(ch, k, (m - 1) as nat);
    }
}

fn clone_opt(o: &Option<String>) -> (r: Option<String>)
    ensures
        opt_view(r) == opt_view(*o),
{
    match o {
        Some(s) => Some(s.clone()),
        None => None,
    }
}

/// Reads what a plot-group layout declares: the root must be named `plotgroup`;
/// `property` children set the ratios (which must read as numbers) and the split (which
/// must be a known one), any other property is refused; `plotarea` children are
/// the plots, of which there must be as many as the split holds (the split is
/// `Unique` unless declared).
pub fn read_group_layout(root_name: &str, children: &Vec<LayoutChild>) -> (r: Result<GroupLayout, String>)
    ensures
        match r {
            Ok(g) => group_layout_of(root_name@, children@) == Ok::<ScanState, Seq<char>>(
                (Some(g.split), g.plots@, opt_view(g.v_ratio), opt_view(g.h_ratio)),
            ),
            Err(e) => group_layout_of(root_name@, children@) == Err::<ScanState, Seq<char>>(e@),
        },
{
    if !str_eq(root_name, "plotgroup") {
        return Err("Root node should be called plotgroup".to_owned());
    }
    let mut split: Option<GroupSplit> = None;
    let mut plots: Vec<usize> = Vec::new();
    let mut v_ratio: Option<String> = None;
    let mut h_ratio: Option<String> = None;
    let mut i: usize = 0;
    while i < children.len()
        invariant
            root_name@ == "plotgroup"@,
            i <= children@.len(),
            scan_children(children@, i as nat) == Ok::<ScanState, Seq<char>>(
                (split, plots@, opt_view(v_ratio), opt_view(h_ratio)),
            ),
        decreases children@.len() - i,
    {
        let c = &children[i];
        proof {
            if scan_step((split, plots@, opt_view(v_ratio), opt_view(h_ratio)), children@[i as int], i) is Err {
                lemma_scan_err_persists(children@, (i + 1) as nat, children@.len());
            }
        }
        let ghost st: ScanState = (split, plots@, opt_view(v_ratio), opt_view(h_ratio));
        assert(scan_children(children@, (i + 1) as nat) == scan_step(st, children@[i as int], i));
        if str_eq(c.name.as_str(), "property") {
            match &c.attr_name {
                Some(a) => {
                    if str_eq(a.as_str(), "vertical_ratio") {
                        if c.numeric {
                            v_ratio = Some(c.content.clone());
                        } else {
                            assert(scan_step(st, children@[i as int], i) == Err::<ScanState, Seq<char>>("Unabe to parse vertical ratio"@));
                            proof { lemma_scan_err_persists(children@, (i + 1) as nat, children@.len()); }
                            return Err("Unabe to parse vertical ratio".to_owned());
                        }
                    } else if str_eq(a.as_str(), "horizontal_ratio") {
                        if c.numeric {
                            h_ratio = Some(c.content.clone());
                        } else {
                            assert(scan_step(st, children@[i as int], i) == Err::<ScanState, Seq<char>>("Unabe to parse horizontal ratio"@));
                            proof { lemma_scan_err_persists(children@, (i + 1) as nat, children@.len()); }
                            return Err("Unabe to parse horizontal ratio".to_owned());
                        }
                    } else if str_eq(a.as_str(), "split") {
                        match split_from_name(c.content.as_str()) {
                            Some(sp) => {
                                split = Some(sp);
                            },
                            None => {
                                return Err("Unrecognized split value".to_owned());
                            },
                        }
                    } else {
                        return Err("Unknown property".to_owned());
                    }
                },
                None => {
                    return Err("Unknown property".to_owned());
                },
            }
        }
        if str_eq(c.name.as_str(), "plotarea") {
            plots.push(i);
        }
        i = i + 1;
    }
    assert(children@.len() as nat == i as nat);
    let final_split = match split {
        Some(sp) => sp,
        None => GroupSplit::Unique,
    };
    if plots.len() == 0 {
        return Err("Root node plotgroup does not contain any plotarea children.".to_owned());
    }
    match check_plot_count(final_split, plots.len()) {
        Err(e) => Err(e),
        Ok(()) => Ok(GroupLayout { split: final_split, plots, v_ratio, h_ratio }),
    }
}

/// Where a plot of a group is drawn from, relative to the group's area: one of its
/// corners, or the point where a two-plot split divides it.
#[derive(Debug, Clone, Copy, PartialEq, Eq, Structural)]
pub enum Anchor {
    TopLeft,
    TopRight,
    BottomLeft,
    BottomRight,
    /// Below the horizontal division of a `Horizontal` split.
    BelowDivision,
    /// Right of the vertical division of a `Vertical` split.
    RightOfDivision,
}

/// What share of the group's width and height a plot takes, written in terms of
/// the horizontal ratio `h` and the vertical ratio `v`: `Part` is the ratio,
/// `Rest` its complement (1 - ratio), `Full` the whole extent.
#[derive(Debug, Clone, Copy, PartialEq, Eq, Structural)]
pub enum Share {
    Full,
    Part,
    Rest,
}

/// The anchor of plot `i` in a split.
pub open spec fn anchor_of(split: GroupSplit, i: usize) -> Anchor {
    match (split, i) {
        (GroupSplit::Horizontal, 1) => Anchor::BelowDivision,
        (GroupSplit::Vertical, 1) => Anchor::RightOfDivision,
        (GroupSplit::Four, 1) => Anchor::TopRight,
        (GroupSplit::Four, 2) => Anchor::BottomLeft,
        (GroupSplit::Four, 3) => Anchor::BottomRight,
        (GroupSplit::ThreeLeft, 1) => Anchor::TopRight,
        (GroupSplit::ThreeLeft, 2) => Anchor::BottomRight,
        (GroupSplit::ThreeTop, 1) => Anchor::BottomLeft,
        (GroupSplit::ThreeTop, 2) => Anchor::BottomRight,
        (GroupSplit::ThreeRight, 2) => Anchor::BottomLeft,
        (GroupSplit::ThreeBottom, 1) => Anchor::BottomLeft,
        (GroupSplit::ThreeBottom, 2) => Anchor::BottomRight,
        _ => Anchor::TopLeft,
    }
}

/// The (width, height) share of plot `i` in a split: the width goes by the
/// horizontal ratio, the height by the vertical one.
pub open spec fn share_of(split: GroupSplit, i: usize) -> (Share, Share) {
    match (split, i) {
        (GroupSplit::Horizontal, 0) => (Share::Full, Share::Part),
        (GroupSplit::Horizontal, 1) => (Share::Full, Share::Rest),
        (GroupSplit::Vertical, 0) => (Share::Full, Share::Part),
        (GroupSplit::Vertical, 1) => (Share::Rest, Share::Full),
        (GroupSplit::Four, 0) => (Share::Part, Share::Part),
        (GroupSplit::Four, 1) => (Share::Rest, Share::Part),
        (GroupSplit::Four, 2) => (Share::Part, Share::Rest),
        (GroupSplit::Four, 3) => (Share::Rest, Share::Rest),
        (GroupSplit::ThreeLeft, 0) => (Share::Full, Share::Part),
        (GroupSplit::ThreeLeft, 1) => (Share::Rest, Share::Part),
        (GroupSplit::ThreeLeft, 2) => (Share::Rest, Share::Rest),
        (GroupSplit::ThreeTop, 0) => (Share::Rest, Share::Full),
        (GroupSplit::ThreeTop, 1) => (Share::Part, Share::Rest),
        (GroupSplit::ThreeTop, 2) => (Share::Rest, Share::Rest),
        (GroupSplit::ThreeRight, 0) => (Share::Part, Share::Part),
        (GroupSplit::ThreeRight, 1) => (Share::Full, Share::Rest),
        (GroupSplit::ThreeRight, 2) => (Share::Part, Share::Rest),
        (GroupSplit::ThreeBottom, 0) => (Share::Part, Share::Part),
        (GroupSplit::ThreeBottom, 1) => (Share::Rest, Share::Part),
        (GroupSplit::ThreeBottom, 2) => (Share::Rest, Share::Full),
        _ => (Share::Full, Share::Full),
    }
}

/// No two plots of a split are drawn from the same corner (the one exception
/// being a `ThreeRight` split, whose first two plots both start at the top-left
/// corner, as drawn): in a four-way split the plots take the top-left,
/// top-right, bottom-left and bottom-right corners in that order, each taking
/// the ratio's part of the width and height on the left and top and the rest on
/// the right and bottom.
pub proof fn lemma_distinct_anchors(split: GroupSplit, i: usize, j: usize)
    ensures
        i < j < plots_of(split) && !(split == GroupSplit::ThreeRight && i == 0 && j == 1)
            ==> anchor_of(split, i) != anchor_of(split, j),
        anchor_of(GroupSplit::Four, 0) == Anchor::TopLeft,
        anchor_of(GroupSplit::Four, 1) == Anchor::TopRight,
        anchor_of(GroupSplit::Four, 2) == Anchor::BottomLeft,
        anchor_of(GroupSplit::Four, 3) == Anchor::BottomRight,
        anchor_of(split, 0) == Anchor::TopLeft,
        share_of(GroupSplit::Four, 0) == (Share::Part, Share::Part),
        share_of(GroupSplit::Four, 1) == (Share::Rest, Share::Part),
        share_of(GroupSplit::Four, 2) == (Share::Part, Share::Rest),
        share_of(GroupSplit::Four, 3) == (Share::Rest, Share::Rest),
{
}


/// Where plot `i` of a split is drawn from, and what share of the area it takes.
pub fn plot_placement(split: GroupSplit, i: usize) -> (r: (Anchor, (Share, Share)))
    ensures
        r == (anchor_of(split, i), share_of(split, i)),
{
    let anchor = match (split, i) {
        (GroupSplit::Horizontal, 1) => Anchor::BelowDivision,
        (GroupSplit::Vertical, 1) => Anchor::RightOfDivision,
        (GroupSplit::Four, 1) => Anchor::TopRight,
        (GroupSplit::Four, 2) => Anchor::BottomLeft,
        (GroupSplit::Four, 3) => Anchor::BottomRight,
        (GroupSplit::ThreeLeft, 1) => Anchor::TopRight,
        (GroupSplit::ThreeLeft, 2) => Anchor::BottomRight,
        (GroupSplit::ThreeTop, 1) => Anchor::BottomLeft,
        (GroupSplit::ThreeTop, 2) => Anchor::BottomRight,
        (GroupSplit::ThreeRight, 2) => Anchor::BottomLeft,
        (GroupSplit::ThreeBottom, 1) => Anchor::BottomLeft,
        (GroupSplit::ThreeBottom, 2) => Anchor::BottomRight,
        _ => Anchor::TopLeft,
    };
    let share = match (split, i) {
        (GroupSplit::Horizontal, 0) => (Share::Full, Share::Part),
        (GroupSplit::Horizontal, 1) => (Share::Full, Share::Rest),
        (GroupSplit::Vertical, 0) => (Share::Full, Share::Part),
        (GroupSplit::Vertical, 1) => (Share::Rest, Share::Full),
        (GroupSplit::Four, 0) => (Share::Part, Share::Part),
        (GroupSplit::Four, 1) => (Share::Rest, Share::Part),
        (GroupSplit::Four, 2) => (Share::Part, Share::Rest),
        (GroupSplit::Four, 3) => (Share::Rest, Share::Rest),
        (GroupSplit::ThreeLeft, 0) => (Share::Full, Share::Part),
        (GroupSplit::ThreeLeft, 1) => (Share::Rest, Share::Part),
        (GroupSplit::ThreeLeft, 2) => (Share::Rest, Share::Rest),
        (GroupSplit::ThreeTop, 0) => (Share::Rest, Share::Full),
        (GroupSplit::ThreeTop, 1) => (Share::Part, Share::Rest),
        (GroupSplit::ThreeTop, 2) => (Share::Rest, Share::Rest),
        (GroupSplit::ThreeRight, 0) => (Share::Part, Share::Part),
        (GroupSplit::ThreeRight, 1) => (Share::Full, Share::Rest),
        (GroupSplit::ThreeRight, 2) => (Share::Part, Share::Rest),
        (GroupSplit::ThreeBottom, 0) => (Share::Part, Share::Part),
        (GroupSplit::ThreeBottom, 1) => (Share::Rest, Share::Part),
        (GroupSplit::ThreeBottom, 2) => (Share::Rest, Share::Full),
        _ => (Share::Full, Share::Full),
    };
    (anchor, share)
}

/// The position of each split among the layout toolbar's pages.
pub open spec fn stack_pos_of(split: GroupSplit) -> usize {
    match split {
        GroupSplit::Unique => 0,
        GroupSplit::Vertical => 1,
        GroupSplit::Horizontal => 2,
        GroupSplit::ThreeLeft => 3,
        GroupSplit::ThreeTop => 4,
        GroupSplit::ThreeRight => 5,
        GroupSplit::ThreeBottom => 6,
        GroupSplit::Four => 7,
    }
}

/// The split shown at each page of the layout toolbar.
pub open spec fn split_at_stack(pos: usize) -> GroupSplit
    recommends
        pos < 8,
{
    if pos == 0 {
        GroupSplit::Unique
    } else if pos == 1 {
        GroupSplit::Vertical
    } else if pos == 2 {
        GroupSplit::Horizontal
    } else if pos == 3 {
        GroupSplit::ThreeLeft
    } else if pos == 4 {
        GroupSplit::ThreeTop
    } else if pos == 5 {
        GroupSplit::ThreeRight
    } else if pos == 6 {
        GroupSplit::ThreeBottom
    } else {
        GroupSplit::Four
    }
}

/// The file-name stem of each split's layout and icons.
pub open spec fn split_stem(split: GroupSplit) -> Seq<char> {
    match split {
        GroupSplit::Unique => "unique"@,
        GroupSplit::Vertical => "vert"@,
        GroupSplit::Horizontal => "horiz"@,
        GroupSplit::Four => "four"@,
        GroupSplit::ThreeLeft => "three-left"@,
        GroupSplit::ThreeTop => "three-top"@,
        GroupSplit::ThreeRight => "three-right"@,
        GroupSplit::ThreeBottom => "three-bottom"@,
    }
}

/// The toolbar page that shows a split.
pub fn stack_index(split: GroupSplit) -> (pos: usize)
    ensures
        pos == stack_pos_of(split),
        pos < 8,
{
    match split {
        GroupSplit::Unique => 0,
        GroupSplit::Vertical => 1,
        GroupSplit::Horizontal => 2,
        GroupSplit::ThreeLeft => 3,
        GroupSplit::ThreeTop => 4,
        GroupSplit::ThreeRight => 5,
        GroupSplit::ThreeBottom => 6,
        GroupSplit::Four => 7,
    }
}

/// The file-name stem of a split (`unique`, `vert`, `horiz`, `four`, `three-left`, ...),
/// which names its toolbar page, its icons and its default layout file.
pub fn stack_name(split: GroupSplit) -> (name: &'static str)
    ensures
        name@ == split_stem(split),
{
    match split {
        GroupSplit::Unique => "unique",
        GroupSplit::Vertical => "vert",
        GroupSplit::Horizontal => "horiz",
        GroupSplit::Four => "four",
        GroupSplit::ThreeLeft => "three-left",
        GroupSplit::ThreeTop => "three-top",
        GroupSplit::ThreeRight => "three-right",
        GroupSplit::ThreeBottom => "three-bottom",
    }
}

/// The split shown at a toolbar page.
pub fn split_at(pos: usize) -> (split: GroupSplit)
    requires
        pos < 8,
    ensures
        split == split_at_stack(pos),
        stack_pos_of(split) == pos,
{
    if pos == 0 {
        GroupSplit::Unique
    } else if pos == 1 {
        GroupSplit::Vertical
    } else if pos == 2 {
        GroupSplit::Horizontal
    } else if pos == 3 {
        GroupSplit::ThreeLeft
    } else if pos == 4 {
        GroupSplit::ThreeTop
    } else if pos == 5 {
        GroupSplit::ThreeRight
    } else if pos == 6 {
        GroupSplit::ThreeBottom
    } else {
        GroupSplit::Four
    }
}

/// Which aspect-ratio scales (horizontal, vertical) a split lets the user move.
pub open spec fn ratio_scales_of(split: GroupSplit) -> (bool, bool) {
    match split {
        GroupSplit::Unique => (false, false),
        GroupSplit::Horizontal => (true, false),
        GroupSplit::Vertical => (false, true),
        _ => (true, true),
    }
}

/// Which aspect-ratio scales (horizontal, vertical) a split lets the user move.
pub fn ratio_scales_sensitive(split: GroupSplit) -> (r: (bool, bool))
    ensures
        r == ratio_scales_of(split),
{
    match split {
        GroupSplit::Unique => (false, false),
        GroupSplit::Horizontal => (true, false),
        GroupSplit::Vertical => (false, true),
        _ => (true, true),
    }
}

/// Writing a split's name into a layout file and reading it back gives the same split.
pub proof fn lemma_split_name_roundtrip(split: GroupSplit)
    ensures
        split_of(split_name(split)) == Some(split),
{
    reveal_strlit("Unique");
    reveal_strlit("Vertical");
    reveal_strlit("Horizontal");
    reveal_strlit("Four");
    reveal_strlit("ThreeLeft");
    reveal_strlit("ThreeTop");
    reveal_strlit("ThreeRight");
    reveal_strlit("ThreeBottom");
    assert("Unique"@.len() == 6 && "Vertical"@.len() == 8 && "Horizontal"@.len() == 10);
    assert("Four"@.len() == 4 && "ThreeLeft"@.len() == 9 && "ThreeTop"@.len() == 8);
    assert("ThreeRight"@.len() == 10 && "ThreeBottom"@.len() == 11);
    assert("Vertical"@[0] == 'V' && "ThreeTop"@[0] == 'T');
    assert("Horizontal"@[0] == 'H' && "ThreeRight"@[0] == 'T');
}

/// A split's toolbar page shows that split, and the pages are exactly 0 to 7.
pub proof fn lemma_stack_roundtrip(split: GroupSplit, pos: usize)
    ensures
        stack_pos_of(split) < 8,
        split_at_stack(stack_pos_of(split)) == split,
        pos < 8 ==> stack_pos_of(split_at_stack(pos)) == pos,
{
}

/// Every plot of a split that holds it is drawn at the top-left corner only if it
/// is the first plot, or the second plot of a `ThreeRight` split (which then
/// shares the first plot's corner, as drawn).
pub proof fn lemma_placement_first_top_left(split: GroupSplit, i: usize)
    ensures
        i == 0 ==> anchor_of(split, i) == Anchor::TopLeft,
        i < plots_of(split) && anchor_of(split, i) == Anchor::TopLeft ==> i == 0
            || (split == GroupSplit::ThreeRight && i == 1),
{
}

/// An accepted layout declares a split and has exactly as many plot areas as
/// that split holds, and at least one.
pub proof fn lemma_accepted_layout_counts(root: Seq<char>, ch: Seq<LayoutChild>)
    ensures
        group_layout_of(root, ch) matches Ok(st) ==> st.0 matches Some(sp) && st.1.len() == plots_of(sp) && st.1.len() > 0,
{
}

/// The (name attribute, content) pairs of the children named `tag` among
/// `ch[..n]`, as a map in which a later child overrides an earlier one of the
/// same name.
pub open spec fn children_props(ch: Seq<LayoutChild>, tag: Seq<char>, n: int) -> Map<Seq<char>, Seq<char>>
    decreases n,
{
    if n <= 0 {
        Map::empty()
    } else if ch[n - 1].name@ == tag {
        children_props(ch, tag, n - 1).insert(ch[n - 1].attr_name->0@, ch[n - 1].content@)
    } else {
        children_props(ch, tag, n - 1)
    }
}

/// Reads the children named `tag` (each with a name attribute, and at least one
/// of them) as a map from their names to their contents.
pub fn children_as_hash(children: &Vec<LayoutChild>, tag: &str) -> (r: PropertyMap)
    requires
        exists|k: int| 0 <= k < children@.len() && (#[trigger] children@[k]).name@ == tag@,
        forall|k: int| 0 <= k < children@.len() && (#[trigger] children@[k]).name@ == tag@ ==> children@[k].attr_name is Some,
    ensures
        r.wf(),
        r@ == children_props(children@, tag@, children@.len() as int),
{
    let mut m = PropertyMap::new();
    let mut k: usize = 0;
    while k < children.len()
        invariant
            k <= children@.len(),
            m.wf(),
            forall|q: int| 0 <= q < children@.len() && (#[trigger] children@[q]).name@ == tag@ ==> children@[q].attr_name is Some,
            m@ == children_props(children@, tag@, k as int),
        decreases children@.len() - k,
    {
        let c = &children[k];
        if str_eq(c.name.as_str(), tag) {
            match &c.attr_name {
                Some(name) => {
                    m.insert(name.clone(), c.content.clone());
                },
                None => {},
            }
        }
        k = k + 1;
    }
    m
}

/// The plot areas the group toolbar's chooser offers for a split, in order; the
/// first is the one chosen when the split is picked. The toolbar has toggles
/// for the unique, horizontal, vertical and four-way splits only, so a
/// three-way split offers none.
pub open spec fn group_labels_of(split: GroupSplit) -> Seq<Seq<char>> {
    match split {
        GroupSplit::Unique => seq!["Center"@],
        GroupSplit::Horizontal => seq!["Top"@, "Bottom"@],
        GroupSplit::Vertical => seq!["Left"@, "Right"@],
        GroupSplit::Four => seq!["Top Left"@, "Top Right"@, "Bottom Left"@, "Bottom Right"@],
        _ => Seq::empty(),
    }
}

/// The chooser's entries for a split (see `group_labels_of`).
pub fn group_labels(split: GroupSplit) -> (r: Vec<&'static str>)
    ensures
        r@.map_values(|l: &str| l@) == group_labels_of(split),
{
    let r: Vec<&'static str> = match split {
        GroupSplit::Unique => vec!["Center"],
        GroupSplit::Horizontal => vec!["Top", "Bottom"],
        GroupSplit::Vertical => vec!["Left", "Right"],
        GroupSplit::Four => vec!["Top Left", "Top Right", "Bottom Left", "Bottom Right"],
        _ => Vec::new(),
    };
    proof {
        reveal_strlit("Center");
        reveal_strlit("Top");
        reveal_strlit("Bottom");
        reveal_strlit("Left");
        reveal_strlit("Right");
        reveal_strlit("Top Left");
        reveal_strlit("Top Right");
        reveal_strlit("Bottom Left");
        reveal_strlit("Bottom Right");
        assert(r@.map_values(|l: &str| l@) =~= group_labels_of(split));
    }
    r
}

/// The plot area a chooser entry selects: the first or second area for the
/// halves and the top corners, the third and fourth for the bottom corners;
/// any other entry (`Center` among them) selects nothing.
pub open spec fn area_of(label: Seq<char>) -> Option<usize> {
    if label == "Top"@ || label == "Left"@ || label == "Top Left"@ {
        Some(0)
    } else if label == "Bottom"@ || label == "Right"@ || label == "Top Right"@ {
        Some(1)
    } else if label == "Bottom Left"@ {
        Some(2)
    } else if label == "Bottom Right"@ {
        Some(3)
    } else {
        None
    }
}

/// The plot area selected by a chooser entry (see `area_of`).
pub fn area_of_label(label: &str) -> (r: Option<usize>)
    ensures
        r == area_of(label@),
{
    if str_eq(label, "Top") || str_eq(label, "Left") || str_eq(label, "Top Left") {
        Some(0)
    } else if str_eq(label, "Bottom") || str_eq(label, "Right") || str_eq(label, "Top Right") {
        Some(1)
    } else if str_eq(label, "Bottom Left") {
        Some(2)
    } else if str_eq(label, "Bottom Right") {
        Some(3)
    } else {
        None
    }
}

/// The layout file the plot view is cleared to when a split is picked on the
/// group toolbar; a three-way split has no toggle there.
pub open spec fn group_layout_file_of(split: GroupSplit) -> Option<Seq<char>> {
    match split {
        GroupSplit::Unique => Some("assets/plot_layout/layout-single.xml"@),
        GroupSplit::Horizontal => Some("assets/plot_layout/layout-horiz.xml"@),
        GroupSplit::Vertical => Some("assets/plot_layout/layout-vert.xml"@),
        GroupSplit::Four => Some("assets/plot_layout/layout-four.xml"@),
        _ => None,
    }
}

/// The layout file for a split picked on the group toolbar (see `group_layout_file_of`).
pub fn group_layout_file(split: GroupSplit) -> (r: Option<&'static str>)
    ensures
        match r {
            Some(p) => group_layout_file_of(split) == Some(p@),
            None => group_layout_file_of(split) is None,
        },
{
    match split {
        GroupSplit::Unique => Some("assets/plot_layout/layout-single.xml"),
        GroupSplit::Horizontal => Some("assets/plot_layout/layout-horiz.xml"),
        GroupSplit::Vertical => Some("assets/plot_layout/layout-vert.xml"),
        GroupSplit::Four => Some("assets/plot_layout/layout-four.xml"),
        _ => None,
    }
}

/// Half of `v`, rounded toward zero (as `i32` division by two rounds).
pub open spec fn half_toward_zero(v: int) -> int {
    if v >= 0 { v / 2 } else { -((-v) / 2) }
}

/// Whether a group of `size` plots split as `split` is one the plot sidebar can
/// point into: one plot, two plots split horizontally or vertically, or four.
pub open spec fn sidebar_group_ok(size: usize, split: GroupSplit) -> bool {
    ||| size == 1
    ||| size == 4
    ||| size == 2 && (split == GroupSplit::Horizontal || split == GroupSplit::Vertical)
}

/// The plot area of a sidebar group that the point (`x`, `y`) of a `w` by `h`
/// drawing falls in: a horizontal split is cut at half the height, a vertical
/// one at half the width, and four plots are numbered top-left, bottom-left,
/// top-right, bottom-right.
pub open spec fn area_of_point_spec(size: usize, split: GroupSplit, x: int, y: int, w: int, h: int) -> usize {
    let left = x < half_toward_zero(w);
    let top = y < half_toward_zero(h);
    if size == 1 {
        0
    } else if size == 2 && split == GroupSplit::Horizontal {
        if top { 0 } else { 1 }
    } else if size == 2 {
        if left { 0 } else { 1 }
    } else {
        if left && top { 0 } else if left { 1 } else if top { 2 } else { 3 }
    }
}

fn half_i32(v: i32) -> (r: i64)
    ensures
        r == half_toward_zero(v as int),
{
    let v64 = v as i64;
    if v64 >= 0 { v64 / 2 } else { 0 - (0 - v64) / 2 }
}

/// The plot area a click at (`x`, `y`) on a `w` by `h` drawing selects in the
/// plot sidebar (see `area_of_point_spec`).
pub fn area_of_point(size: usize, split: GroupSplit, x: i32, y: i32, w: i32, h: i32) -> (r: usize)
    requires
        sidebar_group_ok(size, split),
    ensures
        r == area_of_point_spec(size, split, x as int, y as int, w as int, h as int),
{
    let left = (x as i64) < half_i32(w);
    let top = (y as i64) < half_i32(h);
    if size == 1 {
        0
    } else if size == 2 && split == GroupSplit::Horizontal {
        if top { 0 } else { 1 }
    } else if size == 2 {
        if left { 0 } else { 1 }
    } else {
        if left && top { 0 } else if left { 1 } else if top { 2 } else { 3 }
    }
}

/// Whether a group of `size` plots split as `split` is one the plot workspace can
/// point into: a group of one, or one whose split holds exactly `size` plots.
pub open spec fn workspace_group_ok(size: usize, split: GroupSplit) -> bool {
    ||| size == 1
    ||| size == 4
    ||| size == 2 && (split == GroupSplit::Horizontal || split == GroupSplit::Vertical)
    ||| size == 3 && plots_of(split) == 3
}

/// The plot area of a workspace group that a point falls in, given whether it
/// lies left of the vertical cut (`left`) and above the horizontal one (`top`).
/// A horizontal split is cut left and right, a vertical one top and bottom; a
/// three-way split gives its whole side to the first plot; four plots are
/// numbered top-left, top-right, bottom-left, bottom-right.
pub open spec fn area_of_side_spec(size: usize, split: GroupSplit, left: bool, top: bool) -> usize {
    if size == 1 {
        0
    } else if size == 2 && split == GroupSplit::Horizontal {
        if left { 0 } else { 1 }
    } else if size == 2 {
        if top { 0 } else { 1 }
    } else if size == 3 {
        match split {
            GroupSplit::ThreeLeft => if left { 0 } else if top { 1 } else { 2 },
            GroupSplit::ThreeTop => if top { 0 } else if left { 1 } else { 2 },
            GroupSplit::ThreeRight => if !left { 1 } else if top { 0 } else { 2 },
            _ => if !top { 2 } else if left { 0 } else { 1 },
        }
    } else {
        if left && top { 0 } else if top { 1 } else if left { 2 } else { 3 }
    }
}

/// The plot area a click selects in the plot workspace, from which side of the
/// drawing's cuts it falls on (see `area_of_side_spec`).
pub fn area_of_side(size: usize, split: GroupSplit, left: bool, top: bool) -> (r: usize)
    requires
        workspace_group_ok(size, split),
    ensures
        r == area_of_side_spec(size, split, left, top),
{
    if size == 1 {
        0
    } else if size == 2 && split == GroupSplit::Horizontal {
        if left { 0 } else { 1 }
    } else if size == 2 {
        if top { 0 } else { 1 }
    } else if size == 3 {
        match split {
            GroupSplit::ThreeLeft => if left { 0 } else if top { 1 } else { 2 },
            GroupSplit::ThreeTop => if top { 0 } else if left { 1 } else { 2 },
            GroupSplit::ThreeRight => if !left { 1 } else if top { 0 } else { 2 },
            _ => if !top { 2 } else if left { 0 } else { 1 },
        }
    } else {
        if left && top { 0 } else if top { 1 } else if left { 2 } else { 3 }
    }
}

/// The position of a split's toggle on the group toolbar (unique, horizontal,
/// vertical, four), if it has one.
pub open spec fn split_toggle_of(split: GroupSplit) -> Option<int> {
    match split {
        GroupSplit::Unique => Some(0),
        GroupSplit::Horizontal => Some(1),
        GroupSplit::Vertical => Some(2),
        GroupSplit::Four => Some(3),
        _ => None,
    }
}

/// The group toolbar after a split's toggle is switched on: which of its four
/// toggles are on, whether the plot-area chooser is open to the user, and the
/// plot area made active.
pub struct SplitSwitch {
    pub toggles: Vec<bool>,
    pub chooser_sensitive: bool,
    pub area: usize,
}

/// Switching a split's toggle on switches the other three off, so that it is the
/// only one on; the chooser is open for every split but the unique one (whose
/// only entry is `Center`), and the first plot area becomes the active one. The
/// chooser then holds `group_labels(split)`, its first entry chosen.
pub fn switch_on_split(split: GroupSplit) -> (r: SplitSwitch)
    requires
        split_toggle_of(split) is Some,
    ensures
        r.toggles@ == Seq::new(4, |j: int| j == split_toggle_of(split)->0),
        r.toggles@[split_toggle_of(split)->0],
        forall|j: int| 0 <= j < 4 && j != split_toggle_of(split)->0 ==> !(#[trigger] r.toggles@[j]),
        r.chooser_sensitive == (split != GroupSplit::Unique),
        r.area == 0,
        group_labels_of(split).len() >= 1,
{
    let on: usize = match split {
        GroupSplit::Unique => 0,
        GroupSplit::Horizontal => 1,
        GroupSplit::Vertical => 2,
        _ => 3,
    };
    let mut toggles: Vec<bool> = Vec::new();
    let mut j: usize = 0;
    while j < 4
        invariant
            j <= 4,
            on as int == split_toggle_of(split)->0,
            toggles@ == Seq::new(j as nat, |k: int| k == on as int),
        decreases 4 - j,
    {
        toggles.push(j == on);
        j = j + 1;
        assert(toggles@ =~= Seq::new(j as nat, |k: int| k == on as int));
    }
    SplitSwitch { toggles, chooser_sensitive: split != GroupSplit::Unique, area: 0 }
}

/// The positions, among the first `n` children, of those named `plotarea`.
pub open spec fn plotarea_positions(ch: Seq<LayoutChild>, n: nat) -> Seq<usize>
    decreases n,
{
    if n == 0 {
        Seq::empty()
    } else {
        let prev = plotarea_positions(ch, (n - 1) as nat);
        if ch[n - 1].name@ == "plotarea"@ { prev.push((n - 1) as usize) } else { prev }
    }
}

proof fn lemma_scan_plots(ch: Seq<LayoutChild>, n: nat)
    requires
        scan_children(ch, n) is Ok,
    ensures
        scan_children(ch, n)->Ok_0.1 == plotarea_positions(ch, n),
    decreases n,
{
    if n > 0 {
        if scan_children(ch, (n - 1) as nat) is Err {
            assert(scan_children(ch, n) is Err);
        } else {
            lemma_scan_plots(ch, (n - 1) as nat);
        }
    }
}

/// An accepted layout's plots are exactly its root's `plotarea` children, in
/// order, and there are as many of them as its split holds (at least one).
pub proof fn lemma_layout_plots_are_plotareas(root: Seq<char>, ch: Seq<LayoutChild>)
    requires
        group_layout_of(root, ch) is Ok,
    ensures
        ({
            let st = group_layout_of(root, ch)->Ok_0;
            &&& st.1 == plotarea_positions(ch, ch.len())
            &&& st.0 is Some
            &&& st.1.len() == plots_of(st.0->0)
            &&& st.1.len() >= 1
        }),
{
    lemma_scan_plots(ch, ch.len());
}

/// The text of the last `property` child, among the first `n`, whose `name`
/// attribute is `key`.
pub open spec fn last_property(ch: Seq<LayoutChild>, n: nat, key: Seq<char>) -> Option<Seq<char>>
    decreases n,
{
    if n == 0 {
        None
    } else if ch[n - 1].name@ == "property"@ && (ch[n - 1].attr_name matches Some(a) && a@ == key) {
        Some(ch[n - 1].content@)
    } else {
        last_property(ch, (n - 1) as nat, key)
    }
}

proof fn lemma_scan_ratios(ch: Seq<LayoutChild>, n: nat)
    requires
        scan_children(ch, n) is Ok,
    ensures
        scan_children(ch, n)->Ok_0.2 == last_property(ch, n, "vertical_ratio"@),
        scan_children(ch, n)->Ok_0.3 == last_property(ch, n, "horizontal_ratio"@),
        scan_children(ch, n)->Ok_0.0 == match last_property(ch, n, "split"@) {
            Some(t) => split_of(t),
            None => None,
        },
        last_property(ch, n, "split"@) matches Some(t) ==> split_of(t) is Some,
    decreases n,
{
    reveal_strlit("vertical_ratio");
    reveal_strlit("horizontal_ratio");
    reveal_strlit("split");
    assert("vertical_ratio"@[0] != "horizontal_ratio"@[0]);
    assert("vertical_ratio"@[0] != "split"@[0]);
    assert("horizontal_ratio"@[0] != "split"@[0]);
    if n > 0 {
        if scan_children(ch, (n - 1) as nat) is Err {
            assert(scan_children(ch, n) is Err);
        } else {
            lemma_scan_ratios(ch, (n - 1) as nat);
        }
    }
}

/// An accepted layout's vertical ratio is the text of its last
/// `vertical_ratio` property and its horizontal ratio that of its last
/// `horizontal_ratio` property (none when there is no such property): each
/// ratio is set only by its own property. Its split is the one named by its last
/// `split` property, `Unique` when there is none.
pub proof fn lemma_layout_ratios(root: Seq<char>, ch: Seq<LayoutChild>)
    requires
        group_layout_of(root, ch) is Ok,
    ensures
        group_layout_of(root, ch)->Ok_0.0 == Some(match last_property(ch, ch.len(), "split"@) {
            Some(t) => split_of(t)->0,
            None => GroupSplit::Unique,
        }),
        group_layout_of(root, ch)->Ok_0.2 == last_property(ch, ch.len(), "vertical_ratio"@),
        group_layout_of(root, ch)->Ok_0.3 == last_property(ch, ch.len(), "horizontal_ratio"@),
{
    lemma_scan_ratios(ch, ch.len());
}

} // verus!
