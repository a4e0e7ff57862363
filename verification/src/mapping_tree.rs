use vstd::prelude::*;
use vstd::string::StringExecFns;
use crate::layout::{GroupSplit, plots_of};
use crate::property_map::PropertyMap;
use crate::text::str_eq;

verus! {

/// The (label, icon) of each plot node the mapping tree shows for a split, in
/// plot order.
pub open spec fn subplot_names(split: GroupSplit) -> Seq<(Seq<char>, Seq<char>)> {
    match split {
        GroupSplit::Unique => seq![("Center"@, "layout/unique-1"@)],
        GroupSplit::Horizontal => seq![("Left"@, "layout/horiz-1"@), ("Right"@, "layout/horiz-2"@)],
        GroupSplit::Vertical => seq![("Top"@, "layout/vert-1"@), ("Bottom"@, "layout/vert-2"@)],
        GroupSplit::ThreeLeft => seq![
            ("Left"@, "layout/three-left-1"@),
            ("Top right"@, "layout/three-left-2"@),
            ("Bottom right"@, "layout/three-left-3"@),
        ],
        GroupSplit::ThreeTop => seq![
            ("Top"@, "layout/three-top-1"@),
            ("Bottom left"@, "layout/three-top-2"@),
            ("Bottom right"@, "layout/three-top-3"@),
        ],
        GroupSplit::ThreeRight => seq![
            ("Top left"@, "layout/three-right-1"@),
            ("Right"@, "layout/three-right-2"@),
            ("Bottom left"@, "layout/three-right-3"@),
        ],
        GroupSplit::ThreeBottom => seq![
            ("Top Left"@, "layout/three-bottom-1"@),
            ("Top right"@, "layout/three-bottom-2"@),
            ("Bottom"@, "layout/three-bottom-3"@),
        ],
        GroupSplit::Four => seq![
            ("Top Left"@, "layout/four-1"@),
            ("Top right"@, "layout/four-2"@),
            ("Bottom left"@, "layout/four-3"@),
            ("Bottom-right"@, "layout/four-4"@),
        ],
    }
}

fn pair(a: &str, b: &str) -> (r: (String, String))
    ensures
        r.0@ == a@,
        r.1@ == b@,
{
    (a.to_owned(), b.to_owned())
}

/// The (label, icon) of each plot node of the mapping tree for `split`.
pub fn subplot_labels(split: GroupSplit) -> (r: Vec<(String, String)>)
    ensures
        r@.len() == subplot_names(split).len(),
        forall|k: int| 0 <= k < r@.len() ==> (#[trigger] r@[k].0@, r@[k].1@) == subplot_names(split)[k],
{
    let mut v: Vec<(String, String)> = Vec::new();
    match split {
        GroupSplit::Unique => {
            v.push(pair("Center", "layout/unique-1"));
        },
        GroupSplit::Horizontal => {
            v.push(pair("Left", "layout/horiz-1"));
            v.push(pair("Right", "layout/horiz-2"));
        },
        GroupSplit::Vertical => {
            v.push(pair("Top", "layout/vert-1"));
            v.push(pair("Bottom", "layout/vert-2"));
        },
        GroupSplit::ThreeLeft => {
            v.push(pair("Left", "layout/three-left-1"));
            v.push(pair("Top right", "layout/three-left-2"));
            v.push(pair("Bottom right", "layout/three-left-3"));
        },
        GroupSplit::ThreeTop => {
            v.push(pair("Top", "layout/three-top-1"));
            v.push(pair("Bottom left", "layout/three-top-2"));
            v.push(pair("Bottom right", "layout/three-top-3"));
        },
        GroupSplit::ThreeRight => {
            v.push(pair("Top left", "layout/three-right-1"));
            v.push(pair("Right", "layout/three-right-2"));
            v.push(pair("Bottom left", "layout/three-right-3"));
        },
        GroupSplit::ThreeBottom => {
            v.push(pair("Top Left", "layout/three-bottom-1"));
            v.push(pair("Top right", "layout/three-bottom-2"));
            v.push(pair("Bottom", "layout/three-bottom-3"));
        },
        GroupSplit::Four => {
            v.push(pair("Top Left", "layout/four-1"));
            v.push(pair("Top right", "layout/four-2"));
            v.push(pair("Bottom left", "layout/four-3"));
            v.push(pair("Bottom-right", "layout/four-4"));
        },
    }
    v
}

/// The mapping tree has one plot node per plot of the split.
pub proof fn lemma_one_node_per_plot(split: GroupSplit)
    ensures
        subplot_names(split).len() == plots_of(split),
{
}

/// The properties whose values label a mapping of type `ty` in the tree.
pub open spec fn label_keys(ty: Seq<char>) -> Seq<Seq<char>> {
    if ty == "area"@ {
        seq!["x"@, "ymin"@, "ymax"@]
    } else if ty == "text"@ {
        seq!["x"@, "y"@, "text"@]
    } else if ty == "surface"@ {
        seq!["x"@, "y"@, "z"@]
    } else if ty == "bar"@ {
        seq!["height"@]
    } else {
        seq!["x"@, "y"@]
    }
}

/// The values joined by ` x `.
pub open spec fn joined(vals: Seq<Seq<char>>) -> Seq<char>
    decreases vals.len(),
{
    if vals.len() == 0 {
        Seq::empty()
    } else if vals.len() == 1 {
        vals[0]
    } else {
        joined(vals.drop_last()) + " x "@ + vals.last()
    }
}

/// The label of a mapping of type `ty` with properties `props`: its column
/// properties joined by ` x `.
pub open spec fn row_label(ty: Seq<char>, props: Map<Seq<char>, Seq<char>>) -> Seq<char> {
    joined(Seq::new(label_keys(ty).len(), |k: int| props[label_keys(ty)[k]]))
}

/// The label of a mapping row in the tree (for example `a x b` for a line
/// drawn from columns `a` and `b`).
pub fn mapping_row_label(ty: &str, props: &PropertyMap) -> (r: String)
    requires
        props.wf(),
        forall|k: int| 0 <= k < label_keys(ty@).len() ==> props@.contains_key(#[trigger] label_keys(ty@)[k]),
    ensures
        r@ == row_label(ty@, props@),
{
    proof {
        reveal_strlit("area");
        reveal_strlit("text");
        reveal_strlit("surface");
        reveal_strlit("bar");
        reveal_strlit("x");
        reveal_strlit("y");
        reveal_strlit("z");
        reveal_strlit("ymin");
        reveal_strlit("ymax");
        reveal_strlit("height");
        reveal_strlit(" x ");
    }
    let keys: Vec<&str> = if str_eq(ty, "area") {
        vec!["x", "ymin", "ymax"]
    } else if str_eq(ty, "text") {
        vec!["x", "y", "text"]
    } else if str_eq(ty, "surface") {
        vec!["x", "y", "z"]
    } else if str_eq(ty, "bar") {
        vec!["height"]
    } else {
        vec!["x", "y"]
    };
    let ghost lk = label_keys(ty@);
    assert(lk.len() == keys@.len());
    assert(forall|k: int| 0 <= k < lk.len() ==> #[trigger] lk[k] == keys@[k]@);
    let ghost vals = Seq::new(lk.len(), |k: int| props@[lk[k]]);
    let mut out = String::new();
    let mut i: usize = 0;
    while i < keys.len()
        invariant
            props.wf(),
            lk == label_keys(ty@),
            lk.len() == keys@.len(),
            forall|k: int| 0 <= k < lk.len() ==> #[trigger] lk[k] == keys@[k]@,
            forall|k: int| 0 <= k < lk.len() ==> props@.contains_key(#[trigger] lk[k]),
            vals == Seq::new(lk.len(), |k: int| props@[lk[k]]),
            i <= keys@.len(),
            keys@.len() >= 1,
            out@ == joined(vals.take(i as int)),
        decreases keys@.len() - i,
    {
        assert(props@.contains_key(lk[i as int]));
        let v = match props.get(keys[i]) {
            Some(v) => v,
            None => String::new(),
        };
        assert(v@ == vals[i as int]);
        if i > 0 {
            out.append(" x ");
        }
        out.append(v.as_str());
        assert(vals.take(i + 1).drop_last() =~= vals.take(i as int));
        assert(vals.take(i + 1).last() == vals[i as int]);
        if i == 0 {
            assert(vals.take(1) =~= seq![vals[0]]);
        }
        i = i + 1;
    }
    assert(vals.take(i as int) =~= vals);
    out
}

} // verus!
