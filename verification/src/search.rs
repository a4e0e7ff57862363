use vstd::prelude::*;
use crate::text::{split_whitespace, split_by, split_on, words, views};
use crate::property_map::PropertyMap;

verus! {

/// Whether every word after the first is of the form `name=value` (exactly one `=`).
pub open spec fn args_well_formed(w: Seq<Seq<char>>) -> bool {
    forall|k: int| 1 <= k < w.len() ==> #[trigger] split_on(w[k], "="@).len() == 2
}

/// The arguments named by the words `w[1..n]`, a later word overriding an earlier
/// one of the same name.
pub open spec fn args_of(w: Seq<Seq<char>>, n: int) -> Map<Seq<char>, Seq<char>>
    decreases n,
{
    if n <= 1 {
        Map::empty()
    } else {
        let pieces = split_on(w[n - 1], "="@);
        args_of(w, n - 1).insert(pieces[0], pieces[1])
    }
}

/// Reads a call typed into the function search box: a function name followed by
/// white-space separated `name=value` arguments. Refused (`None`) when there is no
/// name or an argument is not of that form.
pub fn split_args(call: &str) -> (r: Option<(String, PropertyMap)>)
    ensures
        match r {
            Some((name, args)) => {
                &&& words(call@).len() > 0
                &&& args_well_formed(words(call@))
                &&& name@ == words(call@)[0]
                &&& args.wf()
                &&& args@ == args_of(words(call@), words(call@).len() as int)
            },
            None => words(call@).len() == 0 || !args_well_formed(words(call@)),
        },
{
    let txts = split_whitespace(call);
    let ghost w = words(call@);
    assert(views(txts@) == w);
    if txts.len() == 0 {
        return None;
    }
    proof { reveal_strlit("="); }
    let name = txts[0].clone();
    assert(name@ == w[0]);
    let mut args = PropertyMap::new();
    let mut k: usize = 1;
    while k < txts.len()
        invariant
            views(txts@) == w,
            w == words(call@),
            "="@.len() == 1,
            1 <= k <= txts@.len(),
            args.wf(),
            forall|m: int| 1 <= m < k ==> #[trigger] split_on(w[m], "="@).len() == 2,
            args@ == args_of(w, k as int),
        decreases txts@.len() - k,
    {
        assert(txts@[k as int]@ == w[k as int]);
        let pair = split_by(txts[k].as_str(), "=");
        if pair.len() != 2 {
            assert(split_on(w[k as int], "="@).len() != 2);
            return None;
        }
        assert(views(pair@)[0] == pair@[0]@ && views(pair@)[1] == pair@[1]@);
        let arg_name = pair[0].clone();
        let arg_val = pair[1].clone();
        args.insert(arg_name, arg_val);
        k = k + 1;
    }
    Some((name, args))
}

} // verus!
