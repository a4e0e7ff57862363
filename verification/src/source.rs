use vstd::prelude::*;
use quote::ToTokens;
use crate::signature::{Function, FunctionMode, function_signature, attrs_of, attr_views, typed_types};
use crate::text::{no_ws, views, str_eq};
use crate::layout::opt_view;

verus! {

/// A function of a Rust source file as the signature reader sees it: whether it
/// is public, its name, its arguments in order (the type of a typed argument,
/// `None` for a `self` receiver), its attributes as (identifier, token text),
/// all as the token printer writes them, and its return type if it declares one.
#[derive(Debug)]
pub struct FnItem {
    pub public: bool,
    pub name: String,
    pub arg_types: Vec<Option<String>>,
    pub attrs: Vec<(String, String)>,
    pub output: Option<String>,
}

/// A module of a Rust source file: its name, whether it is public, and its
/// items when it is written inline.
#[derive(Debug)]
pub struct ModItem {
    pub name: String,
    pub public: bool,
    pub items: Option<Vec<SourceItem>>,
}

/// An item of a Rust source file: a function, a module, or anything else.
#[derive(Debug)]
pub enum SourceItem {
    Fn(FnItem),
    Mod(ModItem),
    Other,
}

#[verifier::external_type_specification]
#[verifier::external_body]
pub struct ExSynItem(syn::Item);

#[verifier::external_type_specification]
#[verifier::external_body]
pub struct ExSynItemFn(syn::ItemFn);

/// The items syn reads from a source text, or `None` when it is not a Rust file.
pub uninterp spec fn rust_items(content: Seq<char>) -> Option<Seq<SourceItem>>;

/// Each argument of a parsed function, in order: the token text of a typed
/// argument's type, `None` for a `self` receiver.
#[verifier::external_body]
fn arg_texts(f: &syn::ItemFn) -> Vec<Option<String>> {
    f.sig.inputs.iter().map(|a| match a {
        syn::FnArg::Typed(t) => Some(t.ty.to_token_stream().to_string()),
        syn::FnArg::Receiver(_) => None,
    }).collect()
}

/// The (identifier, token text) of each attribute of a parsed function, in order.
#[verifier::external_body]
fn attr_texts(f: &syn::ItemFn) -> Vec<(String, String)> {
    f.attrs.iter().map(|a| (a.path.get_ident().to_token_stream().to_string(), a.tokens.to_string())).collect()
}

/// Carries a parsed function over into the library's model, one for one.
#[verifier::external_body]
fn fn_item_of(f: syn::ItemFn) -> FnItem {
    let arg_types = arg_texts(&f);
    let attrs = attr_texts(&f);
    let output = match &f.sig.output {
        syn::ReturnType::Type(_, t) => Some(t.to_token_stream().to_string()),
        _ => None,
    };
    let public = matches!(f.vis, syn::Visibility::Public(_));
    FnItem { public, name: f.sig.ident.to_token_stream().to_string(), arg_types, attrs, output }
}

/// Carries a parsed item over into the library's model, one for one.
#[verifier::external_body]
fn item_of(item: syn::Item) -> SourceItem {
    match item {
        syn::Item::Fn(f) => SourceItem::Fn(fn_item_of(f)),
        syn::Item::Mod(m) => SourceItem::Mod(ModItem {
            name: m.ident.to_string(),
            public: matches!(m.vis, syn::Visibility::Public(_)),
            items: m.content.map(|(_, items)| items.into_iter().map(item_of).collect()),
        }),
        _ => SourceItem::Other,
    }
}

/// `syn::parse_str::<syn::File>`: the items of a Rust source file, or `None`
/// when syn cannot parse the text. The items are syn's, a function of the text
/// alone.
#[verifier::external_body]
fn parse_source(content: &str) -> (r: Option<Vec<SourceItem>>)
    ensures
        match rust_items(content@) {
            Some(s) => r matches Some(v) && v@ == s,
            None => r is None,
        },
{
    syn::parse_str::<syn::File>(content).ok().map(|f| f.items.into_iter().map(item_of).collect())
}

/// The public functions of an item, visiting public modules recursively, in
/// source order; `None` when one of them declares no return type.
pub open spec fn item_fns(item: SourceItem) -> Option<Seq<FnItem>>
    decreases item, 0int,
{
    match item {
        SourceItem::Fn(f) => if !f.public {
            Some(Seq::empty())
        } else if f.output is Some {
            Some(seq![f])
        } else {
            None
        },
        SourceItem::Mod(m) => if m.public { mod_fns(m) } else { Some(Seq::empty()) },
        SourceItem::Other => Some(Seq::empty()),
    }
}

/// The public functions of a module's items (see `item_fns`).
pub open spec fn mod_fns(m: ModItem) -> Option<Seq<FnItem>>
    decreases m, 0int,
{
    match m.items {
        Some(v) => items_fns(v@, v@.len() as int),
        None => Some(Seq::empty()),
    }
}

/// The public functions of `items[..n]` (see `item_fns`).
pub open spec fn items_fns(items: Seq<SourceItem>, n: int) -> Option<Seq<FnItem>>
    decreases items, n,
{
    if n <= 0 || n > items.len() {
        Some(Seq::empty())
    } else {
        match items_fns(items, n - 1) {
            None => None,
            Some(prev) => match item_fns(items[n - 1]) {
                None => None,
                Some(s) => Some(prev + s),
            },
        }
    }
}

/// Whether `g` is the signature `function_signature` gives for `f`.
pub open spec fn sig_matches(g: Function, f: FnItem) -> bool {
    let (mode, doc) = attrs_of(attr_views(f.attrs@), f.attrs@.len() as int);
    &&& f.output is Some
    &&& g.name@ == f.name@
    &&& views(g.args@) == typed_types(f.arg_types@)
    &&& g.ret@ == no_ws(f.output->0@)
    &&& g.mode == mode
    &&& match g.doc {
        Some(d) => doc.len() > 0 && d@ == doc,
        None => doc.len() == 0,
    }
}

/// Whether `gs` are the signatures of `fs`, one for one.
pub open spec fn sigs_match(gs: Seq<Function>, fs: Seq<FnItem>) -> bool {
    &&& gs.len() == fs.len()
    &&& forall|k: int| 0 <= k < fs.len() ==> sig_matches(#[trigger] gs[k], fs[k])
}

fn signature_of_fn(f: &FnItem) -> (r: Option<Function>)
    ensures
        match r {
            Some(g) => sig_matches(g, *f),
            None => f.output is None,
        },
{
    let out = match &f.output {
        Some(o) => Some(o.as_str()),
        None => None,
    };
    function_signature(f.name.clone(), &f.arg_types, &f.attrs, out)
}

fn append_sigs(out: &mut Vec<Function>, more: Vec<Function>)
    ensures
        final(out)@ == old(out)@ + more@,
{
    let mut rest = more;
    let ghost all = rest@;
    let ghost start = out@;
    let mut k: usize = 0;
    let n = rest.len();
    while k < n
        invariant
            n == all.len(),
            k <= n,
            rest@ == all.skip(k as int),
            out@ == start + all.take(k as int),
        decreases n - k,
    {
        let g = rest.remove(0);
        out.push(g);
        assert(all.take(k + 1) =~= all.take(k as int).push(all[k as int]));
        k = k + 1;
    }
    assert(all.take(n as int) =~= all);
}

/// The signatures of the public functions in a module's items, visiting public
/// submodules recursively; `None` when one of those functions declares no
/// return type.
pub fn parse_mod_signature(item_mod: &ModItem) -> (r: Option<Vec<Function>>)
    ensures
        match mod_fns(*item_mod) {
            Some(fs) => r matches Some(gs) && sigs_match(gs@, fs),
            None => r is None,
        },
    decreases *item_mod, 0int,
{
    match &item_mod.items {
        Some(items) => {
            let mut sigs: Vec<Function> = Vec::new();
            let mut k: usize = 0;
            while k < items.len()
                invariant
                    item_mod.items == Some(*items),
                    k <= items@.len(),
                    items_fns(items@, k as int) matches Some(fs) && sigs_match(sigs@, fs),
                decreases items@.len() - k,
            {
                assert(decreases_to!(*item_mod => items@[k as int]));
                match parse_fn_or_mod(&items[k]) {
                    Some(more) => {
                        let ghost before = sigs@;
                        append_sigs(&mut sigs, more);
                        proof {
                            let fs = items_fns(items@, k as int)->0;
                            let s = item_fns(items@[k as int])->0;
                            assert(items_fns(items@, k + 1) == Some(fs + s));
                            assert forall|j: int| 0 <= j < (fs + s).len() implies sig_matches(#[trigger] sigs@[j], (fs + s)[j]) by {
                                if j < fs.len() {
                                    assert(sigs@[j] == before[j]);
                                } else {
                                    assert(sigs@[j] == more@[j - fs.len()]);
                                }
                            }
                        }
                    },
                    None => {
                        proof { lemma_items_fail(items@, k + 1, items@.len() as int); }
                        return None;
                    },
                }
                k = k + 1;
            }
            Some(sigs)
        },
        None => Some(Vec::new()),
    }
}

proof fn lemma_items_fail(items: Seq<SourceItem>, k: int, n: int)
    requires
        0 < k <= n <= items.len(),
        items_fns(items, k) is None,
    ensures
        items_fns(items, n) is None,
    decreases n - k,
{
    if n > k {
        lemma_items_fail(items, k, n - 1);
    }
}

/// The signatures of the public functions an item holds: a public function's
/// own, or those of a public module (recursively); `None` when one of them
/// declares no return type.
pub fn parse_fn_or_mod(item: &SourceItem) -> (r: Option<Vec<Function>>)
    ensures
        match item_fns(*item) {
            Some(fs) => r matches Some(gs) && sigs_match(gs@, fs),
            None => r is None,
        },
    decreases *item, 1int,
{
    match item {
        SourceItem::Fn(f) => {
            if f.public {
                match signature_of_fn(f) {
                    Some(g) => {
                        let mut v: Vec<Function> = Vec::new();
                        v.push(g);
                        Some(v)
                    },
                    None => None,
                }
            } else {
                Some(Vec::new())
            }
        },
        SourceItem::Mod(m) => {
            if m.public {
                parse_mod_signature(m)
            } else {
                Some(Vec::new())
            }
        },
        SourceItem::Other => Some(Vec::new()),
    }
}

/// The signatures of the public functions of a Rust source file, visiting
/// public modules recursively, in source order; `None` when the text does not
/// parse or one of those functions declares no return type.
pub fn parse_nested_signatures(content: &str) -> (r: Option<Vec<Function>>)
    ensures
        match rust_items(content@) {
            Some(items) => match items_fns(items, items.len() as int) {
                Some(fs) => r matches Some(gs) && sigs_match(gs@, fs),
                None => r is None,
            },
            None => r is None,
        },
{
    match parse_source(content) {
        Some(items) => {
            let m = ModItem { name: String::new(), public: true, items: Some(items) };
            parse_mod_signature(&m)
        },
        None => None,
    }
}

/// The module named `name` at or below `item`: the item itself when it is such a
/// module, else the first one found among its inline items, depth first.
pub open spec fn found_mod(name: Seq<char>, item: SourceItem) -> Option<ModItem>
    decreases item, 0int,
{
    match item {
        SourceItem::Mod(m) => if m.name@ == name {
            Some(m)
        } else {
            match m.items {
                Some(v) => found_mod_in(name, v@, 0),
                None => None,
            }
        },
        _ => None,
    }
}

/// The first module named `name` found in `items[j..]` (see `found_mod`).
pub open spec fn found_mod_in(name: Seq<char>, items: Seq<SourceItem>, j: int) -> Option<ModItem>
    decreases items, items.len() - j,
{
    if j < 0 || j >= items.len() {
        None
    } else {
        match found_mod(name, items[j]) {
            Some(m) => Some(m),
            None => found_mod_in(name, items, j + 1),
        }
    }
}

/// Looks for the module named `mod_name` at or below `item`, depth first.
pub fn search_mod<'a>(mod_name: &str, item: &'a SourceItem) -> (r: Option<&'a ModItem>)
    ensures
        match found_mod(mod_name@, *item) {
            Some(m) => r matches Some(x) && *x == m,
            None => r is None,
        },
    decreases *item,
{
    match item {
        SourceItem::Mod(m) => {
            if str_eq(m.name.as_str(), mod_name) {
                Some(m)
            } else {
                match &m.items {
                    Some(items) => {
                        let mut k: usize = 0;
                        while k < items.len()
                            invariant
                                *item == SourceItem::Mod(*m),
                                m.name@ != mod_name@,
                                m.items == Some(*items),
                                k <= items@.len(),
                                found_mod_in(mod_name@, items@, 0) == found_mod_in(mod_name@, items@, k as int),
                            decreases items@.len() - k,
                        {
                            assert(decreases_to!(*item => items@[k as int]));
                            match search_mod(mod_name, &items[k]) {
                                Some(found) => return Some(found),
                                None => {},
                            }
                            k = k + 1;
                        }
                        None
                    },
                    None => None,
                }
            }
        },
        _ => None,
    }
}

/// The documentation a function's attributes give (its `doc` token texts, run
/// together), if any.
pub open spec fn doc_of(f: FnItem) -> Option<Seq<char>> {
    let doc = attrs_of(attr_views(f.attrs@), f.attrs@.len() as int).1;
    if doc.len() > 0 { Some(doc) } else { None }
}

/// The public functions reachable from `item` through public modules, in
/// source order.
pub open spec fn visible_fns(item: SourceItem) -> Seq<FnItem>
    decreases item, 0int,
{
    match item {
        SourceItem::Fn(f) => if f.public { seq![f] } else { Seq::empty() },
        SourceItem::Mod(m) => if m.public { visible_fns_in_mod(m) } else { Seq::empty() },
        SourceItem::Other => Seq::empty(),
    }
}

/// The public functions reachable from a module's items through public modules.
pub open spec fn visible_fns_in_mod(m: ModItem) -> Seq<FnItem>
    decreases m, 0int,
{
    match m.items {
        Some(v) => visible_fns_in(v@, v@.len() as int),
        None => Seq::empty(),
    }
}

/// The visible functions of `items[..n]` (see `visible_fns`).
pub open spec fn visible_fns_in(items: Seq<SourceItem>, n: int) -> Seq<FnItem>
    decreases items, n,
{
    if n <= 0 || n > items.len() {
        Seq::empty()
    } else {
        visible_fns_in(items, n - 1) + visible_fns(items[n - 1])
    }
}

/// The documentation a table entry ends with after looking through `fs`: an
/// entry that has one keeps it; otherwise it takes the documentation of the
/// first function named like it that has some.
pub open spec fn doc_after(fs: Seq<FnItem>, name: Seq<char>, doc: Option<Seq<char>>) -> Option<Seq<char>>
    decreases fs.len(),
{
    if fs.len() == 0 || doc is Some {
        doc
    } else {
        let f = fs[0];
        let next = if f.name@ == name { doc_of(f) } else { None };
        doc_after(fs.drop_first(), name, next)
    }
}

/// The documentation of each entry of a table of function names after looking
/// through the functions `fs`.
pub open spec fn docs_after(docs: Seq<(String, Option<String>)>, fs: Seq<FnItem>) -> Seq<(Seq<char>, Option<Seq<char>>)> {
    Seq::new(docs.len(), |k: int| (docs[k].0@, doc_after(fs, docs[k].0@, opt_view(docs[k].1))))
}

/// The (name, documentation) view of a table of function names.
pub open spec fn docs_view(docs: Seq<(String, Option<String>)>) -> Seq<(Seq<char>, Option<Seq<char>>)> {
    Seq::new(docs.len(), |k: int| (docs[k].0@, opt_view(docs[k].1)))
}

fn doc_text(f: &FnItem) -> (r: Option<String>)
    ensures
        opt_view(r) == doc_of(*f),
{
    match function_signature(f.name.clone(), &f.arg_types, &f.attrs, Some("")) {
        Some(g) => g.doc,
        None => None,
    }
}

proof fn lemma_doc_after_push(fs: Seq<FnItem>, f: FnItem, name: Seq<char>, doc: Option<Seq<char>>)
    ensures
        doc_after(fs.push(f), name, doc) == doc_after(seq![f], name, doc_after(fs, name, doc)),
    decreases fs.len(),
{
    if fs.len() > 0 && doc is None {
        let g = fs[0];
        let next = if g.name@ == name { doc_of(g) } else { None };
        assert(fs.push(f).drop_first() =~= fs.drop_first().push(f));
        lemma_doc_after_push(fs.drop_first(), f, name, next);
    } else if fs.len() == 0 {
        assert(fs.push(f) =~= seq![f]);
    }
}

/// Fills in, from the function `f`, the documentation of the table entries named
/// like it that have none yet.
fn note_doc(f: &FnItem, docs: &mut Vec<(String, Option<String>)>)
    ensures
        final(docs)@.len() == old(docs)@.len(),
        forall|k: int| 0 <= k < old(docs)@.len() ==> {
            &&& (#[trigger] final(docs)@[k]).0@ == old(docs)@[k].0@
            &&& opt_view(final(docs)@[k].1) == doc_after(seq![*f], old(docs)@[k].0@, opt_view(old(docs)@[k].1))
        },
{
    proof {
        assert(seq![*f].drop_first() =~= Seq::<FnItem>::empty());
        reveal_with_fuel(doc_after, 2);
    }
    let mut k: usize = 0;
    while k < docs.len()
        invariant
            docs@.len() == old(docs)@.len(),
            seq![*f].drop_first() =~= Seq::<FnItem>::empty(),
            k <= docs@.len(),
            forall|q: int| k <= q < docs@.len() ==> #[trigger] docs@[q] == old(docs)@[q],
            forall|q: int| 0 <= q < k ==> {
                &&& (#[trigger] docs@[q]).0@ == old(docs)@[q].0@
                &&& opt_view(docs@[q].1) == doc_after(seq![*f], old(docs)@[q].0@, opt_view(old(docs)@[q].1))
            },
        decreases docs@.len() - k,
    {
        proof { reveal_with_fuel(doc_after, 2); }
        let empty = docs[k].1.is_none();
        if empty && str_eq(docs[k].0.as_str(), f.name.as_str()) {
            let name = docs[k].0.clone();
            let d = doc_text(f);
            docs.set(k, (name, d));
        }
        k = k + 1;
    }
}

/// The functions reachable from a module's items through public modules (see
/// `visible_fns`).
fn visible_in_mod<'a>(m: &'a ModItem) -> (r: Vec<&'a FnItem>)
    ensures
        r@.len() == visible_fns_in_mod(*m).len(),
        forall|k: int| 0 <= k < r@.len() ==> *(#[trigger] r@[k]) == visible_fns_in_mod(*m)[k],
    decreases *m, 0int,
{
    let mut out: Vec<&FnItem> = Vec::new();
    match &m.items {
        Some(items) => {
            assert(decreases_to!(*m => items@));
            let mut k: usize = 0;
            while k < items.len()
                invariant
                    m.items == Some(*items),
                    decreases_to!(*m => items@),
                    k <= items@.len(),
                    out@.len() == visible_fns_in(items@, k as int).len(),
                    forall|q: int| 0 <= q < out@.len() ==> *(#[trigger] out@[q]) == visible_fns_in(items@, k as int)[q],
                decreases items@.len() - k,
            {
                assert(decreases_to!(*m => items@[k as int]));
                let more = visible_in_item(&items[k]);
                let ghost before = out@;
                let mut j: usize = 0;
                while j < more.len()
                    invariant
                        j <= more@.len(),
                        out@.len() == before.len() + j,
                        forall|q: int| 0 <= q < before.len() ==> #[trigger] out@[q] == before[q],
                        forall|q: int| 0 <= q < j ==> #[trigger] out@[before.len() + q] == more@[q],
                    decreases more@.len() - j,
                {
                    out.push(more[j]);
                    j = j + 1;
                }
                proof {
                    let a = visible_fns_in(items@, k as int);
                    let b = visible_fns(items@[k as int]);
                    assert(visible_fns_in(items@, k + 1) == a + b);
                    assert forall|q: int| 0 <= q < out@.len() implies *(#[trigger] out@[q]) == (a + b)[q] by {
                        if q < before.len() {
                            assert(out@[q] == before[q]);
                        } else {
                            assert(out@[before.len() + (q - before.len())] == more@[q - before.len()]);
                        }
                    }
                }
                k = k + 1;
            }
        },
        None => {},
    }
    out
}

/// The public functions reachable from `item` through public modules, in order.
fn visible_in_item<'a>(item: &'a SourceItem) -> (r: Vec<&'a FnItem>)
    ensures
        r@.len() == visible_fns(*item).len(),
        forall|k: int| 0 <= k < r@.len() ==> *(#[trigger] r@[k]) == visible_fns(*item)[k],
    decreases *item, 1int,
{
    match item {
        SourceItem::Fn(f) => {
            let mut out: Vec<&FnItem> = Vec::new();
            if f.public {
                out.push(f);
            }
            out
        },
        SourceItem::Mod(m) => {
            if m.public {
                visible_in_mod(m)
            } else {
                Vec::new()
            }
        },
        SourceItem::Other => Vec::new(),
    }
}

/// Fills in the documentation of the table entries (function name, documentation
/// so far) that have none, from the public functions reachable from `item`
/// through public modules: each entry takes the documentation of the first such
/// function of its name that has some.
pub fn search_doc_at_item(item: &SourceItem, docs: &mut Vec<(String, Option<String>)>)
    ensures
        docs_view(final(docs)@) == docs_after(old(docs)@, visible_fns(*item)),
{
    let fs = visible_in_item(item);
    let ghost all = visible_fns(*item);
    let mut k: usize = 0;
    while k < fs.len()
        invariant
            fs@.len() == all.len(),
            forall|q: int| 0 <= q < fs@.len() ==> *(#[trigger] fs@[q]) == all[q],
            k <= fs@.len(),
            docs@.len() == old(docs)@.len(),
            forall|q: int| 0 <= q < docs@.len() ==> {
                &&& (#[trigger] docs@[q]).0@ == old(docs)@[q].0@
                &&& opt_view(docs@[q].1) == doc_after(all.take(k as int), old(docs)@[q].0@, opt_view(old(docs)@[q].1))
            },
        decreases fs@.len() - k,
    {
        let ghost before = docs@;
        note_doc(fs[k], docs);
        proof {
            assert forall|q: int| 0 <= q < docs@.len() implies {
                &&& (#[trigger] docs@[q]).0@ == old(docs)@[q].0@
                &&& opt_view(docs@[q].1) == doc_after(all.take(k + 1), old(docs)@[q].0@, opt_view(old(docs)@[q].1))
            } by {
                assert(all.take(k + 1) =~= all.take(k as int).push(all[k as int]));
                lemma_doc_after_push(all.take(k as int), all[k as int], old(docs)@[q].0@, opt_view(old(docs)@[q].1));
                assert(before[q].0@ == old(docs)@[q].0@);
            }
        }
        k = k + 1;
    }
    assert(all.take(k as int) =~= all);
    assert(docs_view(docs@) =~= docs_after(old(docs)@, all));
}

/// Fills in the documentation of the table entries that have none from the
/// public functions of a Rust source text (see `search_doc_at_item`); a text
/// that does not parse leaves the table as it is.
pub fn search_doc_at_tree(content: &str, docs: &mut Vec<(String, Option<String>)>)
    ensures
        match rust_items(content@) {
            Some(items) => docs_view(final(docs)@) == docs_after(old(docs)@, visible_fns_in(items, items.len() as int)),
            None => *final(docs) == *old(docs),
        },
{
    match parse_source(content) {
        Some(items) => {
            let root = SourceItem::Mod(ModItem { name: String::new(), public: true, items: Some(items) });
            search_doc_at_item(&root, docs);
        },
        None => {},
    }
}

} // verus!
