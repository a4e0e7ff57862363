use vstd::prelude::*;
use vstd::string::StringExecFns;
use crate::text::{no_ws, remove_whitespace, str_eq, views};

verus! {

/// The kind of SQL function an attribute declares.
#[derive(Debug, Clone, Copy, PartialEq, Eq, Structural)]
pub enum FunctionMode {
    Simple,
    Aggregate,
    Window,
    Invalid,
}

/// A function signature as read from Rust source: its name, argument and return
/// types as written (white space removed), documentation and mode.
#[derive(Debug)]
pub struct Function {
    pub name: String,
    pub args: Vec<String>,
    pub ret: String,
    pub doc: Option<String>,
    pub mode: FunctionMode,
}

/// The mode and the documentation text after reading the first `n` attributes,
/// each given as (identifier, token text): `doc` attributes accumulate, and
/// `sql`, `sql_agg` and `sql_win` set the mode (the last one wins).
pub open spec fn attrs_of(attrs: Seq<(Seq<char>, Seq<char>)>, n: int) -> (FunctionMode, Seq<char>)
    decreases n,
{
    if n <= 0 {
        (FunctionMode::Invalid, Seq::empty())
    } else {
        let (mode, doc) = attrs_of(attrs, n - 1);
        let (ident, tokens) = attrs[n - 1];
        if ident == "doc"@ {
            (mode, doc + tokens)
        } else if ident == "sql"@ {
            (FunctionMode::Simple, doc)
        } else if ident == "sql_agg"@ {
            (FunctionMode::Aggregate, doc)
        } else if ident == "sql_win"@ {
            (FunctionMode::Window, doc)
        } else {
            (mode, doc)
        }
    }
}

pub open spec fn attr_views(attrs: Seq<(String, String)>) -> Seq<(Seq<char>, Seq<char>)> {
    Seq::new(attrs.len(), |i: int| (attrs[i].0@, attrs[i].1@))
}

/// The types of the typed arguments among `args` (each `Some(type text)`, or
/// `None` for a `self` receiver), white space removed, in their order: the
/// receivers are left out.
pub open spec fn typed_types(args: Seq<Option<String>>) -> Seq<Seq<char>>
    decreases args.len(),
{
    if args.len() == 0 {
        Seq::empty()
    } else {
        let prev = typed_types(args.drop_last());
        match args.last() {
            Some(t) => prev.push(no_ws(t@)),
            None => prev,
        }
    }
}

/// Builds the signature of a function from what its source says: its name, its
/// arguments (each the type text of a typed argument, or `None` for a `self`
/// receiver, which the signature leaves out), its attributes as (identifier,
/// token text), and its return type if it declares one. A function without a
/// return type gives no signature.
pub fn function_signature(
    name: String,
    arg_types: &Vec<Option<String>>,
    attrs: &Vec<(String, String)>,
    output: Option<&str>,
) -> (r: Option<Function>)
    ensures
        match r {
            Some(f) => {
                let (mode, doc) = attrs_of(attr_views(attrs@), attrs@.len() as int);
                &&& output.is_some()
                &&& f.name@ == name@
                &&& views(f.args@) == typed_types(arg_types@)
                &&& f.ret@ == no_ws(output.unwrap()@)
                &&& f.mode == mode
                &&& match f.doc {
                    Some(d) => doc.len() > 0 && d@ == doc,
                    None => doc.len() == 0,
                }
            },
            None => output.is_none(),
        },
{
    let mut args: Vec<String> = Vec::new();
    let mut i: usize = 0;
    while i < arg_types.len()
        invariant
            i <= arg_types@.len(),
            views(args@) == typed_types(arg_types@.take(i as int)),
        decreases arg_types@.len() - i,
    {
        assert(arg_types@.take(i + 1).drop_last() =~= arg_types@.take(i as int));
        match &arg_types[i] {
            Some(t) => {
                args.push(remove_whitespace(t.as_str()));
                assert(views(args@) =~= typed_types(arg_types@.take(i as int)).push(no_ws(t@)));
            },
            None => {},
        }
        i = i + 1;
    }
    assert(arg_types@.take(arg_types@.len() as int) =~= arg_types@);
    let mut mode = FunctionMode::Invalid;
    let mut doc_content = String::new();
    let mut k: usize = 0;
    while k < attrs.len()
        invariant
            k <= attrs@.len(),
            (mode, doc_content@) == attrs_of(attr_views(attrs@), k as int),
        decreases attrs@.len() - k,
    {
        let ident = attrs[k].0.as_str();
        let tokens = attrs[k].1.as_str();
        assert(attr_views(attrs@)[k as int] == (ident@, tokens@));
        if str_eq(ident, "doc") {
            doc_content.append(tokens);
        } else if str_eq(ident, "sql") {
            mode = FunctionMode::Simple;
        } else if str_eq(ident, "sql_agg") {
            mode = FunctionMode::Aggregate;
        } else if str_eq(ident, "sql_win") {
            mode = FunctionMode::Window;
        }
        k = k + 1;
    }
    let doc = if doc_content.as_str().is_empty() { None } else { Some(doc_content) };
    match output {
        Some(ty) => {
            let ret = remove_whitespace(ty);
            let f = Function { name, args, ret, doc, mode };
            Some(f)
        },
        None => None,
    }
}

} // verus!
