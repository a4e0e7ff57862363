use vstd::prelude::*;
use vstd::utf8::encode_utf8;
use crate::sql_type::{SqlType, SqlAggType, type_of_bytes, agg_of_bytes, agg_ok, spelling};
use crate::text::{str_eq, trim, split_by, split_on, trimmed, views, no_ws, remove_whitespace};

verus! {

/// A user-defined SQL function: its name, argument types, return type,
/// documentation, and whether its last argument is variadic.
#[derive(Debug, Clone)]
pub struct Function {
    pub name: String,
    pub args: Vec<SqlType>,
    pub ret: SqlType,
    pub doc: Option<String>,
    pub var_arg: bool,
}

/// A generic aggregate, with arbitrary initial, state and final functions.
#[derive(Debug, Clone)]
pub struct Aggregate {
    pub name: String,
    pub init_func: String,
    pub state_func: String,
    pub final_func: String,
}

/// A job a library offers: its name and documentation.
#[derive(Debug, Clone)]
pub struct Job {
    pub name: String,
    pub doc: Option<String>,
}

/// Why a function's signature was refused.
#[derive(Debug, Clone)]
pub enum ParseError {
    Arg(usize, String),
    Ret(usize, String),
    Attr,
    VarArg(usize),
    VarRet(usize),
    Other,
}

/// Why a user-defined function could not be run: the function was not found
/// (the table it was to be applied to is carried back), an argument at a position
/// has the wrong type, the result could not be made into a table, or the user's
/// code failed.
#[derive(Debug)]
pub enum FunctionErr {
    NotFound(Vec<Vec<String>>),
    TypeMismatch(usize),
    TableAgg(String),
    UserErr(String),
}

/// The scalar type spelled by the characters `c`, if any.
pub open spec fn type_of_chars(c: Seq<char>) -> Option<SqlType> {
    type_of_bytes(encode_utf8(c))
}

/// Whether every piece spells a scalar type.
pub open spec fn all_types(p: Seq<Seq<char>>) -> bool {
    forall|k: int| 0 <= k < p.len() ==> #[trigger] type_of_chars(p[k]) is Some
}

/// The scalar types the pieces spell.
pub open spec fn types_of(p: Seq<Seq<char>>) -> Seq<SqlType> {
    Seq::new(p.len(), |k: int| type_of_chars(p[k])->0)
}

/// The argument pieces of the signature `name(t1,t2,...)->ret`: the text between
/// the first opening parenthesis and the next closing one, split at each comma.
pub open spec fn arg_pieces_of(s: Seq<char>) -> Seq<Seq<char>> {
    split_on(split_on(split_on(split_on(trimmed(s), "->"@)[0], "("@)[1], ")"@)[0], ","@)
}

/// The (name, argument types, return type) of the signature `name(t1,t2,...)->ret`,
/// read as the registry writes it: the text is trimmed, the arguments are split at
/// each comma with no further trimming, and the signature is refused when it has no
/// arrow, no opening parenthesis, three or more opening parentheses before the
/// arrow, or a piece that spells no type.
pub open spec fn signature_of(s: Seq<char>) -> Option<(Seq<char>, Seq<SqlType>, SqlType)> {
    let arrow = split_on(trimmed(s), "->"@);
    if arrow.len() < 2 {
        None
    } else {
        let paren = split_on(arrow[0], "("@);
        if paren.len() < 2 || paren.len() >= 4 {
            None
        } else {
            let arg_pieces = split_on(split_on(paren[1], ")"@)[0], ","@);
            if !all_types(arg_pieces) || type_of_chars(arrow[1]) is None {
                None
            } else {
                Some((paren[0], types_of(arg_pieces), type_of_chars(arrow[1])->0))
            }
        }
    }
}

impl Function {
    /// Reads a signature `name(t1,t2,...)->ret`, without documentation and not variadic.
    pub fn from_str(s: &str) -> (r: Result<Function, ()>)
        ensures
            match r {
                Ok(f) => signature_of(s@) == Some((f.name@, f.args@, f.ret)) && f.doc.is_none() && !f.var_arg,
                Err(()) => signature_of(s@).is_none(),
            },
    {
        proof {
            reveal_strlit("->");
            reveal_strlit("(");
            reveal_strlit(")");
            reveal_strlit(",");
        }
        let t = trim(s);
        let spl = split_by(t.as_str(), "->");
        if spl.len() < 2 {
            return Err(());
        }
        let left = &spl[1 - 1];
        let right = &spl[1];
        assert(views(spl@)[0] == left@ && views(spl@)[1] == right@);
        let spl_left = split_by(left.as_str(), "(");
        if spl_left.len() < 2 {
            return Err(());
        }
        assert(views(spl_left@)[0] == spl_left@[0]@ && views(spl_left@)[1] == spl_left@[1]@);
        let name = spl_left[0].clone();
        let inner = split_by(spl_left[1].as_str(), ")");
        assert(views(inner@)[0] == inner@[0]@);
        if spl_left.len() >= 4 {
            return Err(());
        }
        let arg_texts = split_by(inner[0].as_str(), ",");
        let ghost pieces = views(arg_texts@);
        let mut args: Vec<SqlType> = Vec::new();
        let mut k: usize = 0;
        while k < arg_texts.len()
            invariant
                pieces == views(arg_texts@),
                pieces == arg_pieces_of(s@),
                split_on(trimmed(s@), "->"@).len() >= 2,
                2 <= split_on(split_on(trimmed(s@), "->"@)[0], "("@).len() < 4,
                k <= arg_texts@.len(),
                args@.len() == k,
                forall|m: int| 0 <= m < k ==> #[trigger] type_of_chars(pieces[m]) == Some(args@[m]),
            decreases arg_texts@.len() - k,
        {
            assert(pieces[k as int] == arg_texts@[k as int]@);
            match SqlType::try_from(arg_texts[k].as_str()) {
                Ok(ty) => args.push(ty),
                Err(()) => {
                    assert(type_of_chars(pieces[k as int]) is None);
                    return Err(());
                },
            }
            k = k + 1;
        }
        let ret = match SqlType::try_from(right.as_str()) {
            Ok(ty) => ty,
            Err(()) => {
                return Err(());
            },
        };
        assert(args@ =~= types_of(pieces));
        Ok(Function { name, args, ret, doc: None, var_arg: false })
    }
}

/// `Vec<Vec<T>>` spelled for a scalar type `T`.
pub open spec fn owned_nested_spelling(t: SqlType) -> Seq<char> {
    seq!['V', 'e', 'c', '<', 'V', 'e', 'c', '<'] + spelling(t) + seq!['>', '>']
}

/// The scalar type `T` of a text spelling `Vec<Vec<T>>`, if it spells one.
pub open spec fn owned_nested_of(s: Seq<char>) -> Option<SqlType> {
    if s == owned_nested_spelling(SqlType::I32) {
        Some(SqlType::I32)
    } else if s == owned_nested_spelling(SqlType::I64) {
        Some(SqlType::I64)
    } else if s == owned_nested_spelling(SqlType::F32) {
        Some(SqlType::F32)
    } else if s == owned_nested_spelling(SqlType::F64) {
        Some(SqlType::F64)
    } else if s == owned_nested_spelling(SqlType::String) {
        Some(SqlType::String)
    } else {
        None
    }
}

/// The scalar type of a type text with white space removed, and whether it was
/// nested (`Vec<Vec<T>>` or `&[&[T]]`); a nested owned spelling is read first,
/// then an aggregate one, then a scalar one.
pub open spec fn simple_type_of(text: Seq<char>) -> Result<(SqlType, bool), Seq<char>> {
    let b = encode_utf8(no_ws(text));
    match owned_nested_of(no_ws(text)) {
        Some(t) => Ok((t, true)),
        None => match agg_of_bytes(b) {
            Some(a) => Ok((match a {
                SqlAggType::Simple(t) => t,
                SqlAggType::Nested(t) => t,
                SqlAggType::Owned(t) => t,
            }, a is Nested)),
            None => match type_of_bytes(b) {
                Some(t) => Ok((t, false)),
                None => Err(no_ws(text)),
            },
        },
    }
}

/// Reads `Vec<Vec<T>>` for a scalar type `T`.
fn owned_nested(s: &str) -> (r: Option<SqlType>)
    ensures
        r == owned_nested_of(s@),
{
    proof {
        reveal_strlit("Vec<Vec<i32>>");
        reveal_strlit("Vec<Vec<i64>>");
        reveal_strlit("Vec<Vec<f32>>");
        reveal_strlit("Vec<Vec<f64>>");
        reveal_strlit("Vec<Vec<String>>");
        assert("Vec<Vec<i32>>"@ =~= owned_nested_spelling(SqlType::I32));
        assert("Vec<Vec<i64>>"@ =~= owned_nested_spelling(SqlType::I64));
        assert("Vec<Vec<f32>>"@ =~= owned_nested_spelling(SqlType::F32));
        assert("Vec<Vec<f64>>"@ =~= owned_nested_spelling(SqlType::F64));
        assert("Vec<Vec<String>>"@ =~= owned_nested_spelling(SqlType::String));
    }
    if str_eq(s, "Vec<Vec<i32>>") {
        Some(SqlType::I32)
    } else if str_eq(s, "Vec<Vec<i64>>") {
        Some(SqlType::I64)
    } else if str_eq(s, "Vec<Vec<f32>>") {
        Some(SqlType::F32)
    } else if str_eq(s, "Vec<Vec<f64>>") {
        Some(SqlType::F64)
    } else if str_eq(s, "Vec<Vec<String>>") {
        Some(SqlType::String)
    } else {
        None
    }
}

/// Reads the type written as `ty_text` (the printed tokens of a Rust type): its
/// scalar type, and whether it was nested into `Vec<Vec<T>>` (or `&[&[T]]`). The
/// text with white space removed is handed back when it spells no type.
pub fn get_simple_type(ty_text: &str) -> (r: Result<(SqlType, bool), String>)
    requires
        owned_nested_of(no_ws(ty_text@)) is None ==> agg_ok(encode_utf8(no_ws(ty_text@))),
    ensures
        match r {
            Ok(p) => simple_type_of(ty_text@) == Ok::<(SqlType, bool), Seq<char>>(p),
            Err(e) => simple_type_of(ty_text@) == Err::<(SqlType, bool), Seq<char>>(e@),
        },
{
    let ty_str = remove_whitespace(ty_text);
    if let Some(t) = owned_nested(ty_str.as_str()) {
        return Ok((t, true));
    }
    match SqlAggType::try_from(ty_str.as_str()) {
        Ok(agg_ty) => {
            let nested = match agg_ty {
                SqlAggType::Nested(_) => true,
                SqlAggType::Simple(_) | SqlAggType::Owned(_) => false,
            };
            Ok((agg_ty.inner(), nested))
        },
        Err(()) => match SqlType::try_from(ty_str.as_str()) {
            Ok(t) => Ok((t, false)),
            Err(()) => Err(ty_str),
        },
    }
}

} // verus!
