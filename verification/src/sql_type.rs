use vstd::prelude::*;
use vstd::utf8::*;
use vstd::string::StringSliceAdditionalSpecFns;
use vstd::string::StringExecFns;

verus! {

/// The scalar SQL types that a user-defined function can take or return.
#[derive(Debug, Clone, Copy, PartialEq, Eq, Structural)]
pub enum SqlType {
    I32,
    I64,
    F32,
    F64,
    String,
}

/// The Rust spelling of each scalar type, as UTF-8 bytes.
pub open spec fn spelling_bytes(t: SqlType) -> Seq<u8> {
    match t {
        SqlType::I32 => seq![105u8, 51u8, 50u8],
        SqlType::I64 => seq![105u8, 54u8, 52u8],
        SqlType::F32 => seq![102u8, 51u8, 50u8],
        SqlType::F64 => seq![102u8, 54u8, 52u8],
        SqlType::String => seq![83u8, 116u8, 114u8, 105u8, 110u8, 103u8],
    }
}

/// The scalar type whose spelling is exactly `b`, if any.
pub open spec fn type_of_bytes(b: Seq<u8>) -> Option<SqlType> {
    if b == spelling_bytes(SqlType::I32) {
        Some(SqlType::I32)
    } else if b == spelling_bytes(SqlType::I64) {
        Some(SqlType::I64)
    } else if b == spelling_bytes(SqlType::F32) {
        Some(SqlType::F32)
    } else if b == spelling_bytes(SqlType::F64) {
        Some(SqlType::F64)
    } else if b == spelling_bytes(SqlType::String) {
        Some(SqlType::String)
    } else {
        None
    }
}

/// Reads the scalar type spelled by the bytes `b[lo..hi]`, if any.
fn type_at(b: &[u8], lo: usize, hi: usize) -> (r: Option<SqlType>)
    requires
        lo <= hi <= b@.len(),
    ensures
        r == type_of_bytes(b@.subrange(lo as int, hi as int)),
{
    let ghost w = b@.subrange(lo as int, hi as int);
    if hi - lo == 3 {
        let c0 = b[lo];
        let c1 = b[lo + 1];
        let c2 = b[lo + 2];
        assert(w[0] == c0 && w[1] == c1 && w[2] == c2);
        if c0 == 105u8 && c1 == 51u8 && c2 == 50u8 {
            assert(w =~= spelling_bytes(SqlType::I32));
            Some(SqlType::I32)
        } else if c0 == 105u8 && c1 == 54u8 && c2 == 52u8 {
            assert(w =~= spelling_bytes(SqlType::I64));
            Some(SqlType::I64)
        } else if c0 == 102u8 && c1 == 51u8 && c2 == 50u8 {
            assert(w =~= spelling_bytes(SqlType::F32));
            Some(SqlType::F32)
        } else if c0 == 102u8 && c1 == 54u8 && c2 == 52u8 {
            assert(w =~= spelling_bytes(SqlType::F64));
            Some(SqlType::F64)
        } else {
            assert(w != spelling_bytes(SqlType::I32));
            assert(w != spelling_bytes(SqlType::I64));
            assert(w != spelling_bytes(SqlType::F32));
            assert(w != spelling_bytes(SqlType::F64));
            assert(w.len() != spelling_bytes(SqlType::String).len());
            None
        }
    } else if hi - lo == 6 {
        let c0 = b[lo];
        let c1 = b[lo + 1];
        let c2 = b[lo + 2];
        let c3 = b[lo + 3];
        let c4 = b[lo + 4];
        let c5 = b[lo + 5];
        assert(w[0] == c0 && w[1] == c1 && w[2] == c2 && w[3] == c3 && w[4] == c4 && w[5] == c5);
        assert(w.len() != spelling_bytes(SqlType::I32).len());
        if c0 == 83u8 && c1 == 116u8 && c2 == 114u8 && c3 == 105u8 && c4 == 110u8 && c5 == 103u8 {
            assert(w =~= spelling_bytes(SqlType::String));
            Some(SqlType::String)
        } else {
            assert(w != spelling_bytes(SqlType::String));
            None
        }
    } else {
        assert(w.len() != spelling_bytes(SqlType::I32).len());
        assert(w.len() != spelling_bytes(SqlType::String).len());
        None
    }
}

/// The Rust spelling of each scalar type, as characters.
pub open spec fn spelling(t: SqlType) -> Seq<char> {
    match t {
        SqlType::I32 => seq!['i', '3', '2'],
        SqlType::I64 => seq!['i', '6', '4'],
        SqlType::F32 => seq!['f', '3', '2'],
        SqlType::F64 => seq!['f', '6', '4'],
        SqlType::String => seq!['S', 't', 'r', 'i', 'n', 'g'],
    }
}

/// `&[`
pub open spec fn slice_prefix() -> Seq<u8> {
    seq![38u8, 91u8]
}

/// `&[&[`
pub open spec fn nested_prefix() -> Seq<u8> {
    seq![38u8, 91u8, 38u8, 91u8]
}

/// `Vec<`
pub open spec fn vec_prefix() -> Seq<u8> {
    seq![86u8, 101u8, 99u8, 60u8]
}

pub open spec fn starts_with(b: Seq<u8>, p: Seq<u8>) -> bool {
    p.len() <= b.len() && b.subrange(0, p.len() as int) == p
}

/// Slicing `b[lo..hi]` of a string succeeds (does not panic).
pub open spec fn slice_ok(b: Seq<u8>, lo: int, hi: int) -> bool {
    &&& 0 <= lo <= hi <= b.len()
    &&& is_char_boundary(b, lo)
    &&& is_char_boundary(b, hi)
}

/// The type spelled at `b[lo..short]`, or else the one spelled at `b[lo..long]`.
pub open spec fn short_or_long(b: Seq<u8>, lo: int, short: int, long: int) -> Option<SqlType> {
    match type_of_bytes(b.subrange(lo, short)) {
        Some(t) => Some(t),
        None => type_of_bytes(b.subrange(lo, long)),
    }
}

/// Reading `short_or_long(b, lo, short, long)` from a string does not panic:
/// the short slice is in bounds, and the long one is too when the short one spells no type.
pub open spec fn short_or_long_ok(b: Seq<u8>, lo: int, short: int, long: int) -> bool {
    &&& slice_ok(b, lo, short)
    &&& (type_of_bytes(b.subrange(lo, short)) is None ==> slice_ok(b, lo, long))
}

/// A scalar type, or a slice `&[T]` of one (the flag tells which).
pub open spec fn scalar_variadic(b: Seq<u8>) -> Option<(SqlType, bool)> {
    match type_of_bytes(b) {
        Some(t) => Some((t, false)),
        None => if starts_with(b, slice_prefix()) {
            match short_or_long(b, 2, 5, 8) {
                Some(t) => Some((t, true)),
                None => None,
            }
        } else {
            None
        },
    }
}

/// The inputs on which reading a scalar or variadic type does not panic.
pub open spec fn scalar_variadic_ok(b: Seq<u8>) -> bool {
    type_of_bytes(b) is None && starts_with(b, slice_prefix()) ==> short_or_long_ok(b, 2, 5, 8)
}

fn has_prefix2(b: &[u8], p0: u8, p1: u8) -> (r: bool)
    ensures
        r == starts_with(b@, seq![p0, p1]),
{
    if b.len() < 2 {
        return false;
    }
    let r = b[0] == p0 && b[1] == p1;
    if r {
        assert(b@.subrange(0, 2) =~= seq![p0, p1]);
    } else {
        assert(b@.subrange(0, 2)[0] == b@[0]);
        assert(b@.subrange(0, 2)[1] == b@[1]);
    }
    r
}

fn has_prefix4(b: &[u8], p0: u8, p1: u8, p2: u8, p3: u8) -> (r: bool)
    ensures
        r == starts_with(b@, seq![p0, p1, p2, p3]),
{
    if b.len() < 4 {
        return false;
    }
    let r = b[0] == p0 && b[1] == p1 && b[2] == p2 && b[3] == p3;
    let ghost w = b@.subrange(0, 4);
    assert(w[0] == b@[0] && w[1] == b@[1] && w[2] == b@[2] && w[3] == b@[3]);
    if r {
        assert(w =~= seq![p0, p1, p2, p3]);
    }
    r
}

fn read_short_or_long(b: &[u8], lo: usize, short: usize, long: usize) -> (r: Option<SqlType>)
    requires
        lo <= short <= long,
        short <= b@.len(),
        type_of_bytes(b@.subrange(lo as int, short as int)) is None ==> long <= b@.len(),
    ensures
        r == short_or_long(b@, lo as int, short as int, long as int),
{
    match type_at(b, lo, short) {
        Some(t) => Some(t),
        None => type_at(b, lo, long),
    }
}

/// Reads a scalar type (`i32`), or a slice of one (`&[i32]`), in which case the flag is set.
pub fn parse_scalar_variadic(ty: &str) -> (r: Option<(SqlType, bool)>)
    requires
        scalar_variadic_ok(ty.spec_bytes()),
    ensures
        r == scalar_variadic(ty.spec_bytes()),
{
    let b = ty.as_bytes();
    match type_at(b, 0, b.len()) {
        Some(s) => {
            assert(b@.subrange(0, b@.len() as int) =~= b@);
            Some((s, false))
        },
        None => {
            assert(b@.subrange(0, b@.len() as int) =~= b@);
            if has_prefix2(b, 38u8, 91u8) {
                assert(seq![38u8, 91u8] =~= slice_prefix());
                match read_short_or_long(b, 2, 5, 8) {
                    Some(s) => Some((s, true)),
                    None => None,
                }
            } else {
                assert(seq![38u8, 91u8] =~= slice_prefix());
                None
            }
        },
    }
}

impl SqlType {
    /// Reads the Rust spelling of a scalar type: `i32`, `i64`, `f32`, `f64` or `String`.
    pub fn try_from(s: &str) -> (r: Result<SqlType, ()>)
        ensures
            r == match type_of_bytes(s.spec_bytes()) {
                Some(t) => Ok(t),
                None => Err::<SqlType, ()>(()),
            },
    {
        let b = s.as_bytes();
        assert(b@.subrange(0, b@.len() as int) =~= b@);
        match type_at(b, 0, b.len()) {
            Some(t) => Ok(t),
            None => Err(()),
        }
    }
}

impl SqlType {
    /// The Rust spelling of the type (`i32`, ..., `String`).
    pub fn to_string(&self) -> (r: String)
        ensures
            r@ == spelling(*self),
    {
        match self {
            SqlType::I32 => {
                proof { reveal_strlit("i32"); }
                "i32".to_owned()
            },
            SqlType::I64 => {
                proof { reveal_strlit("i64"); }
                "i64".to_owned()
            },
            SqlType::F32 => {
                proof { reveal_strlit("f32"); }
                "f32".to_owned()
            },
            SqlType::F64 => {
                proof { reveal_strlit("f64"); }
                "f64".to_owned()
            },
            SqlType::String => {
                proof { reveal_strlit("String"); }
                "String".to_owned()
            },
        }
    }
}

/// How the values of a scalar type reach an aggregate: as a borrowed slice `&[T]`,
/// as a slice of slices `&[&[T]]`, or as an owned vector `Vec<T>`.
#[derive(Debug, Clone, Copy, PartialEq, Eq, Structural)]
pub enum SqlAggType {
    Simple(SqlType),
    Nested(SqlType),
    Owned(SqlType),
}

/// Reads an aggregate type from its spelling: `&[&[T]]`, `&[T]` or `Vec<T>`.
pub open spec fn agg_of_bytes(b: Seq<u8>) -> Option<SqlAggType> {
    if starts_with(b, slice_prefix()) {
        if starts_with(b, nested_prefix()) {
            match short_or_long(b, 4, 7, 10) {
                Some(t) => Some(SqlAggType::Nested(t)),
                None => None,
            }
        } else {
            match short_or_long(b, 2, 5, 8) {
                Some(t) => Some(SqlAggType::Simple(t)),
                None => None,
            }
        }
    } else if starts_with(b, vec_prefix()) {
        match short_or_long(b, 4, 7, 10) {
            Some(t) => Some(SqlAggType::Owned(t)),
            None => None,
        }
    } else {
        None
    }
}

/// The inputs on which reading an aggregate type does not panic.
pub open spec fn agg_ok(b: Seq<u8>) -> bool {
    if starts_with(b, slice_prefix()) {
        if starts_with(b, nested_prefix()) {
            short_or_long_ok(b, 4, 7, 10)
        } else {
            short_or_long_ok(b, 2, 5, 8)
        }
    } else if starts_with(b, vec_prefix()) {
        short_or_long_ok(b, 4, 7, 10)
    } else {
        true
    }
}

/// The spelling of an aggregate type.
pub open spec fn agg_spelling(a: SqlAggType) -> Seq<char> {
    match a {
        SqlAggType::Simple(t) => seq!['&', '['] + spelling(t) + seq![']'],
        SqlAggType::Nested(t) => seq!['&', '[', '&', '['] + spelling(t) + seq![']', ']'],
        SqlAggType::Owned(t) => seq!['V', 'e', 'c', '<'] + spelling(t) + seq!['>'],
    }
}

impl SqlAggType {
    /// The scalar type of the aggregated values.
    pub fn inner(&self) -> (r: SqlType)
        ensures
            r == match *self {
                SqlAggType::Simple(t) => t,
                SqlAggType::Nested(t) => t,
                SqlAggType::Owned(t) => t,
            },
    {
        match self {
            SqlAggType::Simple(ty) => *ty,
            SqlAggType::Nested(ty) => *ty,
            SqlAggType::Owned(ty) => *ty,
        }
    }

    /// Reads an aggregate type: `&[&[T]]`, `&[T]` or `Vec<T>` for a scalar type `T`.
    pub fn try_from(s: &str) -> (r: Result<SqlAggType, ()>)
        requires
            agg_ok(s.spec_bytes()),
        ensures
            r == match agg_of_bytes(s.spec_bytes()) {
                Some(a) => Ok(a),
                None => Err::<SqlAggType, ()>(()),
            },
    {
        let b = s.as_bytes();
        assert(seq![38u8, 91u8] =~= slice_prefix());
        assert(seq![38u8, 91u8, 38u8, 91u8] =~= nested_prefix());
        assert(seq![86u8, 101u8, 99u8, 60u8] =~= vec_prefix());
        if has_prefix2(b, 38u8, 91u8) {
            if has_prefix4(b, 38u8, 91u8, 38u8, 91u8) {
                match read_short_or_long(b, 4, 7, 10) {
                    Some(t) => Ok(SqlAggType::Nested(t)),
                    None => Err(()),
                }
            } else {
                match read_short_or_long(b, 2, 5, 8) {
                    Some(t) => Ok(SqlAggType::Simple(t)),
                    None => Err(()),
                }
            }
        } else if has_prefix4(b, 86u8, 101u8, 99u8, 60u8) {
            match read_short_or_long(b, 4, 7, 10) {
                Some(t) => Ok(SqlAggType::Owned(t)),
                None => Err(()),
            }
        } else {
            Err(())
        }
    }

    /// The Rust spelling of the aggregate type (`&[T]`, `&[&[T]]` or `Vec<T>`).
    pub fn to_string(&self) -> (r: String)
        ensures
            r@ == agg_spelling(*self),
    {
        match self {
            SqlAggType::Simple(t) => {
                proof { reveal_strlit("&["); reveal_strlit("]"); }
                let mut out = "&[".to_owned();
                let name = t.to_string();
                out.append(name.as_str());
                out.append("]");
                out
            },
            SqlAggType::Nested(t) => {
                proof { reveal_strlit("&[&["); reveal_strlit("]]"); }
                let mut out = "&[&[".to_owned();
                let name = t.to_string();
                out.append(name.as_str());
                out.append("]]");
                out
            },
            SqlAggType::Owned(t) => {
                proof { reveal_strlit("Vec<"); reveal_strlit(">"); }
                let mut out = "Vec<".to_owned();
                let name = t.to_string();
                out.append(name.as_str());
                out.append(">");
                out
            },
        }
    }
}

/// The UTF-8 encoding of ASCII text is its characters, byte by byte, and every
/// position in it is a character boundary.
proof fn lemma_ascii_encoding(c: Seq<char>)
    requires
        is_ascii_chars(c),
    ensures
        encode_utf8(c) =~= Seq::new(c.len(), |i: int| c[i] as u8),
        forall|i: int| 0 <= i <= c.len() ==> #[trigger] is_char_boundary(encode_utf8(c), i),
{
    is_ascii_chars_encode_utf8(c);
    encode_utf8_valid_utf8(c);
    let b = encode_utf8(c);
    is_char_boundary_start_end_of_seq(b);
    assert forall|i: int| 0 <= i <= c.len() implies #[trigger] is_char_boundary(b, i) by {
        if i < c.len() {
            is_ascii_chars_nat_bound(c);
            assert((c[i] as nat) < 128);
            assert(b[i] == c[i] as u8);
            is_char_boundary_iff_not_is_continuation_byte(b, i);
        }
    }
}

proof fn lemma_spelling_ascii(t: SqlType)
    ensures
        is_ascii_chars(spelling(t)),
        encode_utf8(spelling(t)) == spelling_bytes(t),
{
    let c = spelling(t);
    assert(is_ascii_chars(c));
    lemma_ascii_encoding(c);
    assert(encode_utf8(c) =~= spelling_bytes(t));
}

/// Writing a scalar type out and reading it back gives the same type.
pub proof fn lemma_spelling_roundtrip(t: SqlType)
    ensures
        type_of_bytes(encode_utf8(spelling(t))) == Some(t),
        scalar_variadic_ok(encode_utf8(spelling(t))),
        scalar_variadic(encode_utf8(spelling(t))) == Some((t, false)),
{
    lemma_spelling_ascii(t);
}

/// Writing an aggregate type out and reading it back gives the same aggregate type,
/// without panicking.
pub proof fn lemma_agg_spelling_roundtrip(a: SqlAggType)
    ensures
        agg_ok(encode_utf8(agg_spelling(a))),
        agg_of_bytes(encode_utf8(agg_spelling(a))) == Some(a),
{
    let c = agg_spelling(a);
    let t = match a {
        SqlAggType::Simple(t) => t,
        SqlAggType::Nested(t) => t,
        SqlAggType::Owned(t) => t,
    };
    lemma_spelling_ascii(t);
    assert(is_ascii_chars(c));
    lemma_ascii_encoding(c);
    let b = encode_utf8(c);
    let n = spelling(t).len() as int;
    match a {
        SqlAggType::Simple(_) => {
            assert(b.subrange(0, 2) =~= slice_prefix());
            assert(b[2] != 38u8);
            assert(b.subrange(0, 4)[2] == b[2]);
            assert(b.subrange(2, 2 + n) =~= spelling_bytes(t));
            if n == 3 {
            } else {
                assert(b.subrange(2, 5)[0] == 83u8);
            }
        },
        SqlAggType::Nested(_) => {
            assert(b.subrange(0, 2) =~= slice_prefix());
            assert(b.subrange(0, 4) =~= nested_prefix());
            assert(b.subrange(4, 4 + n) =~= spelling_bytes(t));
            if n == 3 {
            } else {
                assert(b.subrange(4, 7)[0] == 83u8);
            }
        },
        SqlAggType::Owned(_) => {
            assert(b.subrange(0, 2)[0] == 86u8);
            assert(b.subrange(0, 4) =~= vec_prefix());
            assert(b.subrange(4, 4 + n) =~= spelling_bytes(t));
            if n == 3 {
            } else {
                assert(b.subrange(4, 7)[0] == 83u8);
            }
        },
    }
}

} // verus!
