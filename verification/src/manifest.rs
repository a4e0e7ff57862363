use vstd::prelude::*;
use vstd::string::StringExecFns;
use crate::text::str_eq;
use crate::sql_type::SqlType;
use crate::function::{Function, Aggregate, type_of_chars, all_types, types_of, signature_of};

verus! {

/// A TOML value, as the manifest reader sees it. Floats and datetimes are held
/// as the text toml writes for them; a table holds its entries in the order the
/// parser hands them out.
#[derive(Debug)]
pub enum TomlValue {
    String(String),
    Integer(i64),
    Float(String),
    Boolean(bool),
    Datetime(String),
    Array(Vec<TomlValue>),
    Table(Vec<(String, TomlValue)>),
}

#[verifier::external_type_specification]
#[verifier::external_body]
pub struct ExTomlValue(toml::Value);

/// What toml's parser makes of a document: its value, or the parser's message.
pub uninterp spec fn toml_document(text: Seq<char>) -> Result<TomlValue, Seq<char>>;

/// What toml's serializer writes for a value, or its message when it cannot.
pub uninterp spec fn toml_rendering(v: TomlValue) -> Result<Seq<char>, Seq<char>>;

/// Carries a parsed toml value over into the library's own model, one for one.
#[verifier::external_body]
fn value_from_toml(v: toml::Value) -> TomlValue {
    match v {
        toml::Value::String(s) => TomlValue::String(s),
        toml::Value::Integer(i) => TomlValue::Integer(i),
        toml::Value::Float(x) => TomlValue::Float(x.to_string()),
        toml::Value::Boolean(b) => TomlValue::Boolean(b),
        toml::Value::Datetime(d) => TomlValue::Datetime(d.to_string()),
        toml::Value::Array(a) => TomlValue::Array(a.into_iter().map(value_from_toml).collect()),
        toml::Value::Table(t) => TomlValue::Table(t.into_iter().map(|(k, x)| (k, value_from_toml(x))).collect()),
    }
}

/// Carries a scalar of the library's model back to a toml value; a float or
/// datetime text that toml cannot read back is carried as a string.
#[verifier::external_body]
fn scalar_to_toml(v: &TomlValue) -> toml::Value {
    match v {
        TomlValue::String(s) => toml::Value::String(s.clone()),
        TomlValue::Integer(i) => toml::Value::Integer(*i),
        TomlValue::Float(s) => s.parse().map(toml::Value::Float).unwrap_or_else(|_| toml::Value::String(s.clone())),
        TomlValue::Boolean(b) => toml::Value::Boolean(*b),
        TomlValue::Datetime(s) => s.parse().map(toml::Value::Datetime).unwrap_or_else(|_| toml::Value::String(s.clone())),
        _ => value_to_toml(v),
    }
}

/// Carries the library's model back to a toml value, one for one.
#[verifier::external_body]
fn value_to_toml(v: &TomlValue) -> toml::Value {
    match v {
        TomlValue::Array(a) => toml::Value::Array(a.iter().map(value_to_toml).collect()),
        TomlValue::Table(t) => toml::Value::Table(t.iter().map(|(k, x)| (k.clone(), value_to_toml(x))).collect()),
        _ => scalar_to_toml(v),
    }
}

/// `toml::Value::from_str` (toml's document parser). The result is the parser's,
/// a function of the text alone. What kind of value a parsed document is, is not
/// stated: it is a table except for toml's own datetime encoding.
#[verifier::external_body]
fn parse_document(text: &str) -> (r: Result<TomlValue, String>)
    ensures
        match toml_document(text@) {
            Ok(d) => r matches Ok(v) && v == d,
            Err(e) => r matches Err(m) && m@ == e,
        },
{
    match text.parse::<toml::Value>() {
        Ok(v) => Ok(value_from_toml(v)),
        Err(e) => Err(e.to_string()),
    }
}

/// `toml::ser::to_string` on a value (what toml's `Display` for a value writes).
/// The text is the serializer's, a function of the value alone.
#[verifier::external_body]
fn render_value(v: &TomlValue) -> (r: Result<String, String>)
    ensures
        match toml_rendering(*v) {
            Ok(t) => r matches Ok(s) && s@ == t,
            Err(e) => r matches Err(m) && m@ == e,
        },
{
    toml::ser::to_string(&value_to_toml(v)).map_err(|e| e.to_string())
}

/// The position of the first entry keyed `key` in `entries[i..]`.
pub open spec fn key_pos(entries: Seq<(String, TomlValue)>, key: Seq<char>, i: int) -> Option<int>
    decreases entries.len() - i,
{
    if i < 0 || i >= entries.len() {
        None
    } else if entries[i].0@ == key {
        Some(i)
    } else {
        key_pos(entries, key, i + 1)
    }
}

/// The value under `key` in a table's entries (the first entry so keyed).
pub open spec fn table_get(entries: Seq<(String, TomlValue)>, key: Seq<char>) -> Option<TomlValue> {
    match key_pos(entries, key, 0) {
        Some(k) => Some(entries[k].1),
        None => None,
    }
}

/// The value under `key` when `v` is a table that has it (toml's `Value::get`).
pub open spec fn lookup(v: TomlValue, key: Seq<char>) -> Option<TomlValue> {
    match v {
        TomlValue::Table(entries) => table_get(entries@, key),
        _ => None,
    }
}

/// The value under `key` in a table's entries.
pub fn get_entry<'a>(entries: &'a Vec<(String, TomlValue)>, key: &str) -> (r: Option<&'a TomlValue>)
    ensures
        match table_get(entries@, key@) {
            Some(x) => r matches Some(y) && *y == x,
            None => r is None,
        },
{
    let mut k: usize = 0;
    while k < entries.len()
        invariant
            k <= entries@.len(),
            key_pos(entries@, key@, 0) == key_pos(entries@, key@, k as int),
        decreases entries@.len() - k,
    {
        if str_eq(entries[k].0.as_str(), key) {
            assert(key_pos(entries@, key@, k as int) == Some(k as int));
            return Some(&entries[k].1);
        }
        k = k + 1;
    }
    None
}

/// The value under `key` in `v`, when `v` is a table that has it.
pub fn get<'a>(v: &'a TomlValue, key: &str) -> (r: Option<&'a TomlValue>)
    ensures
        match lookup(*v, key@) {
            Some(x) => r matches Some(y) && *y == x,
            None => r is None,
        },
{
    match v {
        TomlValue::Table(entries) => get_entry(entries, key),
        _ => None,
    }
}

/// The text under `key`, when it is a string.
pub open spec fn field_str(v: TomlValue, key: Seq<char>) -> Option<Seq<char>> {
    match lookup(v, key) {
        Some(TomlValue::String(s)) => Some(s@),
        _ => None,
    }
}

/// The text under `key` in `v`, when it is a string.
pub fn string_field(v: &TomlValue, key: &str) -> (r: Option<String>)
    ensures
        match field_str(*v, key@) {
            Some(s) => r matches Some(t) && t@ == s,
            None => r is None,
        },
{
    match get(v, key) {
        Some(TomlValue::String(s)) => Some(s.clone()),
        _ => None,
    }
}

/// The text of a string value (empty for any other value).
pub open spec fn text_of(v: TomlValue) -> Seq<char> {
    match v {
        TomlValue::String(s) => s@,
        _ => Seq::empty(),
    }
}

/// Whether every value is a string.
pub open spec fn all_strings(a: Seq<TomlValue>) -> bool {
    forall|k: int| 0 <= k < a.len() ==> #[trigger] a[k] is String
}

/// The texts of the values.
pub open spec fn texts(a: Seq<TomlValue>) -> Seq<Seq<char>> {
    Seq::new(a.len(), |k: int| text_of(a[k]))
}

/// The types spelled by the array under `key`, when it is an array of strings
/// that each spell a type.
pub open spec fn field_types(v: TomlValue, key: Seq<char>) -> Option<Seq<SqlType>> {
    match lookup(v, key) {
        Some(TomlValue::Array(a)) => if all_strings(a@) && all_types(texts(a@)) {
            Some(types_of(texts(a@)))
        } else {
            None
        },
        _ => None,
    }
}

/// The type spelled by the string under `key`, if any.
pub open spec fn field_type(v: TomlValue, key: Seq<char>) -> Option<SqlType> {
    match field_str(v, key) {
        Some(s) => type_of_chars(s),
        None => None,
    }
}

/// The flag under `key`: its value when it is a boolean, else false.
pub open spec fn field_flag(v: TomlValue, key: Seq<char>) -> bool {
    match lookup(v, key) {
        Some(TomlValue::Boolean(b)) => b,
        _ => false,
    }
}

/// The types spelled by the array under `key` in `v`, when every item is a
/// string that spells one.
pub fn types_field(v: &TomlValue, key: &str) -> (r: Option<Vec<SqlType>>)
    ensures
        match field_types(*v, key@) {
            Some(ts) => r matches Some(u) && u@ == ts,
            None => r is None,
        },
{
    match get(v, key) {
        Some(TomlValue::Array(a)) => {
            let mut out: Vec<SqlType> = Vec::new();
            let mut k: usize = 0;
            while k < a.len()
                invariant
                    lookup(*v, key@) == Some(TomlValue::Array(*a)),
                    k <= a@.len(),
                    out@.len() == k,
                    forall|m: int| 0 <= m < k ==> #[trigger] a@[m] is String,
                    forall|m: int| 0 <= m < k ==> type_of_chars(#[trigger] texts(a@)[m]) == Some(out@[m]),
                decreases a@.len() - k,
            {
                match &a[k] {
                    TomlValue::String(s) => {
                        match SqlType::try_from(s.as_str()) {
                            Ok(t) => out.push(t),
                            Err(()) => {
                                assert(type_of_chars(texts(a@)[k as int]) is None);
                                assert(!all_types(texts(a@)));
                                return None;
                            },
                        }
                    },
                    _ => {
                        assert(!(a@[k as int] is String));
                        assert(!all_strings(a@));
                        return None;
                    },
                }
                k = k + 1;
            }
            assert(out@ =~= types_of(texts(a@)));
            Some(out)
        },
        _ => None,
    }
}

/// The type spelled by the string under `key` in `v`, if any.
pub fn type_field(v: &TomlValue, key: &str) -> (r: Option<SqlType>)
    ensures
        r == field_type(*v, key@),
{
    match get(v, key) {
        Some(TomlValue::String(s)) => match SqlType::try_from(s.as_str()) {
            Ok(t) => Some(t),
            Err(()) => None,
        },
        _ => None,
    }
}

/// The flag under `key` in `v`: its value when it is a boolean, else false.
pub fn flag_field(v: &TomlValue, key: &str) -> (r: bool)
    ensures
        r == field_flag(*v, key@),
{
    match get(v, key) {
        Some(TomlValue::Boolean(b)) => *b,
        _ => false,
    }
}

/// Whether a `sql` entry describes an aggregate: it names the aggregate and its
/// initial, state and final functions, all as strings.
pub open spec fn is_agg_entry(f: TomlValue) -> bool {
    &&& field_str(f, "aggregate"@) is Some
    &&& field_str(f, "init"@) is Some
    &&& field_str(f, "state"@) is Some
    &&& field_str(f, "final"@) is Some
}

/// Whether a `sql` entry describes a scalar function: a name, an array of
/// argument types and a return type, each spelling a type.
pub open spec fn is_func_entry(f: TomlValue) -> bool {
    &&& field_str(f, "scalar"@) is Some
    &&& field_types(f, "args"@) is Some
    &&& field_type(f, "ret"@) is Some
}

/// The first entry of `es[..n]` that describes neither an aggregate nor a function.
pub open spec fn first_bad_entry(es: Seq<TomlValue>, n: int) -> Option<int>
    decreases n,
{
    if n <= 0 {
        None
    } else {
        match first_bad_entry(es, n - 1) {
            Some(k) => Some(k),
            None => if is_agg_entry(es[n - 1]) || is_func_entry(es[n - 1]) { None } else { Some(n - 1) },
        }
    }
}

/// The aggregate entries of `es[..n]`, in order.
pub open spec fn agg_entries(es: Seq<TomlValue>, n: int) -> Seq<TomlValue>
    decreases n,
{
    if n <= 0 {
        Seq::empty()
    } else if is_agg_entry(es[n - 1]) {
        agg_entries(es, n - 1).push(es[n - 1])
    } else {
        agg_entries(es, n - 1)
    }
}

/// The entries of `es[..n]` that are not aggregates, in order.
pub open spec fn func_entries(es: Seq<TomlValue>, n: int) -> Seq<TomlValue>
    decreases n,
{
    if n <= 0 {
        Seq::empty()
    } else if is_agg_entry(es[n - 1]) {
        func_entries(es, n - 1)
    } else {
        func_entries(es, n - 1).push(es[n - 1])
    }
}

/// The aggregate an entry describes.
pub open spec fn agg_matches(a: Aggregate, f: TomlValue) -> bool {
    &&& Some(a.name@) == field_str(f, "aggregate"@)
    &&& Some(a.init_func@) == field_str(f, "init"@)
    &&& Some(a.state_func@) == field_str(f, "state"@)
    &&& Some(a.final_func@) == field_str(f, "final"@)
}

/// The function an entry describes, before its documentation is looked up.
pub open spec fn func_matches(g: Function, f: TomlValue) -> bool {
    &&& Some(g.name@) == field_str(f, "scalar"@)
    &&& Some(g.args@) == field_types(f, "args"@)
    &&& Some(g.ret) == field_type(f, "ret"@)
    &&& g.doc is None
    &&& g.var_arg == field_flag(f, "var_arg"@)
}

/// The entries of the manifest's `package.metadata.sql` array, if it has one.
pub open spec fn sql_entries(doc: TomlValue) -> Option<Seq<TomlValue>> {
    match lookup(doc, "package"@) {
        Some(pkg) => match lookup(pkg, "metadata"@) {
            Some(meta) => match lookup(meta, "sql"@) {
                Some(TomlValue::Array(a)) => Some(a@),
                _ => None,
            },
            None => None,
        },
        None => None,
    }
}

/// The library's source path: `lib.path` when it is a string, else `src/lib.rs`.
pub open spec fn source_path(doc: TomlValue) -> Seq<char> {
    match lookup(doc, "lib"@) {
        Some(lib) => match field_str(lib, "path"@) {
            Some(p) => p,
            None => "src/lib.rs"@,
        },
        None => "src/lib.rs"@,
    }
}

/// The message for an entry that describes nothing: the entry as toml writes it
/// (or, where toml cannot write it, toml's message).
pub open spec fn entry_error(f: TomlValue) -> Seq<char> {
    "Invalid SQL metadata entry : "@ + match toml_rendering(f) {
        Ok(t) => t,
        Err(e) => e,
    }
}

/// Why a manifest is refused, checked in this order: no `package` table, no
/// `package.name`, a name that is not a string, no `package.metadata.sql` array,
/// and the first entry that describes neither an aggregate nor a function.
pub open spec fn manifest_error(doc: TomlValue) -> Option<Seq<char>> {
    match lookup(doc, "package"@) {
        None => Some("Could not get package table"@),
        Some(pkg) => match lookup(pkg, "name"@) {
            None => Some("Could not get crate name"@),
            Some(TomlValue::String(_)) => match sql_entries(doc) {
                None => Some("Manifest missing 'sql' metadata field"@),
                Some(es) => match first_bad_entry(es, es.len() as int) {
                    Some(k) => Some(entry_error(es[k])),
                    None => None,
                },
            },
            Some(_) => Some("Package name field should be a string"@),
        },
    }
}

/// What a crate's manifest declares: the package name, the library's source
/// path, its scalar functions and its aggregates.
#[derive(Debug)]
pub struct Manifest {
    pub name: String,
    pub src_path: String,
    pub funcs: Vec<Function>,
    pub aggs: Vec<Aggregate>,
}

/// Whether `m` is what the (accepted) manifest `doc` declares.
pub open spec fn manifest_matches(m: Manifest, doc: TomlValue) -> bool {
    let es = sql_entries(doc)->0;
    let aggs = agg_entries(es, es.len() as int);
    let funcs = func_entries(es, es.len() as int);
    &&& Some(m.name@) == field_str(lookup(doc, "package"@)->0, "name"@)
    &&& m.src_path@ == source_path(doc)
    &&& m.aggs@.len() == aggs.len()
    &&& forall|k: int| 0 <= k < aggs.len() ==> agg_matches(#[trigger] m.aggs@[k], aggs[k])
    &&& m.funcs@.len() == funcs.len()
    &&& forall|k: int| 0 <= k < funcs.len() ==> func_matches(#[trigger] m.funcs@[k], funcs[k])
}

proof fn lemma_bad_entry_stays(es: Seq<TomlValue>, k: int, n: int)
    requires
        0 <= k <= n,
        first_bad_entry(es, k).is_some(),
    ensures
        first_bad_entry(es, n) == first_bad_entry(es, k),
    decreases n - k,
{
    if n > k {
        lemma_bad_entry_stays(es, k, n - 1);
    }
}

/// Reads what a parsed manifest declares (see `manifest_error` for when it is
/// refused). Functions come without documentation, which lives in the sources.
pub fn manifest_from_value(doc: &TomlValue) -> (r: Result<Manifest, String>)
    ensures
        match manifest_error(*doc) {
            Some(e) => r matches Err(m) && m@ == e,
            None => r matches Ok(mf) && manifest_matches(mf, *doc),
        },
{
    let pkg = match get(doc, "package") {
        Some(p) => p,
        None => return Err("Could not get package table".to_owned()),
    };
    let name = match get(pkg, "name") {
        Some(TomlValue::String(s)) => s.clone(),
        Some(_) => return Err("Package name field should be a string".to_owned()),
        None => return Err("Could not get crate name".to_owned()),
    };
    let entries = match get(pkg, "metadata") {
        Some(meta) => match get(meta, "sql") {
            Some(TomlValue::Array(a)) => a,
            _ => return Err("Manifest missing 'sql' metadata field".to_owned()),
        },
        None => return Err("Manifest missing 'sql' metadata field".to_owned()),
    };
    let ghost es = entries@;
    assert(sql_entries(*doc) == Some(es));
    let mut funcs: Vec<Function> = Vec::new();
    let mut aggs: Vec<Aggregate> = Vec::new();
    let mut k: usize = 0;
    while k < entries.len()
        invariant
            es == entries@,
            sql_entries(*doc) == Some(es),
            lookup(*doc, "package"@) == Some(*pkg),
            field_str(*pkg, "name"@) == Some(name@),
            k <= es.len(),
            first_bad_entry(es, k as int) is None,
            aggs@.len() == agg_entries(es, k as int).len(),
            forall|m: int| 0 <= m < aggs@.len() ==> agg_matches(#[trigger] aggs@[m], agg_entries(es, k as int)[m]),
            funcs@.len() == func_entries(es, k as int).len(),
            forall|m: int| 0 <= m < funcs@.len() ==> func_matches(#[trigger] funcs@[m], func_entries(es, k as int)[m]),
        decreases es.len() - k,
    {
        let f = &entries[k];
        let agg = string_field(f, "aggregate");
        let init = string_field(f, "init");
        let state = string_field(f, "state");
        let fin = string_field(f, "final");
        match (agg, init, state, fin) {
            (Some(agg_name), Some(init_func), Some(state_func), Some(final_func)) => {
                aggs.push(Aggregate { name: agg_name, init_func, state_func, final_func });
                assert(agg_entries(es, k + 1) == agg_entries(es, k as int).push(es[k as int]));
                assert(func_entries(es, k + 1) == func_entries(es, k as int));
            },
            _ => {
                let scalar = string_field(f, "scalar");
                let args = types_field(f, "args");
                let ret = type_field(f, "ret");
                match (scalar, args, ret) {
                    (Some(fn_name), Some(arg_types), Some(ret_type)) => {
                        let var_arg = flag_field(f, "var_arg");
                        funcs.push(Function { name: fn_name, args: arg_types, ret: ret_type, doc: None, var_arg });
                        assert(agg_entries(es, k + 1) == agg_entries(es, k as int));
                        assert(func_entries(es, k + 1) == func_entries(es, k as int).push(es[k as int]));
                    },
                    _ => {
                        proof { lemma_bad_entry_stays(es, k + 1, es.len() as int); }
                        let text = match render_value(f) {
                            Ok(t) => t,
                            Err(e) => e,
                        };
                        let mut msg = "Invalid SQL metadata entry : ".to_owned();
                        msg.append(text.as_str());
                        return Err(msg);
                    },
                }
            },
        }
        k = k + 1;
    }
    let src_path = match get(doc, "lib") {
        Some(lib) => match string_field(lib, "path") {
            Some(p) => p,
            None => "src/lib.rs".to_owned(),
        },
        None => "src/lib.rs".to_owned(),
    };
    Ok(Manifest { name, src_path, funcs, aggs })
}

/// Parses a crate's manifest text and reads what it declares. Text toml cannot
/// parse is refused with the parser's message.
pub fn read_manifest(text: &str) -> (r: Result<Manifest, String>)
    ensures
        match toml_document(text@) {
            Err(e) => r matches Err(m) && m@ == "Could not parse toml file: "@ + e,
            Ok(doc) => match manifest_error(doc) {
                Some(e) => r matches Err(m) && m@ == e,
                None => r matches Ok(mf) && manifest_matches(mf, doc),
            },
        },
{
    match parse_document(text) {
        Ok(doc) => manifest_from_value(&doc),
        Err(e) => {
            let mut msg = "Could not parse toml file: ".to_owned();
            msg.append(e.as_str());
            Err(msg)
        },
    }
}

impl Aggregate {
    /// Reads an aggregate from a table with string fields `init`, `state`,
    /// `final` and `name`; anything else is refused.
    pub fn try_from(val: TomlValue) -> (r: Result<Aggregate, ()>)
        ensures
            match r {
                Ok(a) => {
                    &&& val is Table
                    &&& Some(a.init_func@) == field_str(val, "init"@)
                    &&& Some(a.state_func@) == field_str(val, "state"@)
                    &&& Some(a.final_func@) == field_str(val, "final"@)
                    &&& Some(a.name@) == field_str(val, "name"@)
                },
                Err(()) => !(val is Table) || field_str(val, "init"@) is None || field_str(val, "state"@) is None
                    || field_str(val, "final"@) is None || field_str(val, "name"@) is None,
            },
    {
        match &val {
            TomlValue::Table(_) => {
                let init_func = match string_field(&val, "init") {
                    Some(s) => s,
                    None => return Err(()),
                };
                let state_func = match string_field(&val, "state") {
                    Some(s) => s,
                    None => return Err(()),
                };
                let final_func = match string_field(&val, "final") {
                    Some(s) => s,
                    None => return Err(()),
                };
                let name = match string_field(&val, "name") {
                    Some(s) => s,
                    None => return Err(()),
                };
                Ok(Aggregate { name, init_func, state_func, final_func })
            },
            _ => Err(()),
        }
    }
}

/// The `variadic` flag of a table of function fields: `Some(false)` when it is
/// absent, its value when it is a boolean, and `None` (refused) otherwise.
pub open spec fn variadic_of(tbl: Seq<(String, TomlValue)>) -> Option<bool> {
    match table_get(tbl, "variadic"@) {
        None => Some(false),
        Some(TomlValue::Boolean(b)) => Some(b),
        Some(_) => None,
    }
}

/// Reads a function from a table: its signature under `name` (as
/// `Function::from_str` reads it) and an optional boolean `variadic`. A
/// `variadic` that is not a boolean, a missing or non-string `name`, or a
/// signature that does not read are refused.
pub fn simple_from_table(tbl: &Vec<(String, TomlValue)>) -> (r: Result<Function, ()>)
    ensures
        match r {
            Ok(f) => {
                &&& variadic_of(tbl@) == Some(f.var_arg)
                &&& table_get(tbl@, "name"@) matches Some(TomlValue::String(s))
                    && signature_of(s@) == Some((f.name@, f.args@, f.ret))
                &&& f.doc is None
            },
            Err(()) => {
                ||| variadic_of(tbl@) is None
                ||| !(table_get(tbl@, "name"@) matches Some(TomlValue::String(_)))
                ||| (table_get(tbl@, "name"@) matches Some(TomlValue::String(s)) && signature_of(s@) is None)
            },
        },
{
    let variadic = match get_entry(tbl, "variadic") {
        Some(TomlValue::Boolean(b)) => *b,
        None => false,
        _ => return Err(()),
    };
    match get_entry(tbl, "name") {
        Some(TomlValue::String(s)) => {
            let mut func = Function::from_str(s.as_str())?;
            func.var_arg = variadic;
            Ok(func)
        },
        _ => Err(()),
    }
}

impl Function {
    /// Reads a function from a string value holding its signature (as
    /// `Function::from_str` reads it); any other value is refused.
    pub fn try_from(val: TomlValue) -> (r: Result<Function, ()>)
        ensures
            match r {
                Ok(f) => val matches TomlValue::String(s) && signature_of(s@) == Some((f.name@, f.args@, f.ret))
                    && f.doc is None && !f.var_arg,
                Err(()) => !(val is String) || signature_of(text_of(val)) is None,
            },
    {
        match val {
            TomlValue::String(s) => Function::from_str(s.as_str()),
            _ => Err(()),
        }
    }
}

/// Every entry of an accepted manifest becomes exactly one aggregate or one
/// function: their numbers add up to the number of entries.
pub proof fn lemma_entries_partition(es: Seq<TomlValue>, n: int)
    requires
        0 <= n <= es.len(),
    ensures
        agg_entries(es, n).len() + func_entries(es, n).len() == n,
    decreases n,
{
    if n > 0 {
        lemma_entries_partition(es, n - 1);
    }
}

/// Every function an accepted manifest declares has a name, argument types and a
/// return type that all read, and every aggregate names its three functions.
pub proof fn lemma_accepted_entries_read(es: Seq<TomlValue>, n: int)
    requires
        0 <= n <= es.len(),
        first_bad_entry(es, n) is None,
    ensures
        forall|k: int| 0 <= k < func_entries(es, n).len() ==> is_func_entry(#[trigger] func_entries(es, n)[k]),
        forall|k: int| 0 <= k < agg_entries(es, n).len() ==> is_agg_entry(#[trigger] agg_entries(es, n)[k]),
    decreases n,
{
    if n > 0 {
        assert(first_bad_entry(es, n - 1) is None);
        lemma_accepted_entries_read(es, n - 1);
        assert(is_agg_entry(es[n - 1]) || is_func_entry(es[n - 1]));
        if is_agg_entry(es[n - 1]) {
            assert(agg_entries(es, n) == agg_entries(es, n - 1).push(es[n - 1]));
            assert(func_entries(es, n) == func_entries(es, n - 1));
        } else {
            assert(agg_entries(es, n) == agg_entries(es, n - 1));
            assert(func_entries(es, n) == func_entries(es, n - 1).push(es[n - 1]));
        }
    }
}

} // verus!
