use queries::sql_type::{parse_scalar_variadic, SqlAggType, SqlType};
use queries::function::{get_simple_type, Function};

#[test]
fn test() {
    let t1 = SqlAggType::try_from("&[i32]").unwrap();
    let t2 = SqlAggType::try_from("&[i64]").unwrap();
    let t3 = SqlAggType::try_from("&[f64]").unwrap();
    let t4 = SqlAggType::try_from("&[String]").unwrap();
    let t5 = SqlAggType::try_from("Vec<i32>").unwrap();
    let t6 = SqlAggType::try_from("Vec<i64>").unwrap();
    let t7 = SqlAggType::try_from("Vec<f64>").unwrap();
    let t8 = SqlAggType::try_from("Vec<String>").unwrap();
    let t9 = SqlAggType::try_from("&[&[i32]]").unwrap();
    let t10 = SqlAggType::try_from("&[&[i64]]").unwrap();
    let t11 = SqlAggType::try_from("&[&[f64]]").unwrap();
    let t12 = SqlAggType::try_from("&[&[String]]").unwrap();
    println!("{:?}", &[t1, t2, t3, t4, t5, t6, t7, t8, t9, t10, t11, t12]);
}

#[test]
fn agg_types_read_their_kind_and_inner_type() {
    assert_eq!(SqlAggType::try_from("&[i32]"), Ok(SqlAggType::Simple(SqlType::I32)));
    assert_eq!(SqlAggType::try_from("&[&[f64]]"), Ok(SqlAggType::Nested(SqlType::F64)));
    assert_eq!(SqlAggType::try_from("Vec<String>"), Ok(SqlAggType::Owned(SqlType::String)));
    assert_eq!(SqlAggType::try_from("Vec<i64>").unwrap().inner(), SqlType::I64);
    assert_eq!(SqlAggType::try_from("i32"), Err(()));
}

#[test]
fn agg_type_spelling_reads_back() {
    for s in ["&[i32]", "&[&[String]]", "Vec<f32>", "&[f64]", "Vec<i64>"] {
        let t = SqlAggType::try_from(s).unwrap();
        assert_eq!(t.to_string(), s);
        assert_eq!(SqlAggType::try_from(t.to_string().as_str()), Ok(t));
    }
}

#[test]
fn scalar_types_read_and_print() {
    assert_eq!(SqlType::try_from("i32"), Ok(SqlType::I32));
    assert_eq!(SqlType::try_from("i64"), Ok(SqlType::I64));
    assert_eq!(SqlType::try_from("f32"), Ok(SqlType::F32));
    assert_eq!(SqlType::try_from("f64"), Ok(SqlType::F64));
    assert_eq!(SqlType::try_from("String"), Ok(SqlType::String));
    assert_eq!(SqlType::try_from("string"), Err(()));
    assert_eq!(SqlType::try_from(" i32"), Err(()));
    assert_eq!(SqlType::try_from(""), Err(()));
    for t in [SqlType::I32, SqlType::I64, SqlType::F32, SqlType::F64, SqlType::String] {
        assert_eq!(SqlType::try_from(t.to_string().as_str()), Ok(t));
    }
}

#[test]
fn scalar_or_variadic_types() {
    assert_eq!(parse_scalar_variadic("i32"), Some((SqlType::I32, false)));
    assert_eq!(parse_scalar_variadic("&[f64]"), Some((SqlType::F64, true)));
    assert_eq!(parse_scalar_variadic("&[String]"), Some((SqlType::String, true)));
    assert_eq!(parse_scalar_variadic("Vec<i32>"), None);
    assert_eq!(parse_scalar_variadic("u8"), None);
}

#[test]
fn simple_types_of_printed_tokens() {
    assert_eq!(get_simple_type("& [& [f64]]"), Ok((SqlType::F64, true)));
    assert_eq!(get_simple_type("& [i32]"), Ok((SqlType::I32, false)));
    assert_eq!(get_simple_type("Vec < String >"), Ok((SqlType::String, false)));
    assert_eq!(get_simple_type("i64"), Ok((SqlType::I64, false)));
    assert_eq!(get_simple_type("u 8"), Err(String::from("u8")));
    assert_eq!(get_simple_type("Vec < Vec < i32 > >"), Ok((SqlType::I32, true)));
    assert_eq!(get_simple_type("Vec<Vec<String>>"), Ok((SqlType::String, true)));
    assert_eq!(get_simple_type("Vec<Vec<bool>>"), Err(String::from("Vec<Vec<bool>>")));
    assert_eq!(get_simple_type("bool"), Err(String::from("bool")));
}

#[test]
fn function_signatures_read_from_text() {
    let f = Function::from_str("  add(i32,i64)->f64 ").unwrap();
    assert_eq!(f.name, "add");
    assert_eq!(f.args, vec![SqlType::I32, SqlType::I64]);
    assert_eq!(f.ret, SqlType::F64);
    assert!(f.doc.is_none());
    assert!(!f.var_arg);
    assert!(Function::from_str("add(i32)").is_err());
    assert!(Function::from_str("add i32 -> i32").is_err());
    assert!(Function::from_str("add(i32, i64)->f64").is_err());
    assert!(Function::from_str("add(u8)->f64").is_err());
    assert!(Function::from_str("a(b(c(i32)->i32").is_err());
}
