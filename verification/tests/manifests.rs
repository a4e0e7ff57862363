use queries::function::{Aggregate, Function};
use queries::manifest::{get, read_manifest, simple_from_table, string_field, types_field, TomlValue};
use queries::sql_type::SqlType;

const MANIFEST: &str = r#"
[package]
name = "mylib"
version = "0.1.0"

[package.metadata]
sql = [
    { scalar = "add", args = ["i32", "f64"], ret = "f64" },
    { aggregate = "total", init = "t_init", state = "t_step", final = "t_done" },
    { scalar = "concat", args = ["String"], ret = "String", var_arg = true },
]

[lib]
path = "src/mylib.rs"
"#;

#[test]
fn manifests_declare_functions_and_aggregates() {
    let m = read_manifest(MANIFEST).unwrap();
    assert_eq!(m.name, "mylib");
    assert_eq!(m.src_path, "src/mylib.rs");
    assert_eq!(m.funcs.len(), 2);
    assert_eq!(m.funcs[0].name, "add");
    assert_eq!(m.funcs[0].args, vec![SqlType::I32, SqlType::F64]);
    assert_eq!(m.funcs[0].ret, SqlType::F64);
    assert!(!m.funcs[0].var_arg);
    assert!(m.funcs[0].doc.is_none());
    assert_eq!(m.funcs[1].name, "concat");
    assert!(m.funcs[1].var_arg);
    assert_eq!(m.aggs.len(), 1);
    assert_eq!(m.aggs[0].name, "total");
    assert_eq!(m.aggs[0].init_func, "t_init");
    assert_eq!(m.aggs[0].state_func, "t_step");
    assert_eq!(m.aggs[0].final_func, "t_done");
}

#[test]
fn manifest_source_path_defaults() {
    let text = "[package]\nname = \"x\"\n[package.metadata]\nsql = []\n";
    let m = read_manifest(text).unwrap();
    assert_eq!(m.src_path, "src/lib.rs");
    assert!(m.funcs.is_empty());
    assert!(m.aggs.is_empty());
}

#[test]
fn manifests_refused() {
    assert!(read_manifest("[package\nname=").unwrap_err().starts_with("Could not parse toml file: "));
    assert_eq!(read_manifest("[lib]\npath = \"a\"\n").unwrap_err(), "Could not get package table");
    assert_eq!(
        read_manifest("\"$__toml_private_datetime\" = \"1979-05-27T07:32:00Z\"\n").unwrap_err(),
        "Could not get package table"
    );
    assert_eq!(read_manifest("[package]\nversion = \"1\"\n").unwrap_err(), "Could not get crate name");
    assert_eq!(read_manifest("[package]\nname = 3\n").unwrap_err(), "Package name field should be a string");
    assert_eq!(read_manifest("[package]\nname = \"x\"\n").unwrap_err(), "Manifest missing 'sql' metadata field");
    assert_eq!(
        read_manifest("[package]\nname = \"x\"\n[package.metadata]\nsql = \"no\"\n").unwrap_err(),
        "Manifest missing 'sql' metadata field"
    );
}

#[test]
fn invalid_entries_are_shown_as_toml_writes_them() {
    let text = "[package]\nname = \"x\"\n[package.metadata]\nsql = [ { scalar = \"f\", args = [\"u8\"], ret = \"i32\" } ]\n";
    let e = read_manifest(text).unwrap_err();
    assert!(e.starts_with("Invalid SQL metadata entry : "));
    assert!(e.contains("scalar = \"f\""));
    assert!(e.contains("ret = \"i32\""));
    let text = "[package]\nname = \"x\"\n[package.metadata]\nsql = [ \"f\" ]\n";
    assert_eq!(read_manifest(text).unwrap_err(), "Invalid SQL metadata entry : \"f\"");
}

fn s(v: &str) -> TomlValue {
    TomlValue::String(v.to_string())
}

fn table(entries: Vec<(&str, TomlValue)>) -> TomlValue {
    TomlValue::Table(entries.into_iter().map(|(k, v)| (k.to_string(), v)).collect())
}

#[test]
fn toml_fields_are_looked_up_by_key() {
    let t = table(vec![
        ("name", s("a")),
        ("n", TomlValue::Integer(3)),
        ("args", TomlValue::Array(vec![s("i32"), s("String")])),
        ("bad", TomlValue::Array(vec![s("i32"), TomlValue::Integer(1)])),
    ]);
    assert!(get(&t, "n").is_some());
    assert!(get(&t, "m").is_none());
    assert!(get(&s("x"), "n").is_none());
    assert_eq!(string_field(&t, "name"), Some(String::from("a")));
    assert_eq!(string_field(&t, "n"), None);
    assert_eq!(types_field(&t, "args"), Some(vec![SqlType::I32, SqlType::String]));
    assert_eq!(types_field(&t, "bad"), None);
}

#[test]
fn aggregates_read_from_tables() {
    let t = table(vec![("init", s("i")), ("state", s("s")), ("final", s("f")), ("name", s("agg"))]);
    let a: Aggregate = Aggregate::try_from(t).unwrap();
    assert_eq!(a.name, "agg");
    assert_eq!(a.init_func, "i");
    assert_eq!(a.state_func, "s");
    assert_eq!(a.final_func, "f");
    assert!(Aggregate::try_from(table(vec![("init", s("i")), ("state", s("s")), ("final", s("f"))])).is_err());
    assert!(Aggregate::try_from(s("agg")).is_err());
}

#[test]
fn functions_read_from_toml_values() {
    let f = Function::try_from(s("sq(f64)->f64")).unwrap();
    assert_eq!(f.name, "sq");
    assert_eq!(f.args, vec![SqlType::F64]);
    assert!(Function::try_from(TomlValue::Integer(1)).is_err());
    assert!(Function::try_from(s("sq f64")).is_err());
    let entries = vec![(String::from("name"), s("cat(String)->String")), (String::from("variadic"), TomlValue::Boolean(true))];
    let g = simple_from_table(&entries).unwrap();
    assert_eq!(g.name, "cat");
    assert!(g.var_arg);
    let plain = vec![(String::from("name"), s("cat(String)->String"))];
    assert!(!simple_from_table(&plain).unwrap().var_arg);
    let bad = vec![(String::from("name"), s("cat(String)->String")), (String::from("variadic"), s("yes"))];
    assert!(simple_from_table(&bad).is_err());
    assert!(simple_from_table(&vec![]).is_err());
}
