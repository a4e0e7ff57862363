use queries::catalog::{
    FunctionCatalog, FunctionLibrary, FunctionRow, NumCatalog, NumFunction, NumFunctionLibrary, NumFunctionRow,
};
use queries::function::{Aggregate, Function};
use queries::sql_type::SqlType;

fn func(name: &str, doc: Option<&str>) -> Function {
    Function {
        name: name.to_string(),
        args: vec![SqlType::I32, SqlType::F64],
        ret: SqlType::F64,
        doc: doc.map(|d| d.to_string()),
        var_arg: false,
    }
}

fn lib(name: &str, active: bool, funcs: Vec<Function>) -> FunctionLibrary {
    FunctionLibrary {
        name: name.to_string(),
        active,
        funcs,
        aggs: Vec::new(),
        local_path: format!("/libs/{}/Cargo.toml", name),
        remote_path: None,
    }
}

fn catalog() -> FunctionCatalog {
    FunctionCatalog {
        libs: vec![
            lib("stats", true, vec![func("mean", Some("The mean")), func("sd", None)]),
            lib("strings", false, vec![func("upper", None), func("mean", Some("Shadowed"))]),
            lib("stats", true, vec![func("median", None)]),
        ],
    }
}

#[test]
fn functions_are_found_library_by_library() {
    let c = catalog();
    assert_eq!(c.get_func("mean").unwrap().doc, Some(String::from("The mean")));
    assert_eq!(c.get_func("upper").unwrap().name, "upper");
    assert!(c.get_func("median").is_some());
    assert!(c.get_func("mode").is_none());
    assert!(c.has_func_name("sd"));
    assert!(!c.has_func_name("mode"));
    assert_eq!(c.get_doc("mean"), Some(String::from("The mean")));
    assert_eq!(c.get_doc("sd"), None);
    assert_eq!(c.get_args("sd"), Some(vec![String::from("i32"), String::from("f64")]));
    assert_eq!(c.get_args("mode"), None);
}

#[test]
fn function_lists_use_the_first_library_of_a_name() {
    let c = catalog();
    let names: Vec<&str> = c.fn_list_for_lib("stats").iter().map(|f| f.name.as_str()).collect();
    assert_eq!(names, vec!["mean", "sd"]);
    assert!(c.fn_list_for_lib("none").is_empty());
    let (l, f) = c.find_fn("upper").unwrap();
    assert_eq!(l.name, "strings");
    assert_eq!(f.name, "upper");
    // the third library shares its name with the first, so its functions are never listed
    assert!(c.find_fn("median").is_none());
}

#[test]
fn library_lists_and_function_info() {
    let c = catalog();
    assert_eq!(
        c.lib_list(None),
        vec![(String::from("stats"), true), (String::from("strings"), false), (String::from("stats"), true)]
    );
    assert_eq!(c.lib_list(Some("str")), vec![(String::from("strings"), false)]);
    assert!(c.lib_list(Some("x")).is_empty());
    assert_eq!(c.fn_info(None), Some((String::new(), String::new())));
    assert_eq!(c.fn_info(Some("mean")), Some((String::from("mean"), String::from("The mean"))));
    assert_eq!(c.fn_info(Some("sd")), Some((String::from("sd"), String::from("No documentation available"))));
    assert_eq!(c.fn_info(Some("mode")), None);
}

#[test]
fn removing_a_crate_drops_its_first_library() {
    let mut c = catalog();
    assert!(c.remove_crate("stats"));
    assert_eq!(c.libs.len(), 2);
    assert_eq!(c.libs[0].name, "strings");
    assert_eq!(c.libs[1].name, "stats");
    assert!(!c.remove_crate("missing"));
    assert_eq!(c.libs.len(), 2);
}

fn agg(name: &str, init: &str, state: &str, fin: &str) -> Aggregate {
    Aggregate {
        name: name.to_string(),
        init_func: init.to_string(),
        state_func: state.to_string(),
        final_func: fin.to_string(),
    }
}

#[test]
fn aggregates_need_their_three_functions() {
    let mut l = lib("stats", true, vec![func("init", None), func("step", None), func("done", None)]);
    assert_eq!(l.reload_aggregates(vec![Some(agg("total", "init", "step", "done"))]), Ok(()));
    assert_eq!(l.aggs.len(), 1);
    assert_eq!(l.aggs[0].name, "total");
    assert_eq!(
        l.reload_aggregates(vec![Some(agg("total", "init", "step", "done")), Some(agg("bad", "init", "nope", "done"))]),
        Err("Missing component of aggregate function")
    );
    assert_eq!(
        l.reload_aggregates(vec![None, Some(agg("bad", "init", "nope", "done"))]),
        Err("Invalid aggregate found")
    );
}

fn row(name: &str, ret: &str) -> FunctionRow {
    FunctionRow { name: name.to_string(), doc: None, var_arg: true, ret: ret.to_string(), args: vec![SqlType::String] }
}

#[test]
fn functions_reload_from_registry_rows() {
    let mut l = lib("stats", true, vec![func("old", None)]);
    assert_eq!(l.reload_functions(vec![Some(row("a", "i64")), Some(row("b", "String"))]), Ok(()));
    assert_eq!(l.funcs.len(), 2);
    assert_eq!(l.funcs[1].name, "b");
    assert_eq!(l.funcs[1].ret, SqlType::String);
    assert!(l.funcs[0].var_arg);
    assert_eq!(l.reload_functions(vec![Some(row("a", "i64")), Some(row("b", "u8"))]), Err("Failed at converting return type"));
    assert!(l.funcs.is_empty());
    assert_eq!(l.reload_functions(vec![None, Some(row("b", "u8"))]), Err("Error retrieving nth row"));
    assert!(l.funcs.is_empty());
}

fn num(name: &str, args: &[&str], doc: &str) -> NumFunction {
    NumFunction { name: name.to_string(), args: args.iter().map(|a| a.to_string()).collect(), doc: doc.to_string() }
}

fn num_lib(name: &str, funcs: Vec<NumFunction>) -> NumFunctionLibrary {
    NumFunctionLibrary { name: name.to_string(), funcs, local_path: String::from("/lib.so"), remote_path: None }
}

#[test]
fn numeric_functions_are_listed_in_library_order() {
    let c = NumCatalog {
        libs: vec![
            num_lib("a", vec![num("pca", &["k"], "Principal components")]),
            num_lib("b", vec![num("kmeans", &["k", "iter"], "Clusters"), num("pca", &[], "Other")]),
        ],
    };
    let names: Vec<&str> = c.function_list().iter().map(|f| f.name.as_str()).collect();
    assert_eq!(names, vec!["pca", "kmeans", "pca"]);
    assert_eq!(c.get_func("pca").unwrap().doc, "Principal components");
    assert!(c.has_func_name("kmeans"));
    assert!(!c.has_func_name("svd"));
    assert_eq!(c.get_doc("kmeans"), Some(String::from("Clusters")));
    assert_eq!(c.get_args("kmeans"), Some(vec![String::from("k"), String::from("iter")]));
    assert_eq!(c.get_args("svd"), None);
}

fn num_row(name: &str, args: Option<Vec<&str>>) -> NumFunctionRow {
    NumFunctionRow {
        name: name.to_string(),
        doc: format!("{} docs", name),
        args: args.map(|a| a.iter().map(|s| s.to_string()).collect()),
    }
}

#[test]
fn numeric_libraries_repopulate() {
    let mut l = num_lib("a", vec![num("old", &[], "")]);
    assert_eq!(l.repopulate(Some(vec![Some(num_row("pca", Some(vec!["k"]))), None, Some(num_row("svd", Some(vec![])))])), Ok(()));
    assert_eq!(l.funcs.len(), 2);
    assert_eq!(l.funcs[0].args, vec![String::from("k")]);
    assert_eq!(l.funcs[1].doc, "svd docs");
    assert_eq!(l.repopulate(Some(vec![Some(num_row("pca", None))])), Err("Error retrieving nth row"));
    assert!(l.funcs.is_empty());
    assert_eq!(l.repopulate(None), Err("Error mapping argument query results"));
    assert!(l.funcs.is_empty());
}

#[test]
fn crates_are_updated_from_their_manifest() {
    let c = catalog();
    assert_eq!(c.update_crate("strings"), Ok(String::from("/libs/strings/Cargo.toml")));
    assert_eq!(c.update_crate("nope"), Err(String::from("Library nope not found")));
}
