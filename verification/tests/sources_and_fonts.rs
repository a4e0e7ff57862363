use queries::font::{font_from_matches, parse_font, parse_i32, FontData, FontSlant, FontWeight};
use queries::signature::{function_signature, FunctionMode};
use queries::source::{parse_fn_or_mod, parse_mod_signature, parse_nested_signatures, search_doc_at_tree, search_mod, FnItem, ModItem, SourceItem};

#[test]
fn parse_test() -> Result<(), ()> {
    let test = r#"
        pub mod internal {

            /// This is an internal function
            /// This is another doc line for internal function.
            #[sql_agg]
            pub fn sum_in(d : f32)->f32 { 0.0 }
        }

        /// This is an external function
        #[sql]
        pub fn sum_out(txt : String, args : f32)->String { txt } "#;
    let funcs = parse_nested_signatures(test).unwrap();
    for f in funcs.iter() {
        println!("{:?}", f);
    }
    Ok(())
}

#[test]
fn nested_signatures_are_read_in_source_order() {
    let text = r#"
        pub mod internal {
            /// Inner
            #[sql_agg]
            pub fn sum_in(d : & [f32]) -> f32 { 0.0 }
            fn hidden(x: i32) -> i32 { x }
        }
        mod private { pub fn skipped() -> i32 { 1 } }
        #[sql]
        pub fn sum_out(txt : String, args : f32) -> String { txt }
        pub struct S;
    "#;
    let funcs = parse_nested_signatures(text).unwrap();
    assert_eq!(funcs.len(), 2);
    assert_eq!(funcs[0].name, "sum_in");
    assert_eq!(funcs[0].args, vec![String::from("&[f32]")]);
    assert_eq!(funcs[0].ret, "f32");
    assert_eq!(funcs[0].mode, FunctionMode::Aggregate);
    assert_eq!(funcs[0].doc, Some(String::from("= \" Inner\"")));
    assert_eq!(funcs[1].name, "sum_out");
    assert_eq!(funcs[1].args, vec![String::from("String"), String::from("f32")]);
    assert_eq!(funcs[1].mode, FunctionMode::Simple);
    assert_eq!(funcs[1].doc, None);
}

#[test]
fn signatures_need_return_types_and_valid_rust() {
    assert!(parse_nested_signatures("pub fn f(x: i32) { }").is_none());
    assert!(parse_nested_signatures("pub fn f(x: i32 -> { }").is_none());
    assert_eq!(parse_nested_signatures("fn f(x: i32) { }").unwrap().len(), 0);
    let sigs = parse_nested_signatures("pub fn m(&self, x: & [ f64 ], y: i32) -> i64 { 0 }").unwrap();
    assert_eq!(sigs[0].args, vec![String::from("&[f64]"), String::from("i32")]);
}

fn fn_item(public: bool, name: &str, output: Option<&str>) -> FnItem {
    FnItem {
        public,
        name: name.to_string(),
        arg_types: vec![None, Some(String::from("Vec < i64 >"))],
        attrs: vec![(String::from("sql_win"), String::new())],
        output: output.map(|o| o.to_string()),
    }
}

#[test]
fn items_and_modules_give_their_public_functions() {
    let f = SourceItem::Fn(fn_item(true, "w", Some("Vec < i64 >")));
    let sigs = parse_fn_or_mod(&f).unwrap();
    assert_eq!(sigs.len(), 1);
    assert_eq!(sigs[0].args, vec![String::from("Vec<i64>")]);
    assert_eq!(sigs[0].ret, "Vec<i64>");
    assert_eq!(sigs[0].mode, FunctionMode::Window);
    assert_eq!(parse_fn_or_mod(&SourceItem::Fn(fn_item(false, "p", None))).unwrap().len(), 0);
    assert!(parse_fn_or_mod(&SourceItem::Fn(fn_item(true, "p", None))).is_none());
    let inner = ModItem { name: String::from("inner"), public: true, items: Some(vec![SourceItem::Fn(fn_item(true, "a", Some("i32"))), SourceItem::Other]) };
    let outer = ModItem { name: String::from("outer"), public: false, items: Some(vec![SourceItem::Mod(inner), SourceItem::Fn(fn_item(true, "b", Some("i32")))]) };
    let names: Vec<String> = parse_mod_signature(&outer).unwrap().into_iter().map(|f| f.name).collect();
    assert_eq!(names, vec![String::from("a"), String::from("b")]);
    assert_eq!(parse_fn_or_mod(&SourceItem::Mod(outer)).unwrap().len(), 0);
    assert_eq!(parse_mod_signature(&ModItem { name: String::from("m"), public: true, items: None }).unwrap().len(), 0);
}

#[test]
fn function_signature_from_parts() {
    let attrs = vec![
        (String::from("doc"), String::from("= \" a\"")),
        (String::from("sql"), String::new()),
        (String::from("doc"), String::from("= \" b\"")),
    ];
    let args = vec![Some(String::from("& [ f64 ]")), None, Some(String::from("i32"))];
    let f = function_signature(String::from("f"), &args, &attrs, Some("f64")).unwrap();
    assert_eq!(f.name, "f");
    assert_eq!(f.args, vec![String::from("&[f64]"), String::from("i32")]);
    assert_eq!(f.ret, "f64");
    assert_eq!(f.doc, Some(String::from("= \" a\"= \" b\"")));
    assert_eq!(f.mode, FunctionMode::Simple);
    assert!(function_signature(String::from("f"), &vec![], &vec![], None).is_none());
    let g = function_signature(String::from("g"), &vec![], &vec![], Some("i32")).unwrap();
    assert_eq!(g.mode, FunctionMode::Invalid);
    assert_eq!(g.doc, None);
}

#[test]
fn fonts_are_read_from_their_names() {
    let f = FontData::new_from_string("Liberation Sans Bold Italic 12");
    assert_eq!(f.font_family, "Liberation Sans ");
    assert_eq!(f.font_weight, FontWeight::Bold);
    assert_eq!(f.font_slant, FontSlant::Italic);
    assert_eq!(f.font_size, 12);
    let g = FontData::new_from_string("Monospace Oblique 10");
    assert_eq!(g.font_family, "Monospace ");
    assert_eq!(g.font_weight, FontWeight::Normal);
    assert_eq!(g.font_slant, FontSlant::Oblique);
    assert_eq!(g.font_size, 10);
    let h = FontData::new_from_string("Serif 14");
    assert_eq!(h.font_family, "Serif ");
    assert_eq!(h.font_slant, FontSlant::Normal);
    assert_eq!(h.font_size, 14);
}

#[test]
fn fonts_are_read_from_their_matches() {
    let name = "Liberation Sans Bold Italic 12";
    let f = font_from_matches(name, (28, 30), Some((21, 27)), Some(16)).unwrap();
    assert_eq!(f.font_family, "Liberation Sans ");
    assert_eq!(f.font_weight, FontWeight::Bold);
    assert_eq!(f.font_slant, FontSlant::Italic);
    assert_eq!(f.font_size, 12);
    let g = font_from_matches(name, (28, 30), Some((16, 20)), None).unwrap();
    assert_eq!(g.font_family, "Liberation Sans ");
    assert_eq!(g.font_weight, FontWeight::Normal);
    assert_eq!(g.font_slant, FontSlant::Normal);
    let h = font_from_matches(name, (28, 30), None, None).unwrap();
    assert_eq!(h.font_family, "Liberation Sans Bold Italic ");
    assert!(font_from_matches(name, (18, 20), None, None).is_none());
}

#[test]
fn fonts_without_a_size_are_refused() {
    assert!(parse_font("Serif").is_none());
    assert!(parse_font("Serif 9").is_none());
    assert_eq!(parse_font("Serif 09").unwrap().font_size, 9);
}

#[test]
fn font_descriptions() {
    let f = FontData::create_standard_font();
    assert_eq!(f.description(), "Liberation Sans12");
    let g = FontData { font_family: String::from("Mono"), font_weight: FontWeight::Bold, font_slant: FontSlant::Oblique, font_size: 8 };
    assert_eq!(g.description(), "Mono Oblique Bold8");
}

#[test]
fn integers_read_as_i32_reads_them() {
    let b = "x-2147483648+17 99999999999".as_bytes();
    assert_eq!(parse_i32(b, 1, 12), Some(i32::MIN));
    assert_eq!(parse_i32(b, 12, 15), Some(17));
    assert_eq!(parse_i32(b, 16, 27), None);
    assert_eq!(parse_i32(b, 0, 1), None);
    assert_eq!(parse_i32(b, 1, 2), None);
    assert_eq!(parse_i32(b, 3, 3), None);
}

#[test]
fn modules_are_found_by_name() {
    let leaf = ModItem { name: String::from("leaf"), public: false, items: None };
    let mid = ModItem { name: String::from("mid"), public: true, items: Some(vec![SourceItem::Other, SourceItem::Mod(leaf)]) };
    let root = SourceItem::Mod(ModItem { name: String::from("root"), public: true, items: Some(vec![SourceItem::Mod(mid)]) });
    assert_eq!(search_mod("leaf", &root).unwrap().name, "leaf");
    assert_eq!(search_mod("root", &root).unwrap().name, "root");
    assert!(search_mod("none", &root).is_none());
    assert!(search_mod("x", &SourceItem::Other).is_none());
}

#[test]
fn documentation_is_looked_up_in_sources() {
    let text = r#"
        /// First
        pub fn a() -> i32 { 1 }
        pub fn b() -> i32 { 2 }
        pub mod inner {
            /// Inner b
            pub fn b() -> i32 { 3 }
            /// Second a
            pub fn a() -> i32 { 4 }
        }
        /// Private c
        fn c() -> i32 { 5 }
    "#;
    let mut docs = vec![
        (String::from("a"), None),
        (String::from("b"), None),
        (String::from("c"), None),
        (String::from("d"), Some(String::from("kept"))),
    ];
    search_doc_at_tree(text, &mut docs);
    assert_eq!(docs[0], (String::from("a"), Some(String::from("= \" First\""))));
    assert_eq!(docs[1], (String::from("b"), Some(String::from("= \" Inner b\""))));
    assert_eq!(docs[2], (String::from("c"), None));
    assert_eq!(docs[3], (String::from("d"), Some(String::from("kept"))));
    let before = docs.clone();
    search_doc_at_tree("not rust {", &mut docs);
    assert_eq!(docs, before);
}
