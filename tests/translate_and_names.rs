use chitin::translate::{rewrite_type, to_typescript_return_type};
use chitin::util::{gen_enum_json, to_typescript_type};
use chitin::{
    gen_arg_string, get_handler_name, get_query_func_name, get_router_name, CodegenOption, Request,
};

fn req(ty: &str, name: &str) -> Request {
    Request { ty: ty.to_owned(), name: name.to_owned() }
}

#[test]
fn translate_paths_and_vec() {
    assert_eq!(to_typescript_type("Vec<crate::User>"), "Array<User>");
    assert_eq!(to_typescript_type("std::vec::Vec<models::User>"), "Array<User>");
}

#[test]
fn translate_unit_by_site() {
    assert_eq!(to_typescript_return_type("()"), "void");
    assert_eq!(to_typescript_type("()"), "null");
}

#[test]
fn translate_tuple_and_primitives() {
    assert_eq!(to_typescript_type("(i32, String)"), "[number, string]");
    assert_eq!(to_typescript_type("(usize, u64, f32, f64, u32, i64)"), "[number, number, number, number, number, number]");
}

#[test]
fn translate_every_fixed_width_number() {
    for t in ["i8", "i16", "i32", "i64", "i128", "isize", "u8", "u16", "u32", "u64", "u128", "usize", "f32", "f64"] {
        assert_eq!(to_typescript_type(t), "number");
    }
    assert_eq!(to_typescript_type("Vec<u8>"), "Array<number>");
    assert_eq!(to_typescript_type("(i16, u128)"), "[number, number]");
    assert_eq!(to_typescript_type("String"), "string");
}

#[test]
fn rewrite_keeps_paths_and_does_the_rest() {
    assert_eq!(rewrite_type("crate::Vec<u8>", false), "crate::Array<number>");
    assert_eq!(rewrite_type("()", true), "void");
    assert_eq!(rewrite_type("()", false), "null");
    assert_eq!(rewrite_type("Option<(i32, String)>", false), "[number, string]?");
}

#[test]
fn translate_strips_unicode_paths() {
    assert_eq!(to_typescript_type("módulo::Tipo"), "Tipo");
    assert_eq!(to_typescript_type("Option<crate::models::User>"), "User?");
}

#[test]
fn translate_option_single_level() {
    assert_eq!(to_typescript_type("Option<String>"), "string?");
    assert_eq!(to_typescript_type("Option<Option<i32>>"), "Option<number>?");
    assert_eq!(to_typescript_type("Vec<Option<i32>>"), "Array<Option<number>>");
}

#[test]
fn translate_leaves_client_types_alone() {
    for t in ["Array<number>", "[number, string]", "string?", "Array<User>", "null", "void"] {
        assert_eq!(to_typescript_type(t), t);
        assert_eq!(to_typescript_return_type(t), t);
    }
}

#[test]
fn translate_passes_unknown_through() {
    assert_eq!(to_typescript_type("HashMap<Key, bool>"), "HashMap<Key, bool>");
    assert_eq!(to_typescript_type(""), "");
}

#[test]
fn naming_rules() {
    assert_eq!(get_router_name("AdminQuery"), "AdminQueryRouter");
    assert_eq!(get_handler_name("GetArticle", false), "get_article");
    assert_eq!(get_handler_name("Admin", true), "admin_router");
    assert_eq!(get_query_func_name("GetArticle"), "getArticle");
    assert!(get_router_name("").ends_with("Router"));
    assert!(get_handler_name("X", true).ends_with("_router"));
    assert!(!get_handler_name("PostComment", false).contains("_router"));
}

#[test]
fn is_server_by_variant() {
    assert!(CodegenOption::Server.is_server());
    assert!(!CodegenOption::Client { is_root: true }.is_server());
    assert!(!CodegenOption::Client { is_root: false }.is_server());
}

#[test]
fn arg_string_forms() {
    let reqs = vec![req("i32", "id"), req("Vec<String>", "tags"), req("()", "unit")];
    assert_eq!(gen_arg_string(&reqs, true, &CodegenOption::Server), "id: i32, tags: Vec<String>, unit: ()");
    assert_eq!(
        gen_arg_string(&reqs, true, &CodegenOption::Client { is_root: false }),
        "id: number, tags: Array<string>, unit: null"
    );
    assert_eq!(gen_arg_string(&reqs, false, &CodegenOption::Server), "id, tags, unit");
    assert_eq!(gen_arg_string(&[], true, &CodegenOption::Server), "");
}

#[test]
fn enum_json_nesting() {
    let params = vec![req("i32", "id"), req("String", "title")];
    let prev = vec!["Blog".to_owned(), "GetArticle".to_owned()];
    assert_eq!(gen_enum_json(&prev, &params), "{ \"Blog\": { \"GetArticle\": { id, title } } }");
    assert_eq!(gen_enum_json(&[], &params), "{ id, title }");
    assert_eq!(gen_enum_json(&[], &[]), "{  }");
}
