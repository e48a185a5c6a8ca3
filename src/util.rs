use vstd::prelude::*;
use crate::codegen::{args_text, gen_arg_string};
use crate::model::{CodegenOption, Request};
use crate::text::push_str;

pub use crate::translate::to_typescript_type;

verus! {

/// What each string of `v` holds.
pub open spec fn string_views(v: Seq<String>) -> Seq<Seq<char>> {
    v.map_values(|s: String| s@)
}

/// The object literal of a query: the variant names of the path `prev`, each
/// wrapping the next, around the endpoint's parameter names.
pub open spec fn enum_json(prev: Seq<Seq<char>>, params: Seq<Request>) -> Seq<char>
    decreases prev.len(),
{
    if prev.len() == 0 {
        "{ "@ + args_text(params, false, true) + " }"@
    } else {
        "{ \""@ + prev[0] + "\": "@ + enum_json(prev.drop_first(), params) + " }"@
    }
}

fn enum_json_from(prev: &[String], k: usize, params: &[Request]) -> (r: String)
    requires
        k <= prev@.len(),
    ensures
        r@ == enum_json(string_views(prev@.subrange(k as int, prev@.len() as int)), params@),
    decreases prev@.len() - k,
{
    let ghost rest = string_views(prev@.subrange(k as int, prev@.len() as int));
    let mut r = String::new();
    if k < prev.len() {
        let inner = enum_json_from(prev, k + 1, params);
        assert(rest.drop_first() =~= string_views(prev@.subrange(k + 1, prev@.len() as int)));
        push_str(&mut r, "{ \"");
        push_str(&mut r, prev[k].as_str());
        push_str(&mut r, "\": ");
        push_str(&mut r, inner.as_str());
        push_str(&mut r, " }");
        assert(r@ =~= enum_json(rest, params@));
    } else {
        let names = gen_arg_string(params, false, &CodegenOption::Server);
        push_str(&mut r, "{ ");
        push_str(&mut r, names.as_str());
        push_str(&mut r, " }");
        assert(r@ =~= enum_json(rest, params@));
    }
    r
}

/// The query for an endpoint written as an object literal: each name of
/// `prev` a key around the next level, the parameter names innermost.
pub fn gen_enum_json(prev: &[String], params: &[Request]) -> (r: String)
    ensures
        r@ == enum_json(string_views(prev@), params@),
{
    assert(prev@.subrange(0, prev@.len() as int) =~= prev@);
    enum_json_from(prev, 0, params)
}

} // verus!
