use vstd::prelude::*;
use crate::text::push_str;

verus! {

/// What `inflector`'s snake-case conversion makes of a string.
pub uninterp spec fn snake_case_of(s: Seq<char>) -> Seq<char>;

/// What `inflector`'s camel-case conversion makes of a string.
pub uninterp spec fn camel_case_of(s: Seq<char>) -> Seq<char>;

/// Relies on `inflector::cases::snakecase::to_snake_case`: the result depends
/// on the characters of `s` alone, and an empty string stays empty.
#[verifier::external_body]
fn snake_case(s: &str) -> (r: String)
    ensures
        r@ == snake_case_of(s@),
        s@.len() == 0 ==> r@.len() == 0,
{
    inflector::cases::snakecase::to_snake_case(s)
}

/// Relies on `inflector::cases::camelcase::to_camel_case`: the result depends
/// on the characters of `s` alone, and an empty string stays empty.
#[verifier::external_body]
fn camel_case(s: &str) -> (r: String)
    ensures
        r@ == camel_case_of(s@),
        s@.len() == 0 ==> r@.len() == 0,
{
    inflector::cases::camelcase::to_camel_case(s)
}

pub open spec fn router_suffix() -> Seq<char> {
    seq!['R', 'o', 'u', 't', 'e', 'r']
}

pub open spec fn handler_router_suffix() -> Seq<char> {
    seq!['_', 'r', 'o', 'u', 't', 'e', 'r']
}

/// The router trait's name for a query type.
pub open spec fn router_name(query_name: Seq<char>) -> Seq<char> {
    query_name + router_suffix()
}

/// A handler's name: the snake case of `name`, with `_router` after it for the
/// accessor of a nested router.
pub open spec fn handler_name(name: Seq<char>, is_router: bool) -> Seq<char> {
    if is_router {
        snake_case_of(name) + handler_router_suffix()
    } else {
        snake_case_of(name)
    }
}

/// A client call method's name: the camel case of the query's name.
pub open spec fn query_func_name(query_name: Seq<char>) -> Seq<char> {
    camel_case_of(query_name)
}

/// The name of the router trait for the query type `query_name`.
pub fn get_router_name(query_name: &str) -> (r: String)
    ensures
        r@ == router_name(query_name@),
{
    let mut r = query_name.to_owned();
    push_str(&mut r, "Router");
    proof {
        reveal_strlit("Router");
        assert("Router"@ =~= router_suffix());
    }
    r
}

/// The name of a handler method, or of a nested router's accessor.
pub fn get_handler_name(name: &str, is_router: bool) -> (r: String)
    ensures
        r@ == handler_name(name@, is_router),
{
    let mut r = snake_case(name);
    if is_router {
        push_str(&mut r, "_router");
        proof {
            reveal_strlit("_router");
            assert("_router"@ =~= handler_router_suffix());
        }
    }
    r
}

/// The name of the client's call method for a query.
pub fn get_query_func_name(query_name: &str) -> (r: String)
    ensures
        r@ == query_func_name(query_name@),
{
    camel_case(query_name)
}

} // verus!
