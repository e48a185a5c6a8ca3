use vstd::prelude::*;

verus! {

/// What to generate: the server's routing traits, or the client's stub. Only
/// the outermost client call has `is_root` set.
#[derive(Clone, Debug)]
pub enum CodegenOption {
    Server,
    Client { is_root: bool },
}

impl CodegenOption {
    /// Whether this is the server mode.
    pub fn is_server(&self) -> (r: bool)
        ensures
            r == (*self is Server),
    {
        match self {
            CodegenOption::Server => true,
            _ => false,
        }
    }
}

/// One parameter of an endpoint: its host type and its name.
#[derive(Debug, Clone, PartialEq, Eq)]
pub struct Request {
    pub ty: String,
    pub name: String,
}

/// How a nested router produces its own code: a schema that is at hand, or
/// code text that has not been resolved into one yet.
#[derive(Debug)]
pub enum FuncOrCode {
    Func(Box<Schema>),
    Code(String),
}

/// One entry of a schema: an endpoint, or a nested router.
#[derive(Debug)]
pub enum Entry {
    Leaf { name: String, response_ty: String, request: Vec<Request> },
    Node { name: String, query_name: String, codegen: FuncOrCode },
}

/// A query type: its name and its entries, in order.
#[derive(Debug)]
pub struct Schema {
    pub name: String,
    pub entries: Vec<Entry>,
}

/// Every nested router in the first `n` entries of `s`, at any depth, is a
/// schema at hand.
pub open spec fn resolved_upto(s: Schema, n: int) -> bool
    decreases s, n,
{
    if n <= 0 || n > s.entries@.len() {
        true
    } else {
        resolved_upto(s, n - 1) && match s.entries@[n - 1] {
            Entry::Leaf { .. } => true,
            Entry::Node { codegen, .. } => match codegen {
                FuncOrCode::Func(sub) => resolved(*sub),
                FuncOrCode::Code(_) => false,
            },
        }
    }
}

/// Every nested router of `s`, at any depth, is a schema at hand.
pub open spec fn resolved(s: Schema) -> bool
    decreases s, s.entries@.len() + 1,
{
    resolved_upto(s, s.entries@.len() as int)
}

} // verus!
