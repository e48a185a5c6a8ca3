pub mod codegen;
pub mod laws;
pub mod model;
pub mod naming;
mod text;
pub mod translate;
pub mod util;

pub use codegen::gen_arg_string;
pub use model::{CodegenOption, Entry, FuncOrCode, Request, Schema};
pub use naming::{get_handler_name, get_query_func_name, get_router_name};
