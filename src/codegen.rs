use vstd::prelude::*;
use crate::model::{CodegenOption, Entry, FuncOrCode, Request, Schema, resolved, resolved_upto};
use crate::naming::{
    get_handler_name, get_query_func_name, get_router_name, handler_name, query_func_name,
    router_name,
};
use crate::text::push_str;
use crate::translate::{to_typescript_return_type, to_typescript_type, translate};
use crate::util::{enum_json, gen_enum_json, string_views};

verus! {

/// One parameter as it stands in an argument list: `name: type` with the type
/// (translated for the client), or the bare name.
pub open spec fn arg_text(r: Request, with_type: bool, server: bool) -> Seq<char> {
    if with_type {
        r.name@ + ": "@ + (if server {
            r.ty@
        } else {
            translate(r.ty@, false)
        })
    } else {
        r.name@
    }
}

/// The parameters in order, each as `arg_text` gives it, separated by `, `.
pub open spec fn args_text(reqs: Seq<Request>, with_type: bool, server: bool) -> Seq<char>
    decreases reqs.len(),
{
    if reqs.len() == 0 {
        seq![]
    } else if reqs.len() == 1 {
        arg_text(reqs[0], with_type, server)
    } else {
        args_text(reqs.drop_last(), with_type, server) + ", "@ + arg_text(
            reqs.last(),
            with_type,
            server,
        )
    }
}

/// The head of the client class: its declaration and the transport method.
pub open spec fn client_open(name: Seq<char>) -> Seq<char> {
    "abstract class "@ + name + "Fetcher {\n"@
        + "    abstract fetchResult(query: string): Promise<string>;\n"@
}

pub open spec fn client_close() -> Seq<char> {
    "}\n"@
}

/// The client's call method for one endpoint: it sends the endpoint's query,
/// its name around its parameters, encoded as JSON.
pub open spec fn client_method(name: Seq<char>, response_ty: Seq<char>, reqs: Seq<Request>) -> Seq<
    char,
> {
    "    async "@ + query_func_name(name) + "("@ + args_text(reqs, true, false) + "): Promise<"@
        + translate(response_ty, true) + "> {\n"@
        + "        return JSON.parse(await this.fetchResult(JSON.stringify("@ + enum_json(
        seq![name],
        reqs,
    ) + ")));\n"@ + "    }\n"@
}

/// The client text of the first `n` entries of `s`: a method per endpoint, and
/// the whole text of each nested router in its place.
pub open spec fn client_entries(s: Schema, n: int) -> Seq<char>
    decreases s, n,
{
    if n <= 0 || n > s.entries@.len() {
        seq![]
    } else {
        client_entries(s, n - 1) + match s.entries@[n - 1] {
            Entry::Leaf { name, response_ty, request } => client_method(
                name@,
                response_ty@,
                request@,
            ),
            Entry::Node { codegen, .. } => match codegen {
                FuncOrCode::Func(sub) => client_text(*sub, false),
                FuncOrCode::Code(_) => seq![],
            },
        }
    }
}

/// The client stub for `s`; only at the root is it wrapped in the class.
pub open spec fn client_text(s: Schema, is_root: bool) -> Seq<char>
    decreases s, s.entries@.len() + 1,
{
    if is_root {
        client_open(s.name@) + client_entries(s, s.entries@.len() as int) + client_close()
    } else {
        client_entries(s, s.entries@.len() as int)
    }
}

/// The associated type a nested router gets in its parent's trait.
pub open spec fn assoc_type(e: Entry) -> Seq<char> {
    match e {
        Entry::Node { name, query_name, .. } => "    type "@ + router_name(name@) + ": "@
            + router_name(query_name@) + " + Sync;\n"@,
        Entry::Leaf { .. } => seq![],
    }
}

/// The trait method for an entry: a handler for an endpoint, an accessor for
/// a nested router.
pub open spec fn handler_decl(e: Entry) -> Seq<char> {
    match e {
        Entry::Leaf { name, response_ty, request } => "    async fn "@ + handler_name(name@, false)
            + "(&self, "@ + args_text(request@, true, true) + ") -> "@ + response_ty@ + ";\n"@,
        Entry::Node { name, .. } => "    fn "@ + handler_name(name@, true) + "(&self) -> &Self::"@
            + router_name(name@) + ";\n"@,
    }
}

/// The arm of `handle` that dispatches an entry's variant of the query.
pub open spec fn dispatch_arm(query: Seq<char>, e: Entry) -> Seq<char> {
    match e {
        Entry::Leaf { name, request, .. } => "             "@ + query + "::"@ + name@ + " { "@
            + args_text(request@, false, true) + " } => {\n"@ + "                 let resp = self."@
            + handler_name(name@, false) + "("@ + args_text(request@, false, true) + ").await;\n"@
            + "                 serde_json::to_string(&resp)\n"@ + "             }\n"@,
        Entry::Node { name, .. } => "             "@ + query + "::"@ + name@ + "(query) => {\n"@
            + "                 self."@ + handler_name(name@, true) + "().handle(query).await\n"@
            + "             }\n"@,
    }
}

/// The associated types of `entries`, in order.
pub open spec fn assoc_types(entries: Seq<Entry>) -> Seq<char>
    decreases entries.len(),
{
    if entries.len() == 0 {
        seq![]
    } else {
        assoc_types(entries.drop_last()) + assoc_type(entries.last())
    }
}

/// The trait methods of `entries`, in order.
pub open spec fn handler_decls(entries: Seq<Entry>) -> Seq<char>
    decreases entries.len(),
{
    if entries.len() == 0 {
        seq![]
    } else {
        handler_decls(entries.drop_last()) + handler_decl(entries.last())
    }
}

/// The dispatch arms of `entries`, in order.
pub open spec fn dispatch_arms(query: Seq<char>, entries: Seq<Entry>) -> Seq<char>
    decreases entries.len(),
{
    if entries.len() == 0 {
        seq![]
    } else {
        dispatch_arms(query, entries.drop_last()) + dispatch_arm(query, entries.last())
    }
}

/// The router traits of the nested routers among the first `n` entries of
/// `s`, each with its own nested traits before it.
pub open spec fn server_nested(s: Schema, n: int) -> Seq<char>
    decreases s, n,
{
    if n <= 0 || n > s.entries@.len() {
        seq![]
    } else {
        server_nested(s, n - 1) + match s.entries@[n - 1] {
            Entry::Leaf { .. } => seq![],
            Entry::Node { codegen, .. } => match codegen {
                FuncOrCode::Func(sub) => server_text(*sub),
                FuncOrCode::Code(_) => seq![],
            },
        }
    }
}

/// The router trait of `s` by itself, nested traits aside.
pub open spec fn server_trait(s: Schema) -> Seq<char> {
    "#[async_trait]\ntrait "@ + router_name(s.name@) + " {\n"@ + assoc_types(s.entries@)
        + handler_decls(s.entries@) + "    async fn handle(&self, query: "@ + s.name@
        + ") -> Result<String, Error> {\n"@ + "        match query {\n"@ + dispatch_arms(
        s.name@,
        s.entries@,
    ) + "        }\n"@ + "    }\n"@ + "}\n"@
}

/// The server text for `s`: the traits of its nested routers, then its own.
pub open spec fn server_text(s: Schema) -> Seq<char>
    decreases s, s.entries@.len() + 1,
{
    server_nested(s, s.entries@.len() as int) + server_trait(s)
}

/// The text generated for `s` in the mode `opt`.
pub open spec fn codegen_text(s: Schema, opt: CodegenOption) -> Seq<char> {
    match opt {
        CodegenOption::Server => server_text(s),
        CodegenOption::Client { is_root } => client_text(s, is_root),
    }
}

/// The parameters joined into an argument list: with their types (host types
/// for the server, client types otherwise) or as bare names.
pub fn gen_arg_string(requests: &[Request], with_type: bool, opt: &CodegenOption) -> (r: String)
    ensures
        r@ == args_text(requests@, with_type, *opt is Server),
{
    let ghost server = *opt is Server;
    let mut args = String::new();
    let mut i: usize = 0;
    while i < requests.len()
        invariant
            i <= requests.len(),
            server == (*opt is Server),
            args@ == args_text(requests@.subrange(0, i as int), with_type, server),
        decreases requests.len() - i,
    {
        let ghost before = args@;
        if i > 0 {
            push_str(&mut args, ", ");
        }
        let ghost mid = args@;
        let req = &requests[i];
        push_str(&mut args, req.name.as_str());
        if with_type {
            push_str(&mut args, ": ");
            if opt.is_server() {
                push_str(&mut args, req.ty.as_str());
            } else {
                let t = to_typescript_type(req.ty.as_str());
                push_str(&mut args, t.as_str());
            }
        }
        proof {
            let pre = requests@.subrange(0, i as int);
            let cur = requests@.subrange(0, i + 1);
            assert(cur.drop_last() =~= pre);
            assert(args@ =~= mid + arg_text(requests@[i as int], with_type, server));
            if i > 0 {
                assert(args@ =~= before + ", "@ + arg_text(cur.last(), with_type, server));
            } else {
                assert(args@ =~= arg_text(cur[0], with_type, server));
            }
        }
        i = i + 1;
    }
    assert(requests@.subrange(0, requests.len() as int) =~= requests@);
    args
}

/// In a schema whose first `n` entries are resolved, each nested router among
/// them is a schema at hand, itself resolved.
proof fn lemma_resolved_entry(s: Schema, n: int, k: int)
    requires
        resolved_upto(s, n),
        0 <= k < n <= s.entries@.len(),
    ensures
        s.entries@[k] matches Entry::Node { codegen, .. } ==> (codegen matches FuncOrCode::Func(
            sub,
        ) && resolved(*sub)),
    decreases n,
{
    if k < n - 1 {
        lemma_resolved_entry(s, n - 1, k);
    }
}

fn push_assoc_type(code: &mut String, e: &Entry)
    ensures
        final(code)@ == old(code)@ + assoc_type(*e),
{
    match e {
        Entry::Node { name, query_name, .. } => {
            push_str(code, "    type ");
            let own = get_router_name(name.as_str());
            push_str(code, own.as_str());
            push_str(code, ": ");
            let bound = get_router_name(query_name.as_str());
            push_str(code, bound.as_str());
            push_str(code, " + Sync;\n");
            assert(final(code)@ =~= old(code)@ + assoc_type(*e));
        },
        Entry::Leaf { .. } => {
            assert(final(code)@ =~= old(code)@ + assoc_type(*e));
        },
    }
}

fn push_handler_decl(code: &mut String, e: &Entry, opt: &CodegenOption)
    requires
        *opt is Server,
    ensures
        final(code)@ == old(code)@ + handler_decl(*e),
{
    match e {
        Entry::Leaf { name, response_ty, request } => {
            push_str(code, "    async fn ");
            let h = get_handler_name(name.as_str(), false);
            push_str(code, h.as_str());
            push_str(code, "(&self, ");
            let args = gen_arg_string(request.as_slice(), true, opt);
            push_str(code, args.as_str());
            push_str(code, ") -> ");
            push_str(code, response_ty.as_str());
            push_str(code, ";\n");
        },
        Entry::Node { name, .. } => {
            push_str(code, "    fn ");
            let h = get_handler_name(name.as_str(), true);
            push_str(code, h.as_str());
            push_str(code, "(&self) -> &Self::");
            let own = get_router_name(name.as_str());
            push_str(code, own.as_str());
            push_str(code, ";\n");
        },
    }
    assert(final(code)@ =~= old(code)@ + handler_decl(*e));
}

fn push_dispatch_arm(code: &mut String, query: &str, e: &Entry, opt: &CodegenOption)
    requires
        *opt is Server,
    ensures
        final(code)@ == old(code)@ + dispatch_arm(query@, *e),
{
    push_str(code, "             ");
    push_str(code, query);
    push_str(code, "::");
    match e {
        Entry::Leaf { name, request, .. } => {
            push_str(code, name.as_str());
            push_str(code, " { ");
            let args = gen_arg_string(request.as_slice(), false, opt);
            push_str(code, args.as_str());
            push_str(code, " } => {\n");
            push_str(code, "                 let resp = self.");
            let h = get_handler_name(name.as_str(), false);
            push_str(code, h.as_str());
            push_str(code, "(");
            push_str(code, args.as_str());
            push_str(code, ").await;\n");
            push_str(code, "                 serde_json::to_string(&resp)\n");
        },
        Entry::Node { name, .. } => {
            push_str(code, name.as_str());
            push_str(code, "(query) => {\n");
            push_str(code, "                 self.");
            let h = get_handler_name(name.as_str(), true);
            push_str(code, h.as_str());
            push_str(code, "().handle(query).await\n");
        },
    }
    push_str(code, "             }\n");
    assert(final(code)@ =~= old(code)@ + dispatch_arm(query@, *e));
}

impl Schema {
    /// The client stub: at the root, one class with the transport method;
    /// everywhere, a call method per endpoint, nested routers flattened in.
    pub fn client_codegen(&self, opt: &CodegenOption) -> (r: String)
        requires
            *opt is Client,
            resolved(*self),
        ensures
            r@ == client_text(*self, opt->is_root),
        decreases self,
    {
        let is_root = match opt {
            CodegenOption::Client { is_root } => *is_root,
            CodegenOption::Server => false,
        };
        let leaf_opt = CodegenOption::Client { is_root: false };
        let mut code = String::new();
        if is_root {
            push_str(&mut code, "abstract class ");
            push_str(&mut code, self.name.as_str());
            push_str(&mut code, "Fetcher {\n");
            push_str(&mut code, "    abstract fetchResult(query: string): Promise<string>;\n");
            assert(code@ =~= client_open(self.name@));
        }
        let ghost head = code@;
        let mut i: usize = 0;
        while i < self.entries.len()
            invariant
                i <= self.entries.len(),
                resolved(*self),
                leaf_opt == (CodegenOption::Client { is_root: false }),
                code@ =~= head + client_entries(*self, i as int),
            decreases self.entries.len() - i,
        {
            let ghost before = code@;
            proof {
                lemma_resolved_entry(*self, self.entries@.len() as int, i as int);
            }
            match &self.entries[i] {
                Entry::Leaf { name, response_ty, request } => {
                    push_str(&mut code, "    async ");
                    let f = get_query_func_name(name.as_str());
                    push_str(&mut code, f.as_str());
                    push_str(&mut code, "(");
                    let args = gen_arg_string(request.as_slice(), true, &leaf_opt);
                    push_str(&mut code, args.as_str());
                    push_str(&mut code, "): Promise<");
                    let t = to_typescript_return_type(response_ty.as_str());
                    push_str(&mut code, t.as_str());
                    push_str(&mut code, "> {\n");
                    push_str(&mut code, "        return JSON.parse(await this.fetchResult(JSON.stringify(");
                    let own = vec![name.clone()];
                    assert(string_views(own@) =~= seq![name@]);
                    let query = gen_enum_json(own.as_slice(), request.as_slice());
                    push_str(&mut code, query.as_str());
                    push_str(&mut code, ")));\n");
                    push_str(&mut code, "    }\n");
                    assert(code@ =~= before + client_method(name@, response_ty@, request@));
                },
                Entry::Node { codegen, .. } => {
                    match codegen {
                        FuncOrCode::Func(sub) => {
                            let t = sub.client_codegen(&leaf_opt);
                            push_str(&mut code, t.as_str());
                        },
                        FuncOrCode::Code(_) => {},
                    }
                },
            }
            i = i + 1;
        }
        if is_root {
            push_str(&mut code, "}\n");
        }
        code
    }

    /// The server's routing traits: those of the nested routers first, then
    /// this schema's own, with its handlers and its `handle` dispatcher.
    pub fn server_codegen(&self, opt: &CodegenOption) -> (r: String)
        requires
            *opt is Server,
            resolved(*self),
        ensures
            r@ == server_text(*self),
        decreases self,
    {
        let n = self.entries.len();
        let mut code = String::new();
        let mut i: usize = 0;
        while i < n
            invariant
                n == self.entries.len(),
                i <= n,
                *opt is Server,
                resolved(*self),
                code@ =~= server_nested(*self, i as int),
            decreases n - i,
        {
            proof {
                lemma_resolved_entry(*self, n as int, i as int);
            }
            if let Entry::Node { codegen, .. } = &self.entries[i] {
                if let FuncOrCode::Func(sub) = codegen {
                    let t = sub.server_codegen(opt);
                    push_str(&mut code, t.as_str());
                }
            }
            i = i + 1;
        }
        let ghost nested = code@;
        let ghost es = self.entries@;
        push_str(&mut code, "#[async_trait]\ntrait ");
        let own = get_router_name(self.name.as_str());
        push_str(&mut code, own.as_str());
        push_str(&mut code, " {\n");
        let ghost head = code@;
        i = 0;
        while i < n
            invariant
                n == self.entries.len(),
                es == self.entries@,
                i <= n,
                code@ =~= head + assoc_types(es.subrange(0, i as int)),
            decreases n - i,
        {
            assert(es.subrange(0, i + 1).drop_last() =~= es.subrange(0, i as int));
            push_assoc_type(&mut code, &self.entries[i]);
            i = i + 1;
        }
        assert(es.subrange(0, n as int) =~= es);
        let ghost with_types = code@;
        i = 0;
        while i < n
            invariant
                n == self.entries.len(),
                es == self.entries@,
                i <= n,
                *opt is Server,
                code@ =~= with_types + handler_decls(es.subrange(0, i as int)),
            decreases n - i,
        {
            assert(es.subrange(0, i + 1).drop_last() =~= es.subrange(0, i as int));
            push_handler_decl(&mut code, &self.entries[i], opt);
            i = i + 1;
        }
        push_str(&mut code, "    async fn handle(&self, query: ");
        push_str(&mut code, self.name.as_str());
        push_str(&mut code, ") -> Result<String, Error> {\n");
        push_str(&mut code, "        match query {\n");
        let ghost with_decls = code@;
        i = 0;
        while i < n
            invariant
                n == self.entries.len(),
                es == self.entries@,
                i <= n,
                *opt is Server,
                code@ =~= with_decls + dispatch_arms(self.name@, es.subrange(0, i as int)),
            decreases n - i,
        {
            assert(es.subrange(0, i + 1).drop_last() =~= es.subrange(0, i as int));
            push_dispatch_arm(&mut code, self.name.as_str(), &self.entries[i], opt);
            i = i + 1;
        }
        push_str(&mut code, "        }\n");
        push_str(&mut code, "    }\n");
        push_str(&mut code, "}\n");
        assert(code@ =~= nested + server_trait(*self));
        code
    }

    /// The text for this schema in the mode `opt`.
    pub fn codegen(&self, opt: &CodegenOption) -> (r: String)
        requires
            resolved(*self),
        ensures
            r@ == codegen_text(*self, *opt),
    {
        if opt.is_server() {
            self.server_codegen(opt)
        } else {
            self.client_codegen(opt)
        }
    }

    pub fn get_name(&self) -> (r: &str)
        ensures
            r@ == self.name@,
    {
        self.name.as_str()
    }

    pub fn get_entries(&self) -> (r: &Vec<Entry>)
        ensures
            r@ == self.entries@,
    {
        &self.entries
    }
}

impl FuncOrCode {
    /// The text of the nested router in the mode `opt`; it must be at hand.
    pub fn gen_string(&self, opt: &CodegenOption) -> (r: String)
        requires
            *self is Func,
            resolved(*self->Func_0),
        ensures
            r@ == codegen_text(*self->Func_0, *opt),
    {
        match self {
            FuncOrCode::Func(sub) => sub.codegen(opt),
            FuncOrCode::Code(_) => String::new(),
        }
    }
}

} // verus!
