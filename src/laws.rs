use vstd::prelude::*;
use crate::codegen::{
    assoc_type, dispatch_arm, handler_decl, assoc_types, client_close, client_entries, client_method, client_open, client_text,
    codegen_text, dispatch_arms, handler_decls,
};
use crate::model::{CodegenOption, Entry, FuncOrCode, Request, Schema};
use crate::naming::{handler_name, handler_router_suffix, router_name, router_suffix};
use crate::translate::occurs;

verus! {

/// One endpoint as the client sees it: name, response type, parameters.
pub type LeafSig = (Seq<char>, Seq<char>, Seq<Request>);

/// The endpoints among the first `n` entries of `s`, nested ones included,
/// in the order a depth-first walk of the entries meets them.
pub open spec fn leaves_upto(s: Schema, n: int) -> Seq<LeafSig>
    decreases s, n,
{
    if n <= 0 || n > s.entries@.len() {
        seq![]
    } else {
        leaves_upto(s, n - 1) + match s.entries@[n - 1] {
            Entry::Leaf { name, response_ty, request } => seq![(name@, response_ty@, request@)],
            Entry::Node { codegen, .. } => match codegen {
                FuncOrCode::Func(sub) => leaves(*sub),
                FuncOrCode::Code(_) => seq![],
            },
        }
    }
}

/// Every endpoint of `s`, at any depth, in document order.
pub open spec fn leaves(s: Schema) -> Seq<LeafSig>
    decreases s, s.entries@.len() + 1,
{
    leaves_upto(s, s.entries@.len() as int)
}

/// The client call methods of `ls`, one after another.
pub open spec fn methods_text(ls: Seq<LeafSig>) -> Seq<char>
    decreases ls.len(),
{
    if ls.len() == 0 {
        seq![]
    } else {
        let l = ls.last();
        methods_text(ls.drop_last()) + client_method(l.0, l.1, l.2)
    }
}

proof fn lemma_methods_text_append(a: Seq<LeafSig>, b: Seq<LeafSig>)
    ensures
        methods_text(a + b) == methods_text(a) + methods_text(b),
    decreases b.len(),
{
    if b.len() == 0 {
        assert(a + b =~= a);
        assert(methods_text(a) + methods_text(b) =~= methods_text(a));
    } else {
        assert((a + b).drop_last() =~= a + b.drop_last());
        lemma_methods_text_append(a, b.drop_last());
        assert(methods_text(a + b) =~= methods_text(a) + methods_text(b));
    }
}

proof fn lemma_client_entries_flat(s: Schema, n: int)
    ensures
        0 <= n <= s.entries@.len() ==> client_entries(s, n) == methods_text(leaves_upto(s, n)),
    decreases s, n,
{
    if 0 < n <= s.entries@.len() {
        lemma_client_entries_flat(s, n - 1);
        let prev = leaves_upto(s, n - 1);
        match s.entries@[n - 1] {
            Entry::Leaf { name, response_ty, request } => {
                let one: Seq<LeafSig> = seq![(name@, response_ty@, request@)];
                lemma_methods_text_append(prev, one);
                assert(one.drop_last() =~= Seq::<LeafSig>::empty());
                assert(methods_text(one.drop_last()) == Seq::<char>::empty());
                assert(one.last() == (name@, response_ty@, request@));
                assert(methods_text(one) =~= client_method(name@, response_ty@, request@));
                assert(client_entries(s, n) == client_entries(s, n - 1) + client_method(
                    name@,
                    response_ty@,
                    request@,
                ));
                assert(leaves_upto(s, n) == prev + one);
            },
            Entry::Node { codegen, .. } => match codegen {
                FuncOrCode::Func(sub) => {
                    lemma_client_entries_flat(*sub, sub.entries@.len() as int);
                    lemma_methods_text_append(prev, leaves(*sub));
                    assert(leaves_upto(s, n) == prev + leaves(*sub));
                    assert(client_entries(s, n) == client_entries(s, n - 1) + client_text(
                        *sub,
                        false,
                    ));
                },
                FuncOrCode::Code(_) => {
                    assert(prev + Seq::<LeafSig>::empty() =~= prev);
                    assert(client_entries(s, n) =~= client_entries(s, n - 1));
                },
            },
        }
    }
}

/// The client class is opened and closed once, around the whole text, and
/// what stands between is the call method of every endpoint of the tree, in
/// document order, with nested routers flattened in and no wrapper of their
/// own: at any depth a nested traversal emits methods only.
pub proof fn lemma_client_root_once(s: Schema)
    ensures
        client_text(s, true) == client_open(s.name@) + client_text(s, false) + client_close(),
        client_text(s, false) == methods_text(leaves(s)),
{
    lemma_client_entries_flat(s, s.entries@.len() as int);
}

/// In client mode each nested router contributes, in its place, exactly the
/// text that its own schema generates as a non-root client: the client text
/// of the first `i + 1` entries is that of the first `i`, then the method of
/// entry `i` if it is an endpoint, or the nested schema's own generated text.
pub proof fn lemma_client_splices_nested(s: Schema, i: int)
    requires
        0 <= i < s.entries@.len(),
    ensures
        s.entries@[i] matches Entry::Node { codegen: FuncOrCode::Func(sub), .. } ==> client_entries(
            s,
            i + 1,
        ) == client_entries(s, i) + codegen_text(*sub, CodegenOption::Client { is_root: false }),
        s.entries@[i] matches Entry::Leaf { name, response_ty, request } ==> client_entries(
            s,
            i + 1,
        ) == client_entries(s, i) + client_method(name@, response_ty@, request@),
{
}

/// Generation is a function of the schema and the mode: equal inputs give
/// equal text.
pub proof fn lemma_codegen_deterministic(
    s1: Schema,
    s2: Schema,
    opt1: CodegenOption,
    opt2: CodegenOption,
)
    requires
        s1 == s2,
        opt1 == opt2,
    ensures
        codegen_text(s1, opt1) == codegen_text(s2, opt2),
{
}

/// The server's associated types, handlers and dispatch arms keep the order
/// of the entries: the text for `a` followed by `b` is the text for `a`
/// followed by the text for `b`.
pub proof fn lemma_server_order(query: Seq<char>, a: Seq<Entry>, b: Seq<Entry>)
    ensures
        assoc_types(a + b) == assoc_types(a) + assoc_types(b),
        handler_decls(a + b) == handler_decls(a) + handler_decls(b),
        dispatch_arms(query, a + b) == dispatch_arms(query, a) + dispatch_arms(query, b),
    decreases b.len(),
{
    if b.len() == 0 {
        assert(a + b =~= a);
        assert(assoc_types(a) + assoc_types(b) =~= assoc_types(a));
        assert(handler_decls(a) + handler_decls(b) =~= handler_decls(a));
        assert(dispatch_arms(query, a) + dispatch_arms(query, b) =~= dispatch_arms(query, a));
    } else {
        assert((a + b).drop_last() =~= a + b.drop_last());
        lemma_server_order(query, a, b.drop_last());
        assert(assoc_types(a + b) =~= assoc_types(a) + assoc_types(b));
        assert(handler_decls(a + b) =~= handler_decls(a) + handler_decls(b));
        assert(dispatch_arms(query, a + b) =~= dispatch_arms(query, a) + dispatch_arms(query, b));
    }
}

/// The client's call methods keep the order of the endpoints: the text for
/// `a` followed by `b` is the text for `a` followed by the text for `b`.
pub proof fn lemma_client_order(a: Seq<LeafSig>, b: Seq<LeafSig>)
    ensures
        methods_text(a + b) == methods_text(a) + methods_text(b),
{
    lemma_methods_text_append(a, b);
}

/// The `i`-th entry's associated type, trait method and dispatch arm stand
/// in the server text between those of the entries before it and those of the
/// entries after it.
pub proof fn lemma_server_entry_position(query: Seq<char>, entries: Seq<Entry>, i: int)
    requires
        0 <= i < entries.len(),
    ensures
        assoc_types(entries) == assoc_types(entries.subrange(0, i)) + assoc_type(entries[i])
            + assoc_types(entries.subrange(i + 1, entries.len() as int)),
        handler_decls(entries) == handler_decls(entries.subrange(0, i)) + handler_decl(entries[i])
            + handler_decls(entries.subrange(i + 1, entries.len() as int)),
        dispatch_arms(query, entries) == dispatch_arms(query, entries.subrange(0, i))
            + dispatch_arm(query, entries[i]) + dispatch_arms(
            query,
            entries.subrange(i + 1, entries.len() as int),
        ),
{
    let pre = entries.subrange(0, i);
    let one = seq![entries[i]];
    let post = entries.subrange(i + 1, entries.len() as int);
    assert(entries =~= pre + one + post);
    lemma_server_order(query, pre + one, post);
    lemma_server_order(query, pre, one);
    assert(one.drop_last() =~= Seq::<Entry>::empty());
    assert(one.last() == entries[i]);
    assert(assoc_types(one.drop_last()) == Seq::<char>::empty());
    assert(handler_decls(one.drop_last()) == Seq::<char>::empty());
    assert(dispatch_arms(query, one.drop_last()) == Seq::<char>::empty());
    assert(assoc_types(one) =~= assoc_type(entries[i]));
    assert(handler_decls(one) =~= handler_decl(entries[i]));
    assert(dispatch_arms(query, one) =~= dispatch_arm(query, entries[i]));
}

/// The `i`-th endpoint's call method stands in the client text between the
/// methods of the endpoints before it and those of the endpoints after it.
pub proof fn lemma_client_method_position(ls: Seq<LeafSig>, i: int)
    requires
        0 <= i < ls.len(),
    ensures
        methods_text(ls) == methods_text(ls.subrange(0, i)) + client_method(
            ls[i].0,
            ls[i].1,
            ls[i].2,
        ) + methods_text(ls.subrange(i + 1, ls.len() as int)),
{
    let pre = ls.subrange(0, i);
    let one = seq![ls[i]];
    let post = ls.subrange(i + 1, ls.len() as int);
    assert(ls =~= pre + one + post);
    lemma_methods_text_append(pre + one, post);
    lemma_methods_text_append(pre, one);
    assert(one.drop_last() =~= Seq::<LeafSig>::empty());
    assert(one.last() == ls[i]);
    assert(methods_text(one.drop_last()) == Seq::<char>::empty());
    assert(methods_text(one) =~= client_method(ls[i].0, ls[i].1, ls[i].2));
}

/// A router trait's name ends with `Router`, a router accessor's name with
/// `_router`; where the snake case of a name holds no `_router`, its handler's
/// name holds none either, and so differs from every accessor's name.
pub proof fn lemma_naming_suffixes(query_name: Seq<char>, name: Seq<char>, other: Seq<char>)
    ensures
        router_name(query_name).len() >= router_suffix().len(),
        router_name(query_name).subrange(
            router_name(query_name).len() - router_suffix().len(),
            router_name(query_name).len() as int,
        ) == router_suffix(),
        handler_name(name, true).len() >= handler_router_suffix().len(),
        handler_name(name, true).subrange(
            handler_name(name, true).len() - handler_router_suffix().len(),
            handler_name(name, true).len() as int,
        ) == handler_router_suffix(),
        !occurs(crate::naming::snake_case_of(name), handler_router_suffix()) ==> {
            &&& !occurs(handler_name(name, false), handler_router_suffix())
            &&& handler_name(name, false) != handler_name(other, true)
        },
{
    let r = router_name(query_name);
    assert(r.subrange(r.len() - 6, r.len() as int) =~= router_suffix());
    let h = handler_name(name, true);
    assert(h.subrange(h.len() - 7, h.len() as int) =~= handler_router_suffix());
    let o = handler_name(other, true);
    let sn = crate::naming::snake_case_of(name);
    if !occurs(sn, handler_router_suffix()) && sn == o {
        let i = o.len() - 7;
        assert(o.subrange(i, o.len() as int).subrange(0, 7) =~= handler_router_suffix());
        assert(occurs(o, handler_router_suffix()));
    }
}

} // verus!
