use vstd::prelude::*;
use crate::text::{chars_of, string_of};

verus! {

/// `p` is a non-empty prefix of `s`.
pub open spec fn is_prefix(p: Seq<char>, s: Seq<char>) -> bool {
    0 < p.len() <= s.len() && s.subrange(0, p.len() as int) == p
}

/// The first of `pats`, in list order, that is a non-empty prefix of `s`.
pub open spec fn first_prefix(s: Seq<char>, pats: Seq<Seq<char>>) -> Option<Seq<char>>
    decreases pats.len(),
{
    if pats.len() == 0 {
        None
    } else if is_prefix(pats[0], s) {
        Some(pats[0])
    } else {
        first_prefix(s, pats.drop_first())
    }
}

/// Scanning `s` from the left, every occurrence of one of `pats` is replaced
/// by `rep`; where several start at one place the earliest in `pats` wins, and
/// the scan goes on after the replaced text.
pub open spec fn replace_any(s: Seq<char>, pats: Seq<Seq<char>>, rep: Seq<char>) -> Seq<char>
    decreases s.len(),
{
    if s.len() == 0 {
        s
    } else {
        match first_prefix(s, pats) {
            Some(p) => if 0 < p.len() <= s.len() {
                rep + replace_any(s.subrange(p.len() as int, s.len() as int), pats, rep)
            } else {
                s
            },
            None => seq![s[0]] + replace_any(s.drop_first(), pats, rep),
        }
    }
}

/// `p` occurs somewhere in `s`.
pub open spec fn occurs(s: Seq<char>, p: Seq<char>) -> bool {
    exists|i: int| 0 <= i < s.len() && is_prefix(p, #[trigger] s.subrange(i, s.len() as int))
}

/// `s` holds `::` somewhere.
pub open spec fn has_path_separator(s: Seq<char>) -> bool
    decreases s.len(),
{
    if s.len() < 2 {
        false
    } else if s[0] == ':' && s[1] == ':' {
        true
    } else {
        has_path_separator(s.drop_first())
    }
}

/// What the regex `\w*::` replaced by nothing, everywhere, makes of a string.
pub uninterp spec fn paths_stripped(s: Seq<char>) -> Seq<char>;

/// Relies on `regex::Regex::new` and `regex::Regex::replace_all`: every path
/// qualifier (word characters followed by `::`) is removed; where `::` does not
/// occur the pattern has no match, and the text comes back unchanged.
#[verifier::external_body]
fn strip_paths(s: &str) -> (r: String)
    ensures
        r@ == paths_stripped(s@),
        !has_path_separator(s@) ==> r@ == s@,
{
    let re = regex::Regex::new(r"\w*::").unwrap();
    re.replace_all(s, "").into_owned()
}

pub open spec fn option_open() -> Seq<char> {
    seq!['O', 'p', 't', 'i', 'o', 'n', '<']
}

/// `s` is `Option<T>` for a non-empty `T` on one line.
pub open spec fn is_option_of(s: Seq<char>) -> bool {
    &&& s.len() > 8
    &&& s.subrange(0, 7) == option_open()
    &&& s[s.len() - 1] == '>'
    &&& !s.subrange(7, s.len() - 1).contains('\n')
}

/// A single outer `Option<T>` becomes `T?`; anything else is left alone.
pub open spec fn unwrap_option(s: Seq<char>) -> Seq<char> {
    if is_option_of(s) {
        s.subrange(7, s.len() - 1).push('?')
    } else {
        s
    }
}

pub open spec fn vec_word() -> Seq<char> {
    seq!['V', 'e', 'c']
}

pub open spec fn array_word() -> Seq<char> {
    seq!['A', 'r', 'r', 'a', 'y']
}

pub open spec fn unit_type() -> Seq<char> {
    seq!['(', ')']
}

pub open spec fn void_word() -> Seq<char> {
    seq!['v', 'o', 'i', 'd']
}

pub open spec fn null_word() -> Seq<char> {
    seq!['n', 'u', 'l', 'l']
}

/// The host's fixed-width numeric primitives, in the order they are tried.
pub open spec fn numeric_words() -> Seq<Seq<char>> {
    seq![
        seq!['u', 's', 'i', 'z', 'e'],
        seq!['i', 's', 'i', 'z', 'e'],
        seq!['i', '1', '2', '8'],
        seq!['u', '1', '2', '8'],
        seq!['i', '1', '6'],
        seq!['u', '1', '6'],
        seq!['i', '3', '2'],
        seq!['u', '3', '2'],
        seq!['i', '6', '4'],
        seq!['u', '6', '4'],
        seq!['i', '8'],
        seq!['u', '8'],
        seq!['f', '3', '2'],
        seq!['f', '6', '4'],
    ]
}

pub open spec fn number_word() -> Seq<char> {
    seq!['n', 'u', 'm', 'b', 'e', 'r']
}

pub open spec fn host_string_word() -> Seq<char> {
    seq!['S', 't', 'r', 'i', 'n', 'g']
}

pub open spec fn client_string_word() -> Seq<char> {
    seq!['s', 't', 'r', 'i', 'n', 'g']
}

/// The client's literal for the unit type: `void` where it is a return type,
/// `null` where it is the type of a value.
pub open spec fn unit_word(for_return: bool) -> Seq<char> {
    if for_return {
        void_word()
    } else {
        null_word()
    }
}

/// The host-to-client type rewrite after path qualifiers are gone, rule after
/// rule: collections, the unit type, numbers, strings, tuples, then one outer
/// `Option`.
pub open spec fn rewrite(s1: Seq<char>, for_return: bool) -> Seq<char> {
    let s2 = replace_any(s1, seq![vec_word()], array_word());
    let s3 = replace_any(s2, seq![unit_type()], unit_word(for_return));
    let s4 = replace_any(s3, numeric_words(), number_word());
    let s5 = replace_any(s4, seq![host_string_word()], client_string_word());
    let s6 = replace_any(s5, seq![seq!['(']], seq!['[']);
    let s7 = replace_any(s6, seq![seq![')']], seq![']']);
    unwrap_option(s7)
}

/// The whole host-to-client type rewrite: path qualifiers stripped, then
/// `rewrite`.
pub open spec fn translate(path: Seq<char>, for_return: bool) -> Seq<char> {
    rewrite(paths_stripped(path), for_return)
}

/// What each vector of `pats` holds.
pub open spec fn views(pats: Seq<Vec<char>>) -> Seq<Seq<char>> {
    pats.map_values(|p: Vec<char>| p@)
}

proof fn lemma_first_prefix_is_prefix(s: Seq<char>, pats: Seq<Seq<char>>)
    ensures
        first_prefix(s, pats) matches Some(p) ==> is_prefix(p, s),
    decreases pats.len(),
{
    if pats.len() > 0 && !is_prefix(pats[0], s) {
        lemma_first_prefix_is_prefix(s, pats.drop_first());
    }
}

/// Text already in the client's type system: no path qualifier, no host
/// collection, unit, numeric or string type, no parentheses, and no
/// `Option<..>` around the whole.
pub open spec fn is_client_shaped(s: Seq<char>) -> bool {
    &&& !has_path_separator(s)
    &&& !occurs(s, vec_word())
    &&& !occurs(s, unit_type())
    &&& forall|k: int| 0 <= k < numeric_words().len() ==> !occurs(s, #[trigger] numeric_words()[k])
    &&& !occurs(s, host_string_word())
    &&& !occurs(s, seq!['('])
    &&& !occurs(s, seq![')'])
    &&& !is_option_of(s)
}

proof fn lemma_first_prefix_member(s: Seq<char>, pats: Seq<Seq<char>>)
    ensures
        first_prefix(s, pats) matches Some(p) ==> (is_prefix(p, s) && exists|k: int|
            0 <= k < pats.len() && pats[k] == p),
    decreases pats.len(),
{
    if pats.len() > 0 && !is_prefix(pats[0], s) {
        lemma_first_prefix_member(s, pats.drop_first());
        if let Some(p) = first_prefix(s, pats) {
            let k = choose|k: int| 0 <= k < pats.drop_first().len() && pats.drop_first()[k] == p;
            assert(pats[k + 1] == p);
        }
    }
}

proof fn lemma_occurs_in_tail(s: Seq<char>, j: int, p: Seq<char>)
    requires
        0 <= j <= s.len(),
        occurs(s.subrange(j, s.len() as int), p),
    ensures
        occurs(s, p),
{
    let t = s.subrange(j, s.len() as int);
    let i = choose|i: int| 0 <= i < t.len() && is_prefix(p, #[trigger] t.subrange(i, t.len() as int));
    assert(t.subrange(i, t.len() as int) =~= s.subrange(j + i, s.len() as int));
}

proof fn lemma_replace_absent(s: Seq<char>, pats: Seq<Seq<char>>, rep: Seq<char>)
    requires
        forall|k: int| 0 <= k < pats.len() ==> !occurs(s, #[trigger] pats[k]),
    ensures
        replace_any(s, pats, rep) == s,
    decreases s.len(),
{
    if s.len() > 0 {
        lemma_first_prefix_member(s, pats);
        if let Some(p) = first_prefix(s, pats) {
            assert(s.subrange(0, s.len() as int) =~= s);
            let k = choose|k: int| 0 <= k < pats.len() && pats[k] == p;
            assert(occurs(s, pats[k]));
        }
        let t = s.drop_first();
        assert(t =~= s.subrange(1, s.len() as int));
        assert forall|k: int| 0 <= k < pats.len() implies !occurs(t, #[trigger] pats[k]) by {
            if occurs(t, pats[k]) {
                lemma_occurs_in_tail(s, 1, pats[k]);
            }
        }
        lemma_replace_absent(t, pats, rep);
        assert(seq![s[0]] + t =~= s);
    }
}

/// Whether `p` occurs in `v` at index `i`.
fn occurs_at(v: &Vec<char>, i: usize, p: &Vec<char>) -> (r: bool)
    requires
        i <= v.len(),
    ensures
        r == is_prefix(p@, v@.subrange(i as int, v.len() as int)),
{
    if p.len() == 0 || p.len() > v.len() - i {
        return false;
    }
    let mut j: usize = 0;
    while j < p.len()
        invariant
            0 < p.len() <= v.len() - i,
            j <= p.len(),
            forall|k: int| 0 <= k < j ==> v@[i + k] == p@[k],
        decreases p.len() - j,
    {
        if v[i + j] != p[j] {
            assert(v@.subrange(i as int, v.len() as int).subrange(0, p.len() as int)[j as int]
                != p@[j as int]);
            return false;
        }
        j = j + 1;
    }
    assert(v@.subrange(i as int, v.len() as int).subrange(0, p.len() as int) =~= p@);
    true
}

/// The pattern of `pats` that `first_prefix` picks at index `i` of `v`.
fn first_occurring(v: &Vec<char>, i: usize, pats: &Vec<Vec<char>>) -> (r: Option<usize>)
    requires
        i <= v.len(),
    ensures
        match r {
            Some(j) => j < pats.len() && first_prefix(
                v@.subrange(i as int, v.len() as int),
                views(pats@),
            ) == Some(pats@[j as int]@),
            None => first_prefix(v@.subrange(i as int, v.len() as int), views(pats@))
                is None,
        },
{
    let ghost s = v@.subrange(i as int, v.len() as int);
    let mut j: usize = 0;
    assert(views(pats@).subrange(0, pats.len() as int) =~= views(pats@));
    while j < pats.len()
        invariant
            j <= pats.len(),
            s == v@.subrange(i as int, v.len() as int),
            i <= v.len(),
            first_prefix(s, views(pats@)) == first_prefix(
                s,
                views(pats@).subrange(j as int, pats.len() as int),
            ),
        decreases pats.len() - j,
    {
        let ghost rest = views(pats@).subrange(j as int, pats.len() as int);
        assert(rest.drop_first() =~= views(pats@).subrange(j + 1, pats.len() as int));
        assert(rest[0] == pats@[j as int]@);
        if occurs_at(v, i, &pats[j]) {
            return Some(j);
        }
        j = j + 1;
    }
    None
}

/// Left-to-right replacement of every occurrence of one of `pats` by `rep`.
pub fn replace_all_of(v: &Vec<char>, pats: &Vec<Vec<char>>, rep: &Vec<char>) -> (r: Vec<char>)
    ensures
        r@ == replace_any(v@, views(pats@), rep@),
{
    let mut out: Vec<char> = Vec::new();
    let mut i: usize = 0;
    assert(v@.subrange(0, v.len() as int) =~= v@);
    while i < v.len()
        invariant
            i <= v.len(),
            out@ + replace_any(v@.subrange(i as int, v.len() as int), views(pats@), rep@)
                == replace_any(v@, views(pats@), rep@),
        decreases v.len() - i,
    {
        let ghost s = v@.subrange(i as int, v.len() as int);
        match first_occurring(v, i, pats) {
            Some(j) => {
                let plen = pats[j].len();
                proof {
                    lemma_first_prefix_is_prefix(s, views(pats@));
                }
                assert(s.subrange(plen as int, s.len() as int) =~= v@.subrange(
                    i + plen,
                    v.len() as int,
                ));
                let mut k: usize = 0;
                let ghost before = out@;
                while k < rep.len()
                    invariant
                        k <= rep.len(),
                        out@ == before + rep@.subrange(0, k as int),
                    decreases rep.len() - k,
                {
                    out.push(rep[k]);
                    k = k + 1;
                    assert(out@ =~= before + rep@.subrange(0, k as int));
                }
                assert(rep@.subrange(0, rep.len() as int) =~= rep@);
                assert((before + rep@) + replace_any(
                    v@.subrange(i + plen, v.len() as int),
                    views(pats@),
                    rep@,
                ) =~= before + (rep@ + replace_any(
                    v@.subrange(i + plen, v.len() as int),
                    views(pats@),
                    rep@,
                )));
                i = i + plen;
            },
            None => {
                assert(s.drop_first() =~= v@.subrange(i + 1, v.len() as int));
                let ghost before = out@;
                out.push(v[i]);
                assert(out@ + replace_any(s.drop_first(), views(pats@), rep@) =~= before + (
                seq![s[0]] + replace_any(s.drop_first(), views(pats@), rep@)));
                i = i + 1;
            },
        }
    }
    assert(out@ =~= out@ + replace_any(
        v@.subrange(i as int, v.len() as int),
        views(pats@),
        rep@,
    ));
    out
}

/// The characters of `v` from `a` up to `b`.
fn copy_range(v: &Vec<char>, a: usize, b: usize) -> (r: Vec<char>)
    requires
        a <= b <= v.len(),
    ensures
        r@ == v@.subrange(a as int, b as int),
{
    let mut r: Vec<char> = Vec::new();
    let mut i: usize = a;
    while i < b
        invariant
            a <= i <= b <= v.len(),
            r@ == v@.subrange(a as int, i as int),
        decreases b - i,
    {
        r.push(v[i]);
        i = i + 1;
        assert(r@ =~= v@.subrange(a as int, i as int));
    }
    r
}

/// Appends the characters of `w` to `out`.
fn append_chars(out: &mut Vec<char>, w: &Vec<char>)
    ensures
        final(out)@ == old(out)@ + w@,
{
    let mut i: usize = 0;
    while i < w.len()
        invariant
            i <= w.len(),
            out@ == old(out)@ + w@.subrange(0, i as int),
        decreases w.len() - i,
    {
        out.push(w[i]);
        i = i + 1;
        assert(out@ =~= old(out)@ + w@.subrange(0, i as int));
    }
    assert(w@.subrange(0, w.len() as int) =~= w@);
}

/// Turns a single outer `Option<T>` into `T?`.
fn unwrap_option_of(v: &Vec<char>) -> (r: Vec<char>)
    ensures
        r@ == unwrap_option(v@),
{
    let n = v.len();
    if n > 8 && v[0] == 'O' && v[1] == 'p' && v[2] == 't' && v[3] == 'i' && v[4] == 'o' && v[5]
        == 'n' && v[6] == '<' && v[n - 1] == '>' {
        assert(v@.subrange(0, 7) =~= option_open());
        let mut i: usize = 7;
        while i < n - 1
            invariant
                7 <= i <= n - 1,
                n == v.len(),
                forall|k: int| 7 <= k < i ==> v@[k] != '\n',
            decreases n - 1 - i,
        {
            if v[i] == '\n' {
                assert(v@.subrange(7, n - 1)[i - 7] == '\n');
                return copy_range(v, 0, n);
            }
            i = i + 1;
        }
        assert(!v@.subrange(7, n - 1).contains('\n'));
        let mut r = copy_range(v, 7, n - 1);
        r.push('?');
        r
    } else {
        if n > 8 {
            assert(v@.subrange(0, 7) != option_open() || v@[n - 1] != '>') by {
                if v@.subrange(0, 7) == option_open() {
                    assert(v@[0] == v@.subrange(0, 7)[0]);
                    assert(v@[1] == v@.subrange(0, 7)[1]);
                    assert(v@[2] == v@.subrange(0, 7)[2]);
                    assert(v@[3] == v@.subrange(0, 7)[3]);
                    assert(v@[4] == v@.subrange(0, 7)[4]);
                    assert(v@[5] == v@.subrange(0, 7)[5]);
                    assert(v@[6] == v@.subrange(0, 7)[6]);
                }
            }
        }
        copy_range(v, 0, n)
    }
}

/// One rewrite rule whose pattern is a single literal.
fn replace_literal(v: &Vec<char>, pat: Vec<char>, rep: &Vec<char>) -> (r: Vec<char>)
    ensures
        r@ == replace_any(v@, seq![pat@], rep@),
{
    let pats = vec![pat];
    assert(views(pats@) =~= seq![pats@[0]@]);
    replace_all_of(v, &pats, rep)
}

/// The host-to-client rewrite of a type expression whose path qualifiers are
/// already gone; `for_return` picks the literal for the unit type. Text already
/// in the client's type system comes back unchanged.
pub fn rewrite_type(path: &str, for_return: bool) -> (r: String)
    ensures
        r@ == rewrite(path@, for_return),
        is_client_shaped(path@) ==> r@ == path@,
{
    let s1 = chars_of(path);
    let vec_w = vec!['V', 'e', 'c'];
    let array_w = vec!['A', 'r', 'r', 'a', 'y'];
    assert(vec_w@ =~= vec_word() && array_w@ =~= array_word());
    let s2 = replace_literal(&s1, vec_w, &array_w);
    let unit = vec!['(', ')'];
    let unit_w = if for_return {
        vec!['v', 'o', 'i', 'd']
    } else {
        vec!['n', 'u', 'l', 'l']
    };
    assert(unit@ =~= unit_type() && unit_w@ =~= unit_word(for_return));
    let s3 = replace_literal(&s2, unit, &unit_w);
    let numeric = vec![
        vec!['u', 's', 'i', 'z', 'e'],
        vec!['i', 's', 'i', 'z', 'e'],
        vec!['i', '1', '2', '8'],
        vec!['u', '1', '2', '8'],
        vec!['i', '1', '6'],
        vec!['u', '1', '6'],
        vec!['i', '3', '2'],
        vec!['u', '3', '2'],
        vec!['i', '6', '4'],
        vec!['u', '6', '4'],
        vec!['i', '8'],
        vec!['u', '8'],
        vec!['f', '3', '2'],
        vec!['f', '6', '4'],
    ];
    let number_w = vec!['n', 'u', 'm', 'b', 'e', 'r'];
    assert(views(numeric@) =~= numeric_words());
    assert(number_w@ =~= number_word());
    let s4 = replace_all_of(&s3, &numeric, &number_w);
    let host_w = vec!['S', 't', 'r', 'i', 'n', 'g'];
    let client_w = vec!['s', 't', 'r', 'i', 'n', 'g'];
    assert(host_w@ =~= host_string_word() && client_w@ =~= client_string_word());
    let s5 = replace_literal(&s4, host_w, &client_w);
    let open_p = vec!['('];
    let open_b = vec!['['];
    let close_p = vec![')'];
    let close_b = vec![']'];
    assert(open_p@ =~= seq!['('] && open_b@ =~= seq!['['] && close_p@ =~= seq![')']
        && close_b@ =~= seq![']']);
    let s6 = replace_literal(&s5, open_p, &open_b);
    let s7 = replace_literal(&s6, close_p, &close_b);
    let s8 = unwrap_option_of(&s7);
    proof {
        if is_client_shaped(path@) {
            let p = path@;
            lemma_replace_absent(p, seq![vec_word()], array_word());
            lemma_replace_absent(p, seq![unit_type()], unit_word(for_return));
            lemma_replace_absent(p, numeric_words(), number_word());
            lemma_replace_absent(p, seq![host_string_word()], client_string_word());
            lemma_replace_absent(p, seq![seq!['(']], seq!['[']);
            lemma_replace_absent(p, seq![seq![')']], seq![']']);
        }
    }
    string_of(&s8)
}

/// The host-to-client rewrite of a type expression: path qualifiers are
/// stripped, then `rewrite_type` does the rest.
fn translate_type(path: &str, for_return: bool) -> (r: String)
    ensures
        r@ == translate(path@, for_return),
        !has_path_separator(path@) ==> r@ == rewrite(path@, for_return),
        is_client_shaped(path@) ==> r@ == path@,
{
    let stripped = strip_paths(path);
    rewrite_type(stripped.as_str(), for_return)
}

/// A host type expression rewritten for the client, where the unit type
/// stands for a value and becomes `null`. Text without a path qualifier goes
/// through `rewrite` alone. Text already in the client's type
/// system comes back unchanged.
pub fn to_typescript_type(path: &str) -> (r: String)
    ensures
        r@ == translate(path@, false),
        !has_path_separator(path@) ==> r@ == rewrite(path@, false),
        is_client_shaped(path@) ==> r@ == path@,
{
    translate_type(path, false)
}

/// A host type expression rewritten for the client, where it is a return type
/// and the unit type becomes `void`. Text without a path qualifier goes
/// through `rewrite` alone. Text already in the client's type system
/// comes back unchanged.
pub fn to_typescript_return_type(path: &str) -> (r: String)
    ensures
        r@ == translate(path@, true),
        !has_path_separator(path@) ==> r@ == rewrite(path@, true),
        is_client_shaped(path@) ==> r@ == path@,
{
    translate_type(path, true)
}

} // verus!
