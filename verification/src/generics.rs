//! Helpers for emitting Rust generics from the `generics` / `generic-arg`
//! data of an IDL.
//!
//! Every helper returns an **empty** stream when there are no generics, so
//! that call sites can interpolate the result unconditionally: a struct
//! declared with an empty parameter list is declared without one.
use crate::tokens::{
    alone, append_stream, decimal, digit_char, ident_stream, is_decimal_digits, is_plain_ident, new_stream, parse_stream,
    push_ident, push_punct, push_usize_literal, stream_trees, try_ident_stream, Tree,
};
use proc_macro2::TokenStream;
use vstd::prelude::*;

verus! {

/// A generic parameter of a type definition.
pub enum GenericParam {
    /// A type parameter, such as `T`.
    Type { name: String },
    /// A const parameter, such as `const N: usize`, with its type already
    /// lexed (see `parse_const_generic_type`).
    Const { name: String, ty: TokenStream },
}

/// A generic argument at a reference site.
pub enum GenericArg {
    /// A type argument, already rendered as tokens.
    Type { ty: TokenStream },
    /// A const argument, with its value already lexed.
    Const { value: TokenStream },
}

/// The length of an array type.
pub enum ArrayLen {
    /// A literal length.
    Value(usize),
    /// A const generic parameter of the surrounding definition.
    Generic(String),
}

/// A generic parameter as plain values.
pub enum ParamV {
    Type { name: Seq<char> },
    Const { name: Seq<char>, ty: Seq<Tree> },
}

/// A generic argument as plain values.
pub enum ArgV {
    Type { ty: Seq<Tree> },
    Const { value: Seq<Tree> },
}

impl View for GenericParam {
    type V = ParamV;

    open spec fn view(&self) -> ParamV {
        match self {
            GenericParam::Type { name } => ParamV::Type { name: name@ },
            GenericParam::Const { name, ty } => ParamV::Const { name: name@, ty: stream_trees(*ty) },
        }
    }
}

impl View for GenericArg {
    type V = ArgV;

    open spec fn view(&self) -> ArgV {
        match self {
            GenericArg::Type { ty } => ArgV::Type { ty: stream_trees(*ty) },
            GenericArg::Const { value } => ArgV::Const { value: stream_trees(*value) },
        }
    }
}

pub open spec fn params_view(gs: Seq<GenericParam>) -> Seq<ParamV> {
    gs.map_values(|g: GenericParam| g@)
}

pub open spec fn args_view(args: Seq<GenericArg>) -> Seq<ArgV> {
    args.map_values(|a: GenericArg| a@)
}

/// The name of a parameter, whatever its kind.
pub open spec fn param_name(p: ParamV) -> Seq<char> {
    match p {
        ParamV::Type { name } => name,
        ParamV::Const { name, .. } => name,
    }
}

/// `items` separated by commas: `a , b , c`.
pub open spec fn comma_join(items: Seq<Seq<Tree>>) -> Seq<Tree>
    decreases items.len(),
{
    if items.len() == 0 {
        seq![]
    } else if items.len() == 1 {
        items[0]
    } else {
        comma_join(items.drop_last()) + seq![alone(',')] + items.last()
    }
}

/// `< a , b , c >`, or nothing at all when there are no items.
pub open spec fn angle_list(items: Seq<Seq<Tree>>) -> Seq<Tree> {
    if items.len() == 0 {
        seq![]
    } else {
        seq![alone('<')] + comma_join(items) + seq![alone('>')]
    }
}

/// One entry of a declaration list: `T`, or `const N : <type tokens>`.
pub open spec fn decl_item(p: ParamV) -> Seq<Tree> {
    match p {
        ParamV::Type { name } => seq![Tree::Ident(name)],
        ParamV::Const { name, ty } => seq![Tree::Ident("const"@), Tree::Ident(name), alone(':')]
            + ty,
    }
}

/// One entry of a use list: the bare name.
pub open spec fn use_item(p: ParamV) -> Seq<Tree> {
    seq![Tree::Ident(param_name(p))]
}

/// One entry of an argument list: the type's tokens, or the value's.
pub open spec fn arg_item(a: ArgV) -> Seq<Tree> {
    match a {
        ArgV::Type { ty } => ty,
        ArgV::Const { value } => value,
    }
}

/// The declaration list of `ps`: `< A , B , const N : usize >`.
pub open spec fn params_decl(ps: Seq<ParamV>) -> Seq<Tree> {
    angle_list(ps.map_values(|p: ParamV| decl_item(p)))
}

/// The use list of `ps`: `< A , B , N >`.
pub open spec fn params_use(ps: Seq<ParamV>) -> Seq<Tree> {
    angle_list(ps.map_values(|p: ParamV| use_item(p)))
}

/// The argument list of `args`: `< u64 , 8 >`.
pub open spec fn args_list(args: Seq<ArgV>) -> Seq<Tree> {
    angle_list(args.map_values(|a: ArgV| arg_item(a)))
}

/// The names of the type parameters of `ps`, in order; const parameters are
/// left out.
pub open spec fn type_names(ps: Seq<ParamV>) -> Seq<Seq<char>>
    decreases ps.len(),
{
    if ps.len() == 0 {
        seq![]
    } else {
        let rest = type_names(ps.drop_last());
        match ps.last() {
            ParamV::Type { name } => rest.push(name),
            ParamV::Const { .. } => rest,
        }
    }
}

/// One entry of a `where` clause: `T : <bound tokens>`.
pub open spec fn bound_item(name: Seq<char>, bound: Seq<Tree>) -> Seq<Tree> {
    seq![Tree::Ident(name), alone(':')] + bound
}

/// `where A : bound , B : bound` over the type parameters of `ps`, or nothing
/// when there is no type parameter.
pub open spec fn where_bounds(ps: Seq<ParamV>, bound: Seq<Tree>) -> Seq<Tree> {
    let names = type_names(ps);
    if names.len() == 0 {
        seq![]
    } else {
        seq![Tree::Ident("where"@)] + comma_join(
            names.map_values(|n: Seq<char>| bound_item(n, bound)),
        )
    }
}

/// The tokens of an array length: the literal `32usize`, or the parameter's name.
pub open spec fn array_len_trees(len: ArrayLen) -> Seq<Tree> {
    match len {
        ArrayLen::Value(n) => seq![
            Tree::Literal(decimal(n as nat) + seq!['u', 's', 'i', 'z', 'e']),
        ],
        ArrayLen::Generic(name) => seq![Tree::Ident(name@)],
    }
}

/// Every parameter's name is a plain identifier (`is_plain_ident`).
pub open spec fn all_names_plain(ps: Seq<ParamV>) -> bool {
    forall|i: int| 0 <= i < ps.len() ==> is_plain_ident(param_name(#[trigger] ps[i]))
}

/// Every type parameter's name is a plain identifier.
pub open spec fn all_type_names_plain(ps: Seq<ParamV>) -> bool {
    forall|i: int| 0 <= i < type_names(ps).len() ==> is_plain_ident(#[trigger] type_names(ps)[i])
}

/// A generic length's name is a plain identifier.
pub open spec fn array_len_plain(len: ArrayLen) -> bool {
    len matches ArrayLen::Generic(name) ==> is_plain_ident(name@)
}

/// `idents[k]` holds exactly the identifier `names[k]`, for every `k`.
pub open spec fn idents_match(idents: Seq<TokenStream>, names: Seq<Seq<char>>) -> bool {
    &&& idents.len() == names.len()
    &&& forall|k: int|
        0 <= k < idents.len() ==> stream_trees(#[trigger] idents[k]) == seq![Tree::Ident(names[k])]
}

pub open spec fn names_of(ps: Seq<ParamV>) -> Seq<Seq<char>> {
    ps.map_values(|p: ParamV| param_name(p))
}

/// Adding the `i`-th item to a comma-joined prefix.
proof fn lemma_comma_join_step(items: Seq<Seq<Tree>>, i: int)
    requires
        0 <= i < items.len(),
    ensures
        comma_join(items.take(i + 1)) == if i == 0 {
            items[0]
        } else {
            comma_join(items.take(i)) + seq![alone(',')] + items[i]
        },
{
    let t = items.take(i + 1);
    assert(t.len() == i + 1);
    if i > 0 {
        assert(t.drop_last() =~= items.take(i));
        assert(t.last() == items[i]);
    }
}

/// An angle list is empty exactly when it has no items.
proof fn lemma_angle_list_empty(items: Seq<Seq<Tree>>)
    ensures
        angle_list(items).len() == 0 <==> items.len() == 0,
{
}

/// The type names of a prefix grow by the next parameter's name, if it is a
/// type parameter.
proof fn lemma_type_names_step(ps: Seq<ParamV>, i: int)
    requires
        0 <= i < ps.len(),
    ensures
        type_names(ps.take(i + 1)) == match ps[i] {
            ParamV::Type { name } => type_names(ps.take(i)).push(name),
            ParamV::Const { .. } => type_names(ps.take(i)),
        },
{
    assert(ps.take(i + 1).drop_last() =~= ps.take(i));
    assert(ps.take(i + 1).last() == ps[i]);
}

/// The names of all parameters, in order.
fn param_names(gs: &[GenericParam]) -> (v: Vec<&str>)
    ensures
        v@.map_values(|s: &str| s@) == names_of(params_view(gs@)),
{
    let ghost ps = params_view(gs@);
    let mut v: Vec<&str> = Vec::new();
    let mut i: usize = 0;
    while i < gs.len()
        invariant
            0 <= i <= gs@.len(),
            ps == params_view(gs@),
            v@.map_values(|s: &str| s@) == names_of(ps).take(i as int),
        decreases gs@.len() - i,
    {
        assert(ps[i as int] == gs@[i as int]@);
        let name = match &gs[i] {
            GenericParam::Type { name } => name,
            GenericParam::Const { name, .. } => name,
        };
        assert(names_of(ps)[i as int] == param_name(ps[i as int]));
        assert(param_name(ps[i as int]) == name@);
        let ghost prev = v@;
        let name_str = name.as_str();
        v.push(name_str);
        assert(v@ == prev.push(name_str));
        assert(v@.map_values(|s: &str| s@) =~= prev.map_values(|s: &str| s@).push(name@));
        assert(names_of(ps).take(i + 1) =~= names_of(ps).take(i as int).push(name@));
        i += 1;
    }
    assert(names_of(ps).take(gs@.len() as int) =~= names_of(ps));
    v
}

/// The names of the type parameters, in order; const parameters are skipped.
fn type_param_names(gs: &[GenericParam]) -> (v: Vec<&str>)
    ensures
        v@.map_values(|s: &str| s@) == type_names(params_view(gs@)),
{
    let ghost ps = params_view(gs@);
    let mut v: Vec<&str> = Vec::new();
    let mut i: usize = 0;
    while i < gs.len()
        invariant
            0 <= i <= gs@.len(),
            ps == params_view(gs@),
            v@.map_values(|s: &str| s@) == type_names(ps.take(i as int)),
        decreases gs@.len() - i,
    {
        proof {
            lemma_type_names_step(ps, i as int);
        }
        assert(ps[i as int] == gs@[i as int]@);
        match &gs[i] {
            GenericParam::Type { name } => {
                v.push(name.as_str());
                assert(v@.map_values(|s: &str| s@) =~= type_names(ps.take(i + 1)));
            },
            GenericParam::Const { .. } => {},
        }
        i += 1;
    }
    assert(ps.take(gs@.len() as int) =~= ps);
    v
}

/// One identifier stream per name; every name must be a plain identifier.
fn plain_ident_streams(names: &Vec<&str>) -> (v: Vec<TokenStream>)
    requires
        forall|k: int| 0 <= k < names@.len() ==> is_plain_ident(#[trigger] names@[k]@),
    ensures
        idents_match(v@, names@.map_values(|s: &str| s@)),
{
    let ghost nv = names@.map_values(|s: &str| s@);
    let mut v: Vec<TokenStream> = Vec::new();
    let mut k: usize = 0;
    while k < names.len()
        invariant
            0 <= k <= names@.len(),
            nv == names@.map_values(|s: &str| s@),
            forall|j: int| 0 <= j < names@.len() ==> is_plain_ident(#[trigger] names@[j]@),
            v@.len() == k,
            forall|j: int|
                0 <= j < k ==> stream_trees(#[trigger] v@[j]) == seq![Tree::Ident(nv[j])],
        decreases names@.len() - k,
    {
        assert(is_plain_ident(names@[k as int]@));
        v.push(ident_stream(names[k]));
        k += 1;
    }
    v
}

/// One identifier stream per name, or `None` where `try_ident_stream` gives
/// none for some name.
fn try_ident_streams(names: &Vec<&str>) -> (r: Option<Vec<TokenStream>>)
    ensures
        (forall|k: int| 0 <= k < names@.len() ==> is_plain_ident(#[trigger] names@[k]@)) ==> r is Some,
        r matches Some(v) ==> idents_match(v@, names@.map_values(|s: &str| s@)),
{
    let ghost nv = names@.map_values(|s: &str| s@);
    let mut v: Vec<TokenStream> = Vec::new();
    let mut k: usize = 0;
    while k < names.len()
        invariant
            0 <= k <= names@.len(),
            nv == names@.map_values(|s: &str| s@),
            v@.len() == k,
            forall|j: int|
                0 <= j < k ==> stream_trees(#[trigger] v@[j]) == seq![Tree::Ident(nv[j])],
        decreases names@.len() - k,
    {
        match try_ident_stream(names[k]) {
            Some(ts) => v.push(ts),
            None => return None,
        }
        k += 1;
    }
    Some(v)
}

/// The entries of a declaration list are appended to `out`, the identifiers
/// taken from `idents`.
fn decl_from_idents(gs: &[GenericParam], idents: &Vec<TokenStream>) -> (r: TokenStream)
    requires
        idents_match(idents@, names_of(params_view(gs@))),
    ensures
        stream_trees(r) == params_decl(params_view(gs@)),
{
    let ghost ps = params_view(gs@);
    let ghost items = ps.map_values(|p: ParamV| decl_item(p));
    let mut out = new_stream();
    if gs.len() == 0 {
        assert(stream_trees(out) =~= params_decl(ps));
        return out;
    }
    push_punct(&mut out, '<');
    let mut i: usize = 0;
    while i < gs.len()
        invariant
            0 <= i <= gs@.len(),
            gs@.len() > 0,
            ps == params_view(gs@),
            items == ps.map_values(|p: ParamV| decl_item(p)),
            idents_match(idents@, names_of(ps)),
            stream_trees(out) == seq![alone('<')] + comma_join(items.take(i as int)),
        decreases gs@.len() - i,
    {
        proof {
            lemma_comma_join_step(items, i as int);
        }
        if i > 0 {
            push_punct(&mut out, ',');
        }
        let ghost before = stream_trees(out);
        assert(ps[i as int] == gs@[i as int]@);
        assert(stream_trees(idents@[i as int]) == seq![Tree::Ident(param_name(ps[i as int]))]);
        match &gs[i] {
            GenericParam::Type { .. } => {
                append_stream(&mut out, &idents[i]);
            },
            GenericParam::Const { ty, .. } => {
                proof {
                    reveal_strlit("const");
                }
                push_ident(&mut out, "const");
                append_stream(&mut out, &idents[i]);
                push_punct(&mut out, ':');
                append_stream(&mut out, ty);
            },
        }
        assert(stream_trees(out) =~= before + decl_item(ps[i as int]));
        assert(stream_trees(out) =~= seq![alone('<')] + comma_join(items.take(i + 1)));
        i += 1;
    }
    push_punct(&mut out, '>');
    assert(items.take(gs@.len() as int) =~= items);
    out
}

/// A use list, the identifiers taken from `idents`.
fn use_from_idents(gs: &[GenericParam], idents: &Vec<TokenStream>) -> (r: TokenStream)
    requires
        idents_match(idents@, names_of(params_view(gs@))),
    ensures
        stream_trees(r) == params_use(params_view(gs@)),
{
    let ghost ps = params_view(gs@);
    let ghost items = ps.map_values(|p: ParamV| use_item(p));
    let mut out = new_stream();
    if gs.len() == 0 {
        assert(stream_trees(out) =~= params_use(ps));
        return out;
    }
    push_punct(&mut out, '<');
    let mut i: usize = 0;
    while i < gs.len()
        invariant
            0 <= i <= gs@.len(),
            gs@.len() > 0,
            ps == params_view(gs@),
            items == ps.map_values(|p: ParamV| use_item(p)),
            idents_match(idents@, names_of(ps)),
            stream_trees(out) == seq![alone('<')] + comma_join(items.take(i as int)),
        decreases gs@.len() - i,
    {
        proof {
            lemma_comma_join_step(items, i as int);
        }
        if i > 0 {
            push_punct(&mut out, ',');
        }
        assert(stream_trees(idents@[i as int]) == seq![Tree::Ident(param_name(ps[i as int]))]);
        append_stream(&mut out, &idents[i]);
        assert(stream_trees(out) =~= seq![alone('<')] + comma_join(items.take(i + 1)));
        i += 1;
    }
    push_punct(&mut out, '>');
    assert(items.take(gs@.len() as int) =~= items);
    out
}

/// A `where` clause over the type parameters, their identifiers taken from
/// `idents`.
fn bounds_from_idents(gs: &[GenericParam], idents: &Vec<TokenStream>, bound: &TokenStream) -> (r:
    TokenStream)
    requires
        idents_match(idents@, type_names(params_view(gs@))),
    ensures
        stream_trees(r) == where_bounds(params_view(gs@), stream_trees(*bound)),
{
    let ghost tn = type_names(params_view(gs@));
    let ghost bt = stream_trees(*bound);
    let ghost items = tn.map_values(|n: Seq<char>| bound_item(n, bt));
    let mut out = new_stream();
    if idents.len() == 0 {
        assert(stream_trees(out) =~= where_bounds(params_view(gs@), bt));
        return out;
    }
    proof {
        reveal_strlit("where");
    }
    push_ident(&mut out, "where");
    let mut j: usize = 0;
    while j < idents.len()
        invariant
            0 <= j <= idents@.len(),
            idents@.len() > 0,
            tn == type_names(params_view(gs@)),
            idents_match(idents@, tn),
            items == tn.map_values(|n: Seq<char>| bound_item(n, bt)),
            bt == stream_trees(*bound),
            stream_trees(out) == seq![Tree::Ident("where"@)] + comma_join(items.take(j as int)),
        decreases idents@.len() - j,
    {
        proof {
            lemma_comma_join_step(items, j as int);
        }
        if j > 0 {
            push_punct(&mut out, ',');
        }
        assert(stream_trees(idents@[j as int]) == seq![Tree::Ident(tn[j as int])]);
        append_stream(&mut out, &idents[j]);
        push_punct(&mut out, ':');
        append_stream(&mut out, bound);
        assert(stream_trees(out) =~= seq![Tree::Ident("where"@)] + comma_join(
            items.take(j + 1),
        ));
        j += 1;
    }
    assert(items.take(idents@.len() as int) =~= items);
    out
}

/// `<A, B, const N: usize>`: the parameter list for the declaration line of a
/// struct, enum or type alias. Empty when there are no parameters.
pub fn generic_params_decl(gs: &[GenericParam]) -> (r: TokenStream)
    requires
        all_names_plain(params_view(gs@)),
    ensures
        stream_trees(r) == params_decl(params_view(gs@)),
        stream_trees(r).len() == 0 <==> gs@.len() == 0,
{
    let names = param_names(gs);
    proof {
        lemma_names_plain(params_view(gs@), names@);
        lemma_angle_list_empty(params_view(gs@).map_values(|p: ParamV| decl_item(p)));
    }
    let idents = plain_ident_streams(&names);
    decl_from_idents(gs, &idents)
}

/// `<A, B, N>`: the parameter list after a type name (impl target,
/// self-reference), with no bounds and no `const`. Empty when there are no
/// parameters.
pub fn generic_params_use(gs: &[GenericParam]) -> (r: TokenStream)
    requires
        all_names_plain(params_view(gs@)),
    ensures
        stream_trees(r) == params_use(params_view(gs@)),
        stream_trees(r).len() == 0 <==> gs@.len() == 0,
{
    let names = param_names(gs);
    proof {
        lemma_names_plain(params_view(gs@), names@);
        lemma_angle_list_empty(params_view(gs@).map_values(|p: ParamV| use_item(p)));
    }
    let idents = plain_ident_streams(&names);
    use_from_idents(gs, &idents)
}

/// `<u64, 8>`: the instantiated arguments at a reference site. Empty when
/// there are no arguments.
pub fn generic_args_to_tokens(args: &[GenericArg]) -> (r: TokenStream)
    ensures
        stream_trees(r) == args_list(args_view(args@)),
        stream_trees(r).len() == 0 <==> args@.len() == 0,
{
    let ghost avs = args_view(args@);
    let ghost items = avs.map_values(|a: ArgV| arg_item(a));
    proof {
        lemma_angle_list_empty(items);
    }
    let mut out = new_stream();
    if args.len() == 0 {
        return out;
    }
    push_punct(&mut out, '<');
    let mut i: usize = 0;
    while i < args.len()
        invariant
            0 <= i <= args@.len(),
            args@.len() > 0,
            avs == args_view(args@),
            items == avs.map_values(|a: ArgV| arg_item(a)),
            stream_trees(out) == seq![alone('<')] + comma_join(items.take(i as int)),
        decreases args@.len() - i,
    {
        proof {
            lemma_comma_join_step(items, i as int);
        }
        if i > 0 {
            push_punct(&mut out, ',');
        }
        assert(avs[i as int] == args@[i as int]@);
        match &args[i] {
            GenericArg::Type { ty } => {
                append_stream(&mut out, ty);
            },
            GenericArg::Const { value } => {
                append_stream(&mut out, value);
            },
        }
        assert(stream_trees(out) =~= seq![alone('<')] + comma_join(items.take(i + 1)));
        i += 1;
    }
    push_punct(&mut out, '>');
    assert(items.take(args@.len() as int) =~= items);
    out
}

/// `where T: Bound, U: Bound`: `bound` added to every type parameter of a
/// type definition, for hand-written impl blocks that need bounds. Const
/// parameters are skipped. Empty when there is no type parameter.
pub fn type_generic_bounds(gs: &[GenericParam], bound: TokenStream) -> (r: TokenStream)
    requires
        all_type_names_plain(params_view(gs@)),
    ensures
        stream_trees(r) == where_bounds(params_view(gs@), stream_trees(bound)),
        stream_trees(r).len() == 0 <==> type_names(params_view(gs@)).len() == 0,
{
    let names = type_param_names(gs);
    let ghost tn = type_names(params_view(gs@));
    proof {
        assert forall|k: int| 0 <= k < names@.len() implies is_plain_ident(#[trigger] names@[k]@) by {
            assert(names@.map_values(|s: &str| s@)[k] == names@[k]@);
            assert(tn[k] == names@[k]@);
        }
    }
    let idents = plain_ident_streams(&names);
    bounds_from_idents(gs, &idents, &bound)
}

/// Array length to tokens: `32usize` for a literal length, the bare
/// identifier `N` for a generic one, so that `[T; N]` resolves against the
/// surrounding generic scope.
pub fn array_len_to_tokens(len: &ArrayLen) -> (r: TokenStream)
    requires
        array_len_plain(*len),
    ensures
        stream_trees(r) == array_len_trees(*len),
{
    match len {
        ArrayLen::Value(n) => {
            let mut out = new_stream();
            push_usize_literal(&mut out, *n);
            assert(stream_trees(out) =~= array_len_trees(*len));
            out
        },
        ArrayLen::Generic(name) => ident_stream(name.as_str()),
    }
}

/// Lexes a const parameter's type (such as `usize`) or a const argument's
/// value (such as `8`). Which lexer runs is `proc_macro2`'s choice at run time;
/// what both lexers do is stated: a plain identifier, such as a primitive type
/// name, lexes to exactly that identifier, and a run of decimal digits to
/// exactly that integer literal. Of other texts nothing is stated, and a lexing
/// error is handed back to the caller.
pub fn parse_const_generic_type(ty: &str) -> (r: Result<TokenStream, proc_macro2::LexError>)
    ensures
        match r {
            Ok(ts) => {
                &&& is_plain_ident(ty@) ==> stream_trees(ts) == seq![Tree::Ident(ty@)]
                &&& is_decimal_digits(ty@) ==> stream_trees(ts) == seq![Tree::Literal(ty@)]
            },
            Err(_) => !is_plain_ident(ty@) && !is_decimal_digits(ty@),
        },
{
    parse_stream(ty)
}

/// `generic_params_decl` for any names: each name that is not a plain
/// identifier is lexed, and `None` comes back where a name does not lex to
/// exactly that identifier.
pub fn try_generic_params_decl(gs: &[GenericParam]) -> (r: Option<TokenStream>)
    ensures
        all_names_plain(params_view(gs@)) ==> r is Some,
        r matches Some(ts) ==> stream_trees(ts) == params_decl(params_view(gs@)),
{
    let names = param_names(gs);
    proof {
        lemma_names_plain(params_view(gs@), names@);
    }
    match try_ident_streams(&names) {
        Some(idents) => Some(decl_from_idents(gs, &idents)),
        None => None,
    }
}

/// `generic_params_use` for any names, as `try_generic_params_decl`.
pub fn try_generic_params_use(gs: &[GenericParam]) -> (r: Option<TokenStream>)
    ensures
        all_names_plain(params_view(gs@)) ==> r is Some,
        r matches Some(ts) ==> stream_trees(ts) == params_use(params_view(gs@)),
{
    let names = param_names(gs);
    proof {
        lemma_names_plain(params_view(gs@), names@);
    }
    match try_ident_streams(&names) {
        Some(idents) => Some(use_from_idents(gs, &idents)),
        None => None,
    }
}

/// `type_generic_bounds` for any type parameter names, as
/// `try_generic_params_decl`.
pub fn try_type_generic_bounds(gs: &[GenericParam], bound: TokenStream) -> (r: Option<
    TokenStream,
>)
    ensures
        all_type_names_plain(params_view(gs@)) ==> r is Some,
        r matches Some(ts) ==> stream_trees(ts) == where_bounds(
            params_view(gs@),
            stream_trees(bound),
        ),
{
    let names = type_param_names(gs);
    let ghost tn = type_names(params_view(gs@));
    proof {
        if all_type_names_plain(params_view(gs@)) {
            assert forall|k: int| 0 <= k < names@.len() implies is_plain_ident(
                #[trigger] names@[k]@,
            ) by {
                assert(names@.map_values(|s: &str| s@)[k] == names@[k]@);
                assert(tn[k] == names@[k]@);
            }
        }
    }
    match try_ident_streams(&names) {
        Some(idents) => Some(bounds_from_idents(gs, &idents, &bound)),
        None => None,
    }
}

/// `array_len_to_tokens` for any generic name, as `try_generic_params_decl`.
pub fn try_array_len_to_tokens(len: &ArrayLen) -> (r: Option<TokenStream>)
    ensures
        array_len_plain(*len) ==> r is Some,
        r matches Some(ts) ==> stream_trees(ts) == array_len_trees(*len),
{
    match len {
        ArrayLen::Value(_) => Some(array_len_to_tokens(len)),
        ArrayLen::Generic(name) => try_ident_stream(name.as_str()),
    }
}

/// The names listed by `param_names` are plain exactly when every parameter's is.
proof fn lemma_names_plain(ps: Seq<ParamV>, names: Seq<&str>)
    requires
        names.map_values(|s: &str| s@) == names_of(ps),
    ensures
        all_names_plain(ps) <==> forall|k: int|
            0 <= k < names.len() ==> is_plain_ident(#[trigger] names[k]@),
{
    assert(names.map_values(|s: &str| s@).len() == names.len());
    if all_names_plain(ps) {
        assert forall|k: int| 0 <= k < names.len() implies is_plain_ident(#[trigger] names[k]@) by {
            assert(names.map_values(|s: &str| s@)[k] == names[k]@);
            assert(names_of(ps)[k] == param_name(ps[k]));
        }
    }
    if forall|k: int| 0 <= k < names.len() ==> is_plain_ident(#[trigger] names[k]@) {
        assert forall|i: int| 0 <= i < ps.len() implies is_plain_ident(
            param_name(#[trigger] ps[i]),
        ) by {
            assert(names.map_values(|s: &str| s@)[i] == names[i]@);
            assert(names_of(ps)[i] == param_name(ps[i]));
            assert(is_plain_ident(names[i]@));
        }
    }
}

/// The use list and the declaration list coincide when every parameter is a
/// type parameter: only const parameters differ between the two forms.
pub proof fn use_list_matches_decl_list_for_type_params(ps: Seq<ParamV>)
    requires
        forall|i: int| 0 <= i < ps.len() ==> #[trigger] ps[i] is Type,
    ensures
        params_use(ps) == params_decl(ps),
{
    let a = ps.map_values(|p: ParamV| use_item(p));
    let b = ps.map_values(|p: ParamV| decl_item(p));
    assert forall|i: int| 0 <= i < ps.len() implies a[i] == b[i] by {
        assert(ps[i] is Type);
    }
    assert(a =~= b);
}

/// The type names of a concatenation are those of its parts, concatenated.
proof fn lemma_type_names_append(a: Seq<ParamV>, b: Seq<ParamV>)
    ensures
        type_names(a + b) == type_names(a) + type_names(b),
    decreases b.len(),
{
    if b.len() == 0 {
        assert(a + b =~= a);
        assert(type_names(b) =~= Seq::<Seq<char>>::empty());
        assert(type_names(a) + type_names(b) =~= type_names(a));
    } else {
        lemma_type_names_append(a, b.drop_last());
        assert((a + b).drop_last() =~= a + b.drop_last());
        assert((a + b).last() == b.last());
        match b.last() {
            ParamV::Type { name } => {
                assert(type_names(a) + type_names(b) =~= (type_names(a) + type_names(
                    b.drop_last(),
                )).push(name));
            },
            ParamV::Const { .. } => {},
        }
    }
}

/// Const parameters are skipped by the `where` clause: inserting one
/// anywhere in the parameter list leaves the bounds unchanged.
pub proof fn bounds_skip_const_params(
    ps: Seq<ParamV>,
    i: int,
    name: Seq<char>,
    ty: Seq<Tree>,
    bound: Seq<Tree>,
)
    requires
        0 <= i <= ps.len(),
    ensures
        where_bounds(ps.insert(i, ParamV::Const { name, ty }), bound) == where_bounds(ps, bound),
{
    let c = ParamV::Const { name, ty };
    let pre = ps.take(i);
    let post = ps.skip(i);
    assert(ps =~= pre + post);
    assert(ps.insert(i, c) =~= (pre + seq![c]) + post);
    lemma_type_names_append(pre, post);
    lemma_type_names_append(pre + seq![c], post);
    lemma_type_names_append(pre, seq![c]);
    assert(seq![c].drop_last() =~= Seq::<ParamV>::empty());
    assert(type_names(seq![c].drop_last()) =~= Seq::<Seq<char>>::empty());
    assert(seq![c].last() == c);
    assert(type_names(seq![c]) =~= Seq::<Seq<char>>::empty());
    assert(type_names(pre) + type_names(seq![c]) =~= type_names(pre));
    assert(type_names(ps.insert(i, c)) == type_names(ps));
}

/// Comma-joining single-token items gives the items at even positions and
/// commas at odd ones.
proof fn lemma_comma_join_singletons(items: Seq<Seq<Tree>>)
    requires
        items.len() > 0,
        forall|k: int| 0 <= k < items.len() ==> (#[trigger] items[k]).len() == 1,
    ensures
        comma_join(items).len() == 2 * items.len() - 1,
        forall|m: int|
            0 <= m < 2 * items.len() - 1 ==> #[trigger] comma_join(items)[m] == if m % 2 == 0 {
                items[m / 2][0]
            } else {
                alone(',')
            },
    decreases items.len(),
{
    if items.len() > 1 {
        let init = items.drop_last();
        assert forall|k: int| 0 <= k < init.len() implies (#[trigger] init[k]).len() == 1 by {
            assert(init[k] == items[k]);
        }
        lemma_comma_join_singletons(init);
        let j = comma_join(items);
        let ji = comma_join(init);
        let n = items.len();
        assert(j == ji + seq![alone(',')] + items.last());
        assert(items.last().len() == 1) by {
            assert(items.last() == items[n - 1]);
        }
        assert forall|m: int| 0 <= m < 2 * n - 1 implies #[trigger] j[m] == if m % 2 == 0 {
            items[m / 2][0]
        } else {
            alone(',')
        } by {
            if m < 2 * n - 3 {
                assert(j[m] == ji[m]);
                if m % 2 == 0 {
                    assert(init[m / 2] == items[m / 2]);
                }
            } else if m == 2 * n - 3 {
                assert(j[m] == alone(','));
            } else {
                assert(m / 2 == n - 1);
                assert(items.last() == items[n - 1]);
            }
        }
    }
}

/// The use list of a non-empty parameter list is `<`, the names in order
/// separated by commas, and `>`: `2 n + 1` tokens, the `k`-th name at
/// position `2 k + 1`.
pub proof fn use_list_names_every_param_in_order(ps: Seq<ParamV>)
    requires
        ps.len() > 0,
    ensures
        params_use(ps).len() == 2 * ps.len() + 1,
        forall|m: int|
            0 <= m < 2 * ps.len() + 1 ==> #[trigger] params_use(ps)[m] == if m == 0 {
                alone('<')
            } else if m == 2 * ps.len() {
                alone('>')
            } else if m % 2 == 1 {
                Tree::Ident(
                    match ps[(m - 1) / 2] {
                        ParamV::Type { name } => name,
                        ParamV::Const { name, .. } => name,
                    },
                )
            } else {
                alone(',')
            },
{
    let items = ps.map_values(|p: ParamV| use_item(p));
    assert forall|k: int| 0 <= k < items.len() implies (#[trigger] items[k]).len() == 1 by {}
    lemma_comma_join_singletons(items);
    let j = comma_join(items);
    let full = seq![alone('<')] + j + seq![alone('>')];
    assert(params_use(ps) == full);
    let n = ps.len();
    assert forall|m: int| 0 <= m < 2 * n + 1 implies #[trigger] full[m] == if m == 0 {
        alone('<')
    } else if m == 2 * n {
        alone('>')
    } else if m % 2 == 1 {
        Tree::Ident(
            match ps[(m - 1) / 2] {
                ParamV::Type { name } => name,
                ParamV::Const { name, .. } => name,
            },
        )
    } else {
        alone(',')
    } by {
        if 0 < m < 2 * n {
            assert(full[m] == j[m - 1]);
            if m % 2 == 1 {
                assert((m - 1) % 2 == 0);
                assert(items[(m - 1) / 2] == use_item(ps[(m - 1) / 2]));
            }
        }
    }
}

/// Appending one item to a non-empty angle list.
proof fn lemma_angle_list_push(items: Seq<Seq<Tree>>, x: Seq<Tree>)
    ensures
        items.len() > 0 ==> angle_list(items.push(x)) == angle_list(items).drop_last() + seq![
            Tree::Punct(',', false),
        ] + x + seq![Tree::Punct('>', false)],
        items.len() == 0 ==> angle_list(items.push(x)) == seq![Tree::Punct('<', false)] + x
            + seq![Tree::Punct('>', false)],
{
    let ys = items.push(x);
    assert(ys.drop_last() =~= items);
    assert(ys.last() == x);
    if items.len() > 0 {
        let a = angle_list(items);
        assert(a.drop_last() =~= seq![alone('<')] + comma_join(items));
        assert(angle_list(ys) =~= a.drop_last() + seq![Tree::Punct(',', false)] + x + seq![
            Tree::Punct('>', false),
        ]);
    } else {
        assert(ys.len() == 1);
        assert(comma_join(ys) == ys[0]);
        assert(angle_list(ys) =~= seq![Tree::Punct('<', false)] + x + seq![
            Tree::Punct('>', false),
        ]);
    }
}

/// Declaration lists, built one parameter at a time: with no parameter the
/// list is empty; a type parameter `T` adds the entry `T`, and a const
/// parameter adds `const`, its name, `:` and its type's tokens, all of them;
/// the first entry opens with `<`, a later one replaces the closing `>` by a
/// comma, and the list closes with `>`.
pub proof fn decl_list_grows_by_each_parameter(gs: Seq<GenericParam>, g: GenericParam)
    ensures
        params_decl(params_view(Seq::<GenericParam>::empty())) == Seq::<Tree>::empty(),
        ({
            let entry = match g {
                GenericParam::Type { name } => seq![Tree::Ident(name@)],
                GenericParam::Const { name, ty } => seq![
                    Tree::Ident("const"@),
                    Tree::Ident(name@),
                    Tree::Punct(':', false),
                ] + stream_trees(ty),
            };
            let before = params_decl(params_view(gs));
            let after = params_decl(params_view(gs.push(g)));
            &&& gs.len() == 0 ==> after == seq![Tree::Punct('<', false)] + entry + seq![
                Tree::Punct('>', false),
            ]
            &&& gs.len() > 0 ==> after == before.drop_last() + seq![Tree::Punct(',', false)]
                + entry + seq![Tree::Punct('>', false)]
        }),
{
    let ps = params_view(gs);
    assert(params_view(gs.push(g)) =~= ps.push(g@));
    let items = ps.map_values(|p: ParamV| decl_item(p));
    assert(ps.push(g@).map_values(|p: ParamV| decl_item(p)) =~= items.push(decl_item(g@)));
    lemma_angle_list_push(items, decl_item(g@));
    assert(Seq::<GenericParam>::empty().map_values(|g: GenericParam| g@).map_values(
        |p: ParamV| decl_item(p),
    ) =~= Seq::<Seq<Tree>>::empty());
}

/// Use lists, built one parameter at a time: each parameter, type or const,
/// adds exactly its own name.
pub proof fn use_list_grows_by_each_name(gs: Seq<GenericParam>, g: GenericParam)
    ensures
        params_use(params_view(Seq::<GenericParam>::empty())) == Seq::<Tree>::empty(),
        ({
            let entry = match g {
                GenericParam::Type { name } => seq![Tree::Ident(name@)],
                GenericParam::Const { name, .. } => seq![Tree::Ident(name@)],
            };
            let before = params_use(params_view(gs));
            let after = params_use(params_view(gs.push(g)));
            &&& gs.len() == 0 ==> after == seq![Tree::Punct('<', false)] + entry + seq![
                Tree::Punct('>', false),
            ]
            &&& gs.len() > 0 ==> after == before.drop_last() + seq![Tree::Punct(',', false)]
                + entry + seq![Tree::Punct('>', false)]
        }),
{
    let ps = params_view(gs);
    assert(params_view(gs.push(g)) =~= ps.push(g@));
    let items = ps.map_values(|p: ParamV| use_item(p));
    assert(ps.push(g@).map_values(|p: ParamV| use_item(p)) =~= items.push(use_item(g@)));
    lemma_angle_list_push(items, use_item(g@));
    assert(Seq::<GenericParam>::empty().map_values(|g: GenericParam| g@).map_values(
        |p: ParamV| use_item(p),
    ) =~= Seq::<Seq<Tree>>::empty());
}

/// Argument lists, built one argument at a time: each argument adds all of its
/// own tokens, in order (a type argument's whatever their number, a const
/// argument's value likewise).
pub proof fn args_list_grows_by_each_argument(args: Seq<GenericArg>, a: GenericArg)
    ensures
        args_list(args_view(Seq::<GenericArg>::empty())) == Seq::<Tree>::empty(),
        ({
            let entry = match a {
                GenericArg::Type { ty } => stream_trees(ty),
                GenericArg::Const { value } => stream_trees(value),
            };
            let before = args_list(args_view(args));
            let after = args_list(args_view(args.push(a)));
            &&& args.len() == 0 ==> after == seq![Tree::Punct('<', false)] + entry + seq![
                Tree::Punct('>', false),
            ]
            &&& args.len() > 0 ==> after == before.drop_last() + seq![Tree::Punct(',', false)]
                + entry + seq![Tree::Punct('>', false)]
        }),
{
    let avs = args_view(args);
    assert(args_view(args.push(a)) =~= avs.push(a@));
    let items = avs.map_values(|x: ArgV| arg_item(x));
    assert(avs.push(a@).map_values(|x: ArgV| arg_item(x)) =~= items.push(arg_item(a@)));
    lemma_angle_list_push(items, arg_item(a@));
    assert(Seq::<GenericArg>::empty().map_values(|a: GenericArg| a@).map_values(
        |x: ArgV| arg_item(x),
    ) =~= Seq::<Seq<Tree>>::empty());
}

/// `where` clauses, built one parameter at a time: a const parameter adds
/// nothing; a type parameter `T` adds the entry `T : bound`, after `where` if
/// it is the first, after a comma otherwise. With no parameter the clause is
/// empty.
pub proof fn bounds_grow_by_each_type_param(gs: Seq<GenericParam>, g: GenericParam, bound: Seq<Tree>)
    ensures
        where_bounds(params_view(Seq::<GenericParam>::empty()), bound) == Seq::<Tree>::empty(),
        ({
            let before = where_bounds(params_view(gs), bound);
            let after = where_bounds(params_view(gs.push(g)), bound);
            match g {
                GenericParam::Const { .. } => after == before,
                GenericParam::Type { name } => {
                    let entry = seq![Tree::Ident(name@), Tree::Punct(':', false)] + bound;
                    &&& before.len() == 0 ==> after == seq![Tree::Ident("where"@)] + entry
                    &&& before.len() > 0 ==> after == before + seq![Tree::Punct(',', false)]
                        + entry
                },
            }
        }),
{
    let ps = params_view(gs);
    let qs = params_view(gs.push(g));
    assert(qs =~= ps.push(g@));
    assert(qs.drop_last() =~= ps);
    assert(qs.last() == g@);
    let tn = type_names(ps);
    assert(type_names(Seq::<ParamV>::empty()) =~= Seq::<Seq<char>>::empty());
    assert(params_view(Seq::<GenericParam>::empty()) =~= Seq::<ParamV>::empty());
    match g {
        GenericParam::Const { .. } => {
            assert(type_names(qs) == tn);
        },
        GenericParam::Type { name } => {
            assert(type_names(qs) == tn.push(name@));
            let items = tn.map_values(|n: Seq<char>| bound_item(n, bound));
            let x = bound_item(name@, bound);
            let ys = tn.push(name@).map_values(|n: Seq<char>| bound_item(n, bound));
            assert(ys =~= items.push(x));
            assert(ys.drop_last() =~= items);
            assert(ys.last() == x);
            if tn.len() == 0 {
                assert(ys.len() == 1);
                assert(comma_join(ys) == ys[0]);
                assert(where_bounds(qs, bound) =~= seq![Tree::Ident("where"@)] + x);
            } else {
                assert(where_bounds(ps, bound).len() > 0);
                assert(where_bounds(qs, bound) =~= where_bounds(ps, bound) + seq![
                    Tree::Punct(',', false),
                ] + x);
            }
        },
    }
}

/// The number that a run of decimal digits denotes.
pub open spec fn digits_value(s: Seq<char>) -> nat
    decreases s.len(),
{
    if s.len() == 0 {
        0
    } else {
        digits_value(s.drop_last()) * 10 + ((s.last() as int - 48) as nat)
    }
}

/// `decimal(n)` is a run of digits denoting `n`.
proof fn lemma_decimal_value(n: nat)
    ensures
        digits_value(decimal(n)) == n,
        decimal(n).len() > 0,
        forall|i: int| 0 <= i < decimal(n).len() ==> '0' <= #[trigger] decimal(n)[i] <= '9',
    decreases n,
{
    assert(digit_char(n % 10) as int == 48 + n % 10);
    if n < 10 {
        let d = decimal(n);
        assert(d.drop_last() =~= Seq::<char>::empty());
        assert(d.last() == digit_char(n));
        assert(n % 10 == n);
        assert(digits_value(d.drop_last()) == 0);
        assert(digits_value(d) == digits_value(d.drop_last()) * 10 + ((d.last() as int - 48) as nat));
    } else {
        lemma_decimal_value(n / 10);
        assert(n == (n / 10) * 10 + n % 10) by (nonlinear_arith);
        let d = decimal(n);
        assert(d.drop_last() =~= decimal(n / 10));
        assert(d.last() == digit_char(n % 10));
        assert(forall|i: int| 0 <= i < decimal(n / 10).len() ==> d[i] == decimal(n / 10)[i]);
        assert(digits_value(d) == digits_value(d.drop_last()) * 10 + ((d.last() as int - 48) as nat));
        assert(digits_value(d.drop_last()) == n / 10);
    }
}

/// A literal array length is one literal token: the digits of exactly `n`,
/// then `usize`. A generic length is the one identifier naming it.
pub proof fn array_len_literal_denotes_its_value(n: usize, name: String)
    ensures
        array_len_trees(ArrayLen::Generic(name)) == seq![Tree::Ident(name@)],
        array_len_trees(ArrayLen::Value(n)).len() == 1,
        match array_len_trees(ArrayLen::Value(n))[0] {
            Tree::Literal(t) => {
                &&& t.len() > 5
                &&& t.skip(t.len() - 5) == seq!['u', 's', 'i', 'z', 'e']
                &&& forall|i: int| 0 <= i < t.len() - 5 ==> '0' <= #[trigger] t[i] <= '9'
                &&& digits_value(t.take(t.len() - 5)) == n
            },
            _ => false,
        },
{
    lemma_decimal_value(n as nat);
    let d = decimal(n as nat);
    let t = d + seq!['u', 's', 'i', 'z', 'e'];
    assert(t.take(t.len() - 5) =~= d);
    assert(t.skip(t.len() - 5) =~= seq!['u', 's', 'i', 'z', 'e']);
    assert(forall|i: int| 0 <= i < t.len() - 5 ==> t[i] == d[i]);
}

} // verus!
