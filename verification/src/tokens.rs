//! A plain-value model of `proc_macro2` token streams, and the small set of
//! stream operations that the generic-parameter helpers are built from.
//!
//! A `TokenStream` is treated as a sequence of token trees. Its contents are
//! named by [`stream_trees`]; every operation below states how it changes
//! that sequence.
use proc_macro2::{Delimiter, TokenStream, TokenTree};
use vstd::prelude::*;

verus! {

#[verifier::external_type_specification]
#[verifier::external_body]
pub struct ExTokenStream(proc_macro2::TokenStream);

#[verifier::external_type_specification]
#[verifier::external_body]
pub struct ExLexError(proc_macro2::LexError);

/// Delimiter of a token group.
pub enum Delim {
    Parenthesis,
    Brace,
    Bracket,
    /// An invisible delimiter (`Delimiter::None`).
    Invisible,
}

/// One token tree as a plain value.
///
/// An identifier is held by its text as `Display` prints it (a raw
/// identifier with its `r#` prefix); a punctuation character by the character
/// and whether it is joint with the next one; a literal by its source text.
pub enum Tree {
    Group(Delim, Seq<Tree>),
    Ident(Seq<char>),
    Punct(char, bool),
    Literal(Seq<char>),
}

/// An executable token tree: the plain values of one tree of a stream, with a
/// group's contents kept as a stream.
pub enum Token {
    Group(Delim, TokenStream),
    Ident(String),
    Punct(char, bool),
    Literal(String),
}

impl View for Token {
    type V = Tree;

    open spec fn view(&self) -> Tree {
        match self {
            Token::Group(d, s) => Tree::Group(*d, stream_trees(*s)),
            Token::Ident(s) => Tree::Ident(s@),
            Token::Punct(c, joint) => Tree::Punct(*c, *joint),
            Token::Literal(s) => Tree::Literal(s@),
        }
    }
}

/// The token trees that a stream holds, in order.
pub uninterp spec fn stream_trees(ts: TokenStream) -> Seq<Tree>;

/// A punctuation character that stands alone (is not joint with the next).
pub open spec fn alone(c: char) -> Tree {
    Tree::Punct(c, false)
}

/// The characters that `proc_macro2::Punct::new` accepts.
pub open spec fn is_punct_char(c: char) -> bool {
    c == '!' || c == '#' || c == '$' || c == '%' || c == '&' || c == '\'' || c == '*' || c == '+'
        || c == ',' || c == '-' || c == '.' || c == '/' || c == ':' || c == ';' || c == '<'
        || c == '=' || c == '>' || c == '?' || c == '@' || c == '^' || c == '|' || c == '~'
}

/// A character that may start a plain word: an ASCII letter or `_`.
pub open spec fn is_word_start(c: char) -> bool {
    'a' <= c <= 'z' || 'A' <= c <= 'Z' || c == '_'
}

/// A character that may continue a plain word: an ASCII letter, digit or `_`.
pub open spec fn is_word_char(c: char) -> bool {
    is_word_start(c) || '0' <= c <= '9'
}

/// `s` is a plain ASCII word: a letter or `_`, then letters, digits or `_`.
pub open spec fn is_ascii_word(s: Seq<char>) -> bool {
    &&& s.len() > 0
    &&& is_word_start(s[0])
    &&& forall|i: int| 1 <= i < s.len() ==> is_word_char(#[trigger] s[i])
}

/// The words that cannot follow `r#`: `_`, `self`, `Self`, `super`, `crate`.
pub open spec fn is_path_keyword(w: Seq<char>) -> bool {
    ||| w.len() == 1 && w[0] == '_'
    ||| w.len() == 4 && (w[0] == 's' || w[0] == 'S') && w[1] == 'e' && w[2] == 'l' && w[3] == 'f'
    ||| w.len() == 5 && w[0] == 's' && w[1] == 'u' && w[2] == 'p' && w[3] == 'e' && w[4] == 'r'
    ||| w.len() == 5 && w[0] == 'c' && w[1] == 'r' && w[2] == 'a' && w[3] == 't' && w[4] == 'e'
}

/// `s` is a plain identifier: an ASCII word (keywords included), or `r#`
/// followed by an ASCII word that is not one of `is_path_keyword`. Every
/// implementation of `proc_macro2` makes such a text an identifier, and prints
/// it back unchanged.
pub open spec fn is_plain_ident(s: Seq<char>) -> bool {
    ||| is_ascii_word(s)
    ||| s.len() > 2 && s[0] == 'r' && s[1] == '#' && is_ascii_word(s.skip(2)) && !is_path_keyword(
        s.skip(2),
    )
}

/// The decimal digit for `d`, for `d < 10`.
pub open spec fn digit_char(d: nat) -> char {
    (48 + d) as char
}

/// The decimal text of `n`, without leading zeros.
pub open spec fn decimal(n: nat) -> Seq<char>
    decreases n,
{
    if n < 10 {
        seq![digit_char(n)]
    } else {
        decimal(n / 10) + seq![digit_char(n % 10)]
    }
}

/// `TokenStream::new`: an empty stream.
#[verifier::external_body]
pub(crate) fn new_stream() -> (ts: TokenStream)
    ensures
        stream_trees(ts) == Seq::<Tree>::empty(),
{
    TokenStream::new()
}

/// `proc_macro2::Punct::new(ch, Spacing::Alone)` appended to `ts`. The
/// constructor panics on any other character than those of `is_punct_char`.
#[verifier::external_body]
pub(crate) fn push_punct(ts: &mut TokenStream, ch: char)
    requires
        is_punct_char(ch),
    ensures
        stream_trees(*final(ts)) == stream_trees(*old(ts)).push(alone(ch)),
{
    let p = proc_macro2::Punct::new(ch, proc_macro2::Spacing::Alone);
    ts.extend(std::iter::once(proc_macro2::TokenTree::Punct(p)));
}

/// `quote::__private::push_ident`, the call that `quote!` and
/// `format_ident!("{}", s)` expand to: a name with an `r#` prefix becomes a raw
/// identifier (`Ident::new_raw` of the rest), any other one an ordinary
/// identifier (`Ident::new`). For a plain identifier neither constructor
/// panics (an ASCII word is an identifier in the language; the raw
/// constructor refuses only `_`, `self`, `Self`, `super`, `crate`), and the
/// identifier prints as `s`: ASCII text is left as it is. The span,
/// `Span::call_site()`, is not modelled.
#[verifier::external_body]
pub(crate) fn push_ident(ts: &mut TokenStream, s: &str)
    requires
        is_plain_ident(s@),
    ensures
        stream_trees(*final(ts)) == stream_trees(*old(ts)).push(Tree::Ident(s@)),
{
    quote::__private::push_ident(ts, s);
}

/// `quote::ToTokens::to_tokens` of a stream: `other`'s trees appended to `ts`.
#[verifier::external_body]
pub(crate) fn append_stream(ts: &mut TokenStream, other: &TokenStream)
    ensures
        stream_trees(*final(ts)) == stream_trees(*old(ts)) + stream_trees(*other),
{
    quote::ToTokens::to_tokens(other, ts);
}

/// `proc_macro2::Literal::usize_suffixed(n)` appended to `ts`: a literal whose
/// text is `n` in decimal followed by `usize`.
#[verifier::external_body]
pub(crate) fn push_usize_literal(ts: &mut TokenStream, n: usize)
    ensures
        stream_trees(*final(ts)) == stream_trees(*old(ts)).push(
            Tree::Literal(decimal(n as nat) + seq!['u', 's', 'i', 'z', 'e']),
        ),
{
    quote::ToTokens::to_tokens(&proc_macro2::Literal::usize_suffixed(n), ts);
}

/// `s` is a run of decimal digits: at least one, and nothing else.
pub open spec fn is_decimal_digits(s: Seq<char>) -> bool {
    s.len() > 0 && forall|i: int| 0 <= i < s.len() ==> '0' <= #[trigger] s[i] <= '9'
}

/// `<TokenStream as FromStr>::from_str`: lexes `s`. `proc_macro2` chooses at
/// run time between the compiler's lexer (inside a procedural macro) and its
/// own, and the two do not agree on every text, so only what both do is
/// stated: a plain identifier lexes to exactly that identifier, and a run of
/// decimal digits to exactly that integer literal. Of other texts nothing is
/// stated; callers look at the stream that came back.
#[verifier::external_body]
pub(crate) fn parse_stream(s: &str) -> (r: Result<TokenStream, proc_macro2::LexError>)
    ensures
        match r {
            Ok(ts) => {
                &&& is_plain_ident(s@) ==> stream_trees(ts) == seq![Tree::Ident(s@)]
                &&& is_decimal_digits(s@) ==> stream_trees(ts) == seq![Tree::Literal(s@)]
            },
            Err(_) => !is_plain_ident(s@) && !is_decimal_digits(s@),
        },
{
    s.parse::<TokenStream>()
}

/// The trees of `ts`, each converted to its plain values (`TokenTree`'s
/// variants told apart, identifiers and literals by their `to_string`).
#[verifier::external_body]
pub(crate) fn stream_tokens(ts: &TokenStream) -> (v: Vec<Token>)
    ensures
        v@.map_values(|t: Token| t@) == stream_trees(*ts),
{
    let mut v = Vec::new();
    for tt in ts.clone() {
        v.push(match tt {
            TokenTree::Group(g) => Token::Group(match g.delimiter() {
                Delimiter::Parenthesis => Delim::Parenthesis, Delimiter::Brace => Delim::Brace,
                Delimiter::Bracket => Delim::Bracket, Delimiter::None => Delim::Invisible,
            }, g.stream()),
            TokenTree::Ident(i) => Token::Ident(i.to_string()),
            TokenTree::Punct(p) => Token::Punct(p.as_char(), p.spacing() == proc_macro2::Spacing::Joint),
            TokenTree::Literal(l) => Token::Literal(l.to_string()),
        });
    }
    v
}

/// The characters of `s`, in order.
fn chars_of(s: &str) -> (v: Vec<char>)
    ensures
        v@ == s@,
{
    broadcast use vstd::string::axiom_spec_iter;

    let mut v: Vec<char> = Vec::new();
    for c in iter: s.chars()
        invariant
            iter.seq() == s@,
            v@ == s@.take(iter.index() as int),
    {
        v.push(c);
        assert(s@.take(iter.index() + 1) =~= v@);
    }
    assert(v@ =~= s@);
    v
}

/// Whether `cs[start..]` is an ASCII word.
fn is_ascii_word_from(cs: &Vec<char>, start: usize) -> (b: bool)
    requires
        start <= cs@.len(),
    ensures
        b == is_ascii_word(cs@.skip(start as int)),
{
    let ghost w = cs@.skip(start as int);
    if start >= cs.len() {
        return false;
    }
    let c0 = cs[start];
    if !(('a' <= c0 && c0 <= 'z') || ('A' <= c0 && c0 <= 'Z') || c0 == '_') {
        return false;
    }
    let mut i = start + 1;
    while i < cs.len()
        invariant
            start < i <= cs@.len(),
            w == cs@.skip(start as int),
            forall|k: int| 1 <= k < i - start ==> is_word_char(#[trigger] w[k]),
        decreases cs@.len() - i,
    {
        let c = cs[i];
        assert(w[i - start] == c);
        if !(('a' <= c && c <= 'z') || ('A' <= c && c <= 'Z') || ('0' <= c && c <= '9') || c
            == '_') {
            return false;
        }
        i += 1;
    }
    true
}

/// Whether `cs[start..]` is one of `is_path_keyword`.
fn is_path_keyword_from(cs: &Vec<char>, start: usize) -> (b: bool)
    requires
        start <= cs@.len(),
    ensures
        b == is_path_keyword(cs@.skip(start as int)),
{
    let ghost w = cs@.skip(start as int);
    let n = cs.len() - start;
    if n == 1 {
        assert(w[0] == cs@[start as int]);
        cs[start] == '_'
    } else if n == 4 {
        assert(w[0] == cs@[start as int] && w[1] == cs@[start + 1] && w[2] == cs@[start + 2]
            && w[3] == cs@[start + 3]);
        (cs[start] == 's' || cs[start] == 'S') && cs[start + 1] == 'e' && cs[start + 2] == 'l'
            && cs[start + 3] == 'f'
    } else if n == 5 {
        assert(w[0] == cs@[start as int] && w[1] == cs@[start + 1] && w[2] == cs@[start + 2]
            && w[3] == cs@[start + 3] && w[4] == cs@[start + 4]);
        (cs[start] == 's' && cs[start + 1] == 'u' && cs[start + 2] == 'p' && cs[start + 3] == 'e'
            && cs[start + 4] == 'r') || (cs[start] == 'c' && cs[start + 1] == 'r' && cs[start + 2]
            == 'a' && cs[start + 3] == 't' && cs[start + 4] == 'e')
    } else {
        false
    }
}

/// Whether `name` is a plain identifier (`is_plain_ident`).
pub fn is_plain_ident_str(name: &str) -> (b: bool)
    ensures
        b == is_plain_ident(name@),
{
    let cs = chars_of(name);
    assert(cs@.skip(0) =~= cs@);
    if is_ascii_word_from(&cs, 0) {
        return true;
    }
    if cs.len() > 2 && cs[0] == 'r' && cs[1] == '#' {
        is_ascii_word_from(&cs, 2) && !is_path_keyword_from(&cs, 2)
    } else {
        false
    }
}

/// A stream holding the one identifier `name`, which must be a plain
/// identifier.
pub(crate) fn ident_stream(name: &str) -> (r: TokenStream)
    requires
        is_plain_ident(name@),
    ensures
        stream_trees(r) == seq![Tree::Ident(name@)],
{
    let mut ts = new_stream();
    push_ident(&mut ts, name);
    assert(stream_trees(ts) =~= seq![Tree::Ident(name@)]);
    ts
}

/// `Some(ts)` exactly when `ts` holds one identifier that prints as `name`.
pub fn single_ident_stream(ts: TokenStream, name: &str) -> (r: Option<TokenStream>)
    ensures
        r is Some <==> stream_trees(ts) == seq![Tree::Ident(name@)],
        r matches Some(t) ==> t == ts,
{
    let toks = stream_tokens(&ts);
    let ghost trees = toks@.map_values(|t: Token| t@);
    assert(trees.len() == toks@.len());
    if toks.len() != 1 {
        return None;
    }
    assert(trees[0] == toks@[0]@);
    let same = match &toks[0] {
        Token::Ident(s) => *s == name.to_owned(),
        _ => false,
    };
    if same {
        assert(stream_trees(ts) =~= seq![Tree::Ident(name@)]);
        Some(ts)
    } else {
        None
    }
}

/// A stream holding the one identifier `name`, for any name. A plain
/// identifier is built directly; any other name is lexed, and kept only where
/// the lexer gave back exactly one identifier printing as `name`. Otherwise
/// (not an identifier, or changed by the lexer, as the compiler's lexer may
/// normalise it) the result is `None`.
pub fn try_ident_stream(name: &str) -> (r: Option<TokenStream>)
    ensures
        is_plain_ident(name@) ==> r is Some,
        r matches Some(ts) ==> stream_trees(ts) == seq![Tree::Ident(name@)],
{
    if is_plain_ident_str(name) {
        return Some(ident_stream(name));
    }
    match parse_stream(name) {
        Ok(ts) => single_ident_stream(ts, name),
        Err(_) => None,
    }
}

} // verus!
