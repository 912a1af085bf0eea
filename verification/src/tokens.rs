//! Token streams: what they hold, and how one is put together from a template.

use crate::templates::is_template;
use crate::text::{joined, lemma_joined_step};
use proc_macro2::{Group, Spacing, TokenStream, TokenTree};
use vstd::prelude::*;

verus! {

/// What a group of tokens stands between.
#[derive(Clone, Copy, Debug, PartialEq, Eq, Structural)]
pub enum Delimiter {
    Parenthesis,
    Brace,
    Bracket,
    Invisible,
}

/// One token. A punctuation character says whether the next one belongs to the same operator;
/// a group holds the tokens between its delimiters.
pub enum Token {
    Ident(Seq<char>),
    Punct(char, bool),
    Literal(Seq<char>),
    Group(Delimiter, Seq<Token>),
}

/// A stream of tokens of proc-macro2.
#[verifier::external_type_specification]
#[verifier::external_body]
pub struct ExTokenStream(proc_macro2::TokenStream);

/// The tokens that a stream holds.
pub uninterp spec fn tokens_of(stream: proc_macro2::TokenStream) -> Seq<Token>;

/// The tokens of each stream of a list.
pub open spec fn all_tokens(streams: Seq<TokenStream>) -> Seq<Seq<Token>> {
    streams.map_values(|stream: TokenStream| tokens_of(stream))
}

/// One token as far as its kind shows: a group with its contents as a stream.
pub enum Shape {
    Ident(String),
    Punct(char, bool),
    Literal(String),
    Group(Delimiter, TokenStream),
}

impl View for Shape {
    type V = Token;

    open spec fn view(&self) -> Token {
        match self {
            Shape::Ident(text) => Token::Ident(text@),
            Shape::Punct(c, joint) => Token::Punct(*c, *joint),
            Shape::Literal(text) => Token::Literal(text@),
            Shape::Group(delimiter, stream) => Token::Group(*delimiter, tokens_of(*stream)),
        }
    }
}

/// A token of a stream: what it is, and a stream of it alone, which keeps its place in the
/// source.
pub struct Piece {
    pub shape: Shape,
    pub stream: TokenStream,
}

/// The tokens that pieces stand for.
pub open spec fn pieces_of(pieces: Seq<Piece>) -> Seq<Token> {
    pieces.map_values(|piece: Piece| piece.shape@)
}

/// `proc_macro2::TokenStream::into_iter` hands out the token trees of a stream in order. What
/// a tree is, its own accessors say; a tree makes a stream of one token.
#[verifier::external_body]
pub(crate) fn read_tokens(stream: &TokenStream) -> (pieces: Vec<Piece>)
    ensures
        pieces_of(pieces@) == tokens_of(*stream),
        forall|i: int| 0 <= i < pieces@.len() ==> tokens_of((#[trigger] pieces@[i]).stream) == seq![pieces@[i].shape@],
{
    let shape = |tree: &TokenTree| match tree {
        TokenTree::Ident(ident) => Shape::Ident(ident.to_string()),
        TokenTree::Punct(punct) => Shape::Punct(punct.as_char(), punct.spacing() == Spacing::Joint),
        TokenTree::Literal(literal) => Shape::Literal(literal.to_string()),
        TokenTree::Group(group) => Shape::Group(match group.delimiter() {
            proc_macro2::Delimiter::Parenthesis => Delimiter::Parenthesis,
            proc_macro2::Delimiter::Brace => Delimiter::Brace,
            proc_macro2::Delimiter::Bracket => Delimiter::Bracket,
            proc_macro2::Delimiter::None => Delimiter::Invisible,
        }, group.stream()),
    };
    stream.clone().into_iter().map(|tree| Piece { shape: shape(&tree), stream: tree.into() }).collect()
}

/// `proc_macro2::TokenStream::new` makes a stream of no tokens.
pub assume_specification[ TokenStream::new ]() -> (stream: TokenStream)
    ensures
        tokens_of(stream) == Seq::<Token>::empty(),
;

/// `proc_macro2::TokenStream::is_empty` tells whether there are no tokens.
pub assume_specification[ TokenStream::is_empty ](stream: &TokenStream) -> (empty: bool)
    ensures
        empty == (tokens_of(*stream).len() == 0),
;

/// `proc_macro2::TokenStream::clone` gives a stream of the same tokens.
pub assume_specification[ <TokenStream as Clone>::clone ](stream: &TokenStream) -> (copy: TokenStream)
    ensures
        tokens_of(copy) == tokens_of(*stream),
;

/// `proc_macro2::TokenStream::extend` puts the tokens of the other stream at the end.
#[verifier::external_body]
pub(crate) fn append(stream: &mut TokenStream, more: TokenStream)
    ensures
        tokens_of(*final(stream)) == tokens_of(*old(stream)) + tokens_of(more),
{
    stream.extend(more)
}

/// `proc_macro2::Group::new` puts tokens between delimiters; the group makes a stream of one
/// token. `proc_macro2::Group::set_span` gives it the place of `at` in the source, and is nothing
/// to the tokens.
#[verifier::external_body]
pub(crate) fn grouped(delimiter: Delimiter, contents: TokenStream, at: &TokenStream) -> (stream:
    TokenStream)
    ensures
        tokens_of(stream) == seq![Token::Group(delimiter, tokens_of(contents))],
{
    let delimiter = match delimiter {
        Delimiter::Parenthesis => proc_macro2::Delimiter::Parenthesis,
        Delimiter::Brace => proc_macro2::Delimiter::Brace,
        Delimiter::Bracket => proc_macro2::Delimiter::Bracket,
        Delimiter::Invisible => proc_macro2::Delimiter::None,
    };
    let mut group = Group::new(delimiter, contents);
    group.set_span(syn::spanned::Spanned::span(at));
    TokenTree::Group(group).into()
}

/// The tokens of a template.
pub uninterp spec fn lexed(template: Seq<char>) -> Seq<Token>;

/// `proc_macro2::TokenStream::from_str` splits a template into tokens. Templates are made of tokens,
/// so it does not fail on them, and it reads them in the same way within the compiler and without.
#[verifier::external_body]
pub(crate) fn lex(template: &str) -> (stream: TokenStream)
    requires
        is_template(template@),
    ensures
        tokens_of(stream) == lexed(template@),
{
    template.parse().unwrap()
}

/// The token of a comma.
pub open spec fn comma_token() -> Token {
    Token::Punct(',', false)
}

/// `proc_macro2::Punct::new` of a comma that stands alone makes a stream of one token.
#[verifier::external_body]
fn comma() -> (stream: TokenStream)
    ensures
        tokens_of(stream) == seq![comma_token()],
{
    TokenTree::Punct(proc_macro2::Punct::new(',', Spacing::Alone)).into()
}

/// Puts commas between the streams of a list.
pub fn comma_separated(list: &Vec<TokenStream>) -> (stream: TokenStream)
    ensures
        tokens_of(stream) == joined(all_tokens(list@), seq![comma_token()]),
{
    let mut out = TokenStream::new();
    let n: usize = list.len();
    let ghost parts = all_tokens(list@);
    let ghost sep = seq![comma_token()];
    for i in 0..n
        invariant
            n == list@.len(),
            parts == all_tokens(list@),
            sep == seq![comma_token()],
            tokens_of(out) == joined(parts.take(i as int), sep),
    {
        let ghost before = tokens_of(out);
        proof {
            lemma_joined_step(parts, sep, i as int);
        }
        if i > 0 {
            append(&mut out, comma());
        }
        append(&mut out, list[i].clone());
        if i > 0 {
            assert(tokens_of(out) =~= before + sep + parts[i as int]);
        } else {
            assert(tokens_of(out) =~= parts[0]);
        }
    }
    assert(parts.take(n as int) =~= parts);
    out
}

/// Letters, digits and underscores of ASCII, and no digit first.
pub open spec fn is_ascii_name(text: Seq<char>) -> bool {
    &&& text.len() > 0
    &&& !('0' <= text[0] <= '9')
    &&& forall|i: int|
        0 <= i < text.len() ==> 'a' <= #[trigger] text[i] <= 'z' || 'A' <= text[i] <= 'Z' || '0'
            <= text[i] <= '9' || text[i] == '_'
}

/// `proc_macro2::Ident::new` makes an identifier of a name; it makes a stream of one token.
#[verifier::external_body]
pub(crate) fn identifier(text: &str) -> (stream: TokenStream)
    requires
        is_ascii_name(text@),
    ensures
        tokens_of(stream) == seq![Token::Ident(text@)],
{
    TokenTree::Ident(proc_macro2::Ident::new(text, proc_macro2::Span::call_site())).into()
}

/// What `syn::LitStr::value` reads in a literal that is written so: none where it is not that of
/// a string.
pub uninterp spec fn string_value(literal: Seq<char>) -> Option<Seq<char>>;

/// Whether tokens are one string literal that stands for the text, however it is written.
pub open spec fn is_string(tokens: Seq<Token>, text: Seq<char>) -> bool {
    &&& tokens.len() == 1
    &&& tokens[0] is Literal
    &&& string_value(tokens[0]->Literal_0) == Some(text)
}

/// `syn::LitStr::new` makes a literal in which `syn::LitStr::value` reads the text; it makes a
/// stream of one token, in the place of `at` in the source. Nothing is claimed of how the literal
/// is written.
#[verifier::external_body]
pub(crate) fn string_literal(text: &str, at: &TokenStream) -> (stream: TokenStream)
    ensures
        tokens_of(stream).len() == 1,
        tokens_of(stream)[0] is Literal,
        string_value(tokens_of(stream)[0]->Literal_0) == Some(text@),
{
    quote::ToTokens::to_token_stream(&syn::LitStr::new(text, syn::spanned::Spanned::span(at)))
}

/// What goes in the place of `#name` in a template.
pub struct Slot {
    pub name: &'static str,
    pub stream: TokenStream,
}

/// The names of slots with their tokens.
pub open spec fn slots_of(slots: Seq<Slot>) -> Seq<(Seq<char>, Seq<Token>)> {
    slots.map_values(|slot: Slot| (slot.name@, tokens_of(slot.stream)))
}

/// The tokens of the first slot of that name.
pub open spec fn slot_tokens(slots: Seq<(Seq<char>, Seq<Token>)>, name: Seq<char>) -> Option<
    Seq<Token>,
>
    decreases slots.len(),
{
    if slots.len() == 0 {
        None
    } else if slots[0].0 == name {
        Some(slots[0].1)
    } else {
        slot_tokens(slots.drop_first(), name)
    }
}

/// What stands for the slot with which a template begins, where it begins with one.
pub open spec fn leading_slot(
    template: Seq<Token>,
    slots: Seq<(Seq<char>, Seq<Token>)>,
) -> Option<Seq<Token>> {
    if template.len() < 2 {
        None
    } else {
        match (template[0], template[1]) {
            (Token::Punct(c, _), Token::Ident(name)) => if c == '#' {
                slot_tokens(slots, name)
            } else {
                None
            },
            _ => None,
        }
    }
}

/// A template with its slots filled, within groups too: `#name` gives way to the tokens of the
/// slot, and all else stays.
pub open spec fn filled(
    template: Seq<Token>,
    slots: Seq<(Seq<char>, Seq<Token>)>,
) -> Seq<Token>
    decreases template,
{
    if template.len() == 0 {
        Seq::empty()
    } else {
        match leading_slot(template, slots) {
            Some(tokens) => tokens + filled(
                template.subrange(2, template.len() as int),
                slots,
            ),
            None => seq![filled_token(template[0], slots)] + filled(
                template.subrange(1, template.len() as int),
                slots,
            ),
        }
    }
}

/// A token of a template with the slots within it filled.
pub open spec fn filled_token(token: Token, slots: Seq<(Seq<char>, Seq<Token>)>) -> Token
    decreases token,
{
    match token {
        Token::Group(delimiter, contents) => Token::Group(delimiter, filled(contents, slots)),
        _ => token,
    }
}

/// The stream of the first slot of that name.
fn find_slot(slots: &Vec<Slot>, name: &str) -> (found: Option<TokenStream>)
    ensures
        found is Some <==> slot_tokens(slots_of(slots@), name@) is Some,
        found matches Some(stream) ==> slot_tokens(slots_of(slots@), name@) == Some(
            tokens_of(stream),
        ),
{
    let n: usize = slots.len();
    let ghost all = slots_of(slots@);
    assert(all.subrange(0, n as int) =~= all);
    for i in 0..n
        invariant
            n == slots@.len() == all.len(),
            all == slots_of(slots@),
            slot_tokens(all, name@) == slot_tokens(all.subrange(i as int, n as int), name@),
    {
        let ghost rest = all.subrange(i as int, n as int);
        assert(rest[0] == (slots@[i as int].name@, tokens_of(slots@[i as int].stream)));
        if *slots[i].name == *name {
            return Some(slots[i].stream.clone());
        }
        assert(rest.drop_first() =~= all.subrange(i + 1, n as int));
    }
    None
}

/// Fills the slots of a template.
pub fn fill(template: &TokenStream, slots: &Vec<Slot>) -> (stream: TokenStream)
    ensures
        tokens_of(stream) == filled(tokens_of(*template), slots_of(slots@)),
    decreases tokens_of(*template),
{
    let pieces = read_tokens(template);
    let ghost all = tokens_of(*template);
    let ghost values = slots_of(slots@);
    let n: usize = pieces.len();
    let mut out = TokenStream::new();
    let mut i: usize = 0;
    assert(all.subrange(0, n as int) =~= all);
    assert(tokens_of(out) + filled(all, values) =~= filled(all, values));
    while i < n
        invariant
            i <= n,
            n == pieces@.len() == all.len(),
            all == tokens_of(*template),
            all == pieces_of(pieces@),
            values == slots_of(slots@),
            forall|k: int|
                0 <= k < pieces@.len() ==> tokens_of((#[trigger] pieces@[k]).stream)
                    == seq![pieces@[k].shape@],
            tokens_of(out) + filled(all.subrange(i as int, n as int), values) == filled(
                all,
                values,
            ),
        decreases n - i,
    {
        let ghost rest = all.subrange(i as int, n as int);
        let ghost before = tokens_of(out);
        assert(rest[0] == all[i as int] && all[i as int] == pieces@[i as int].shape@);
        let mut slot: Option<TokenStream> = None;
        if i + 1 < n {
            assert(rest[1] == all[i + 1] && all[i + 1] == pieces@[i + 1].shape@);
            if let Shape::Punct(c, _) = &pieces[i].shape {
                if *c == '#' {
                    if let Shape::Ident(name) = &pieces[i + 1].shape {
                        slot = find_slot(slots, name.as_str());
                    }
                }
            }
        }
        match slot {
            Some(stream) => {
                assert(leading_slot(rest, values) == Some(tokens_of(stream)));
                assert(rest.subrange(2, rest.len() as int) =~= all.subrange(i + 2, n as int));
                append(&mut out, stream);
                i = i + 2;
                assert(tokens_of(out) + filled(all.subrange(i as int, n as int), values)
                    =~= before + filled(rest, values));
            },
            None => {
                assert(leading_slot(rest, values) is None);
                assert(rest.subrange(1, rest.len() as int) =~= all.subrange(i + 1, n as int));
                match &pieces[i].shape {
                    Shape::Group(delimiter, contents) => {
                        assert(decreases_to!(all => all[i as int]));
                        assert(all[i as int] == Token::Group(*delimiter, tokens_of(*contents)));
                        assert(decreases_to!(all[i as int] => all[i as int]->Group_1));
                        let inner = fill(contents, slots);
                        append(&mut out, grouped(*delimiter, inner, &pieces[i].stream));
                        reveal_with_fuel(filled_token, 2);
                    },
                    _ => {
                        append(&mut out, pieces[i].stream.clone());
                    },
                }
                assert(tokens_of(out) =~= before + seq![filled_token(rest[0], values)]);
                i = i + 1;
                assert(tokens_of(out) + filled(all.subrange(i as int, n as int), values)
                    =~= before + filled(rest, values));
            },
        }
    }
    assert(filled(all.subrange(n as int, n as int), values) =~= Seq::empty());
    assert(tokens_of(out) =~= filled(all, values));
    out
}

} // verus!
