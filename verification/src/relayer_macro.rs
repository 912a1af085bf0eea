//! `#[trusted_relayer]`: the code that it puts into a contract.

use crate::macro_args::{list_named, params_of, parse_params, read_args};
use crate::macro_args::{read_params, ArgsView, MacroParam, TrustedRelayerImplArgs};
use crate::syntax::{comes_to, error_report, parse_function, parse_impl_block};
use crate::syntax::{parse_method, syn_function, syn_impl_block, syn_method};
use crate::syntax::{ImplBlock, ImplView, Method, MethodView};
use crate::templates::{BYPASS_METHOD, GUARD, PUBLIC_METHODS, ROLE_GUARD, ROLE_NAME, TRAIT_IMPL};
use crate::text::joined;
use crate::tokens::{all_tokens, append, comma_separated, comma_token, fill, filled, grouped, lex};
use crate::tokens::{lexed, pieces_of, read_tokens, slots_of, tokens_of, Delimiter, Shape};
use crate::tokens::{Slot, Token};
use proc_macro2::TokenStream;
use vstd::prelude::*;

verus! {

/// The names of roles, with commas between them.
pub open spec fn role_names(roles: Seq<Seq<Token>>) -> Seq<Token> {
    joined(
        roles.map_values(|role: Seq<Token>| filled(lexed(ROLE_NAME@), seq![("role"@, role)])),
        seq![comma_token()],
    )
}

/// Writes the names of roles, with commas between them.
fn name_roles(roles: &Vec<TokenStream>) -> (stream: TokenStream)
    ensures
        tokens_of(stream) == role_names(all_tokens(roles@)),
{
    let mut names: Vec<TokenStream> = Vec::new();
    let n: usize = roles.len();
    let ghost expected = all_tokens(roles@).map_values(
        |role: Seq<Token>| filled(lexed(ROLE_NAME@), seq![("role"@, role)]),
    );
    for i in 0..n
        invariant
            n == roles@.len(),
            expected == all_tokens(roles@).map_values(
                |role: Seq<Token>| filled(lexed(ROLE_NAME@), seq![("role"@, role)]),
            ),
            all_tokens(names@) =~= expected.take(i as int),
    {
        let ghost before = names@;
        let mut slots: Vec<Slot> = Vec::new();
        slots.push(Slot { name: "role", stream: roles[i].clone() });
        assert(slots_of(slots@) =~= seq![("role"@, tokens_of(roles@[i as int]))]);
        names.push(fill(&lex(ROLE_NAME), &slots));
        assert(all_tokens(names@) =~= all_tokens(before).push(expected[i as int]));
    }
    assert(expected.take(n as int) =~= expected);
    comma_separated(&names)
}

/// The override that lets the holders of bypass roles through.
pub open spec fn bypass_is_trusted(roles: Seq<Seq<Token>>) -> Seq<Token> {
    filled(lexed(BYPASS_METHOD@), seq![("roles"@, role_names(roles))])
}

/// Writes the override that lets the holders of bypass roles through.
pub fn gen_bypass_is_trusted(bypass_roles: &Vec<TokenStream>) -> (stream: TokenStream)
    ensures
        tokens_of(stream) == bypass_is_trusted(all_tokens(bypass_roles@)),
{
    let mut slots: Vec<Slot> = Vec::new();
    slots.push(Slot { name: "roles", stream: name_roles(bypass_roles) });
    assert(slots_of(slots@) =~= seq![("roles"@, role_names(all_tokens(bypass_roles@)))]);
    fill(&lex(BYPASS_METHOD), &slots)
}

/// The override that goes with bypass roles, where there are such.
pub open spec fn override_method(bypass_roles: Option<Seq<Seq<Token>>>) -> Seq<Token> {
    match bypass_roles {
        Some(roles) => bypass_is_trusted(roles),
        None => Seq::empty(),
    }
}

/// The trait impl of a contract: none where the contract has its own, and one with an
/// override where there are bypass roles.
pub open spec fn trait_impl(block: ImplView, args: ArgsView) -> Seq<Token> {
    if args.custom_is_trusted_relayer {
        Seq::empty()
    } else {
        filled(
            lexed(TRAIT_IMPL@),
            seq![
                ("impl_generics"@, block.impl_generics),
                ("self_ty"@, block.self_ty),
                ("where_clause"@, block.where_clause),
                ("override_method"@, override_method(args.bypass_roles)),
            ],
        )
    }
}

/// Writes the trait impl of a contract.
pub fn gen_trait_impl(block: &ImplBlock, args: &TrustedRelayerImplArgs) -> (stream: TokenStream)
    ensures
        tokens_of(stream) == trait_impl(block@, args@),
{
    if args.custom_is_trusted_relayer {
        return TokenStream::new();
    }
    let overriding = match &args.bypass_roles {
        Some(roles) => gen_bypass_is_trusted(roles),
        None => TokenStream::new(),
    };
    assert(tokens_of(overriding) == override_method(args@.bypass_roles));
    let mut slots: Vec<Slot> = Vec::new();
    slots.push(Slot { name: "impl_generics", stream: block.impl_generics.clone() });
    slots.push(Slot { name: "self_ty", stream: block.self_ty.clone() });
    slots.push(Slot { name: "where_clause", stream: block.where_clause.clone() });
    slots.push(Slot { name: "override_method", stream: overriding });
    assert(slots_of(slots@) =~= seq![
        ("impl_generics"@, block@.impl_generics),
        ("self_ty"@, block@.self_ty),
        ("where_clause"@, block@.where_clause),
        ("override_method"@, override_method(args@.bypass_roles)),
    ]);
    fill(&lex(TRAIT_IMPL), &slots)
}

/// The public methods of a contract: managers may reject relayers, and the configuration is
/// for the roles that it has been given to.
pub open spec fn public_methods(block: ImplView, args: ArgsView) -> Seq<Token> {
    filled(
        lexed(PUBLIC_METHODS@),
        seq![
            ("impl_generics"@, block.impl_generics),
            ("self_ty"@, block.self_ty),
            ("where_clause"@, block.where_clause),
            ("manager_roles"@, joined(args.manager_roles, seq![comma_token()])),
            ("config_roles"@, joined(args.config_roles, seq![comma_token()])),
        ],
    )
}

/// Writes the public methods of a contract.
pub fn gen_public_methods(block: &ImplBlock, args: &TrustedRelayerImplArgs) -> (stream:
    TokenStream)
    ensures
        tokens_of(stream) == public_methods(block@, args@),
{
    let mut slots: Vec<Slot> = Vec::new();
    slots.push(Slot { name: "impl_generics", stream: block.impl_generics.clone() });
    slots.push(Slot { name: "self_ty", stream: block.self_ty.clone() });
    slots.push(Slot { name: "where_clause", stream: block.where_clause.clone() });
    slots.push(Slot { name: "manager_roles", stream: comma_separated(&args.manager_roles) });
    slots.push(Slot { name: "config_roles", stream: comma_separated(&args.config_roles) });
    assert(slots_of(slots@) =~= seq![
        ("impl_generics"@, block@.impl_generics),
        ("self_ty"@, block@.self_ty),
        ("where_clause"@, block@.where_clause),
        ("manager_roles"@, joined(args@.manager_roles, seq![comma_token()])),
        ("config_roles"@, joined(args@.config_roles, seq![comma_token()])),
    ]);
    fill(&lex(PUBLIC_METHODS), &slots)
}

// Attributes: `#[...]` in front of an item, `#![...]` inside its braces.

/// Whether an attribute is one that stands inside the braces.
pub open spec fn is_inner(attr: Seq<Token>) -> bool {
    &&& attr.len() >= 2
    &&& attr[1] matches Token::Punct(c, _)
    &&& c == '!'
}

/// What stands between the brackets of an attribute.
pub open spec fn attr_contents(attr: Seq<Token>) -> Seq<Token> {
    if attr.len() == 0 {
        Seq::empty()
    } else {
        match attr.last() {
            Token::Group(Delimiter::Bracket, contents) => contents,
            _ => Seq::empty(),
        }
    }
}

/// Whether the path of an attribute is `trusted_relayer`: nothing follows the name but the
/// arguments or a value.
pub open spec fn is_marker(attr: Seq<Token>) -> bool {
    let contents = attr_contents(attr);
    &&& contents.len() > 0
    &&& contents[0] == Token::Ident("trusted_relayer"@)
    &&& contents.len() > 1 ==> match contents[1] {
        Token::Group(_, _) => true,
        Token::Punct(c, _) => c == '=',
        _ => false,
    }
}

/// The arguments of an attribute in parentheses.
pub open spec fn attr_args(attr: Seq<Token>) -> Seq<Token> {
    let contents = attr_contents(attr);
    if contents.len() < 2 {
        Seq::empty()
    } else {
        match contents[1] {
            Token::Group(Delimiter::Parenthesis, args) => args,
            _ => Seq::empty(),
        }
    }
}

/// What stands between the brackets of an attribute.
fn read_contents(attr: &TokenStream) -> (contents: TokenStream)
    ensures
        tokens_of(contents) == attr_contents(tokens_of(*attr)),
{
    let pieces = read_tokens(attr);
    let n: usize = pieces.len();
    assert(tokens_of(*attr).len() == n);
    if n > 0 {
        assert(tokens_of(*attr).last() == pieces@[n - 1].shape@);
        if let Shape::Group(Delimiter::Bracket, contents) = &pieces[n - 1].shape {
            return contents.clone();
        }
    }
    TokenStream::new()
}

/// Whether an attribute is one that stands inside the braces.
fn is_inner_attr(attr: &TokenStream) -> (inner: bool)
    ensures
        inner == is_inner(tokens_of(*attr)),
{
    let pieces = read_tokens(attr);
    assert(tokens_of(*attr).len() == pieces@.len());
    if pieces.len() < 2 {
        return false;
    }
    assert(tokens_of(*attr)[1] == pieces@[1].shape@);
    match &pieces[1].shape {
        Shape::Punct(c, _) => *c == '!',
        _ => false,
    }
}

/// Whether the path of an attribute is `trusted_relayer`.
pub fn is_trusted_relayer_attr(attr: &TokenStream) -> (marker: bool)
    ensures
        marker == is_marker(tokens_of(*attr)),
{
    let contents = read_contents(attr);
    let pieces = read_tokens(&contents);
    assert(tokens_of(contents).len() == pieces@.len());
    if pieces.len() == 0 {
        return false;
    }
    assert(tokens_of(contents)[0] == pieces@[0].shape@);
    let named = match &pieces[0].shape {
        Shape::Ident(name) => *name.as_str() == *"trusted_relayer",
        _ => false,
    };
    if !named || pieces.len() == 1 {
        return named;
    }
    assert(tokens_of(contents)[1] == pieces@[1].shape@);
    match &pieces[1].shape {
        Shape::Group(_, _) => true,
        Shape::Punct(c, _) => *c == '=',
        _ => false,
    }
}

/// The arguments of an attribute in parentheses.
fn read_attr_args(attr: &TokenStream) -> (args: TokenStream)
    ensures
        tokens_of(args) == attr_args(tokens_of(*attr)),
{
    let contents = read_contents(attr);
    let pieces = read_tokens(&contents);
    assert(tokens_of(contents).len() == pieces@.len());
    if pieces.len() >= 2 {
        assert(tokens_of(contents)[1] == pieces@[1].shape@);
        if let Shape::Group(Delimiter::Parenthesis, args) = &pieces[1].shape {
            return args.clone();
        }
    }
    TokenStream::new()
}

/// Whether one of the attributes is `trusted_relayer`.
pub open spec fn is_marked(attrs: Seq<Seq<Token>>) -> bool {
    exists|i: int| 0 <= i < attrs.len() && is_marker(#[trigger] attrs[i])
}

/// The attributes that stand inside the braces, or those that do not, without the markers
/// where these are left out.
pub open spec fn kept_attrs(attrs: Seq<Seq<Token>>, inner: bool, with_markers: bool) -> Seq<Token>
    decreases attrs.len(),
{
    if attrs.len() == 0 {
        Seq::empty()
    } else {
        let before = kept_attrs(attrs.drop_last(), inner, with_markers);
        if is_inner(attrs.last()) == inner && (with_markers || !is_marker(attrs.last())) {
            before + attrs.last()
        } else {
            before
        }
    }
}

/// Writes the attributes that stand inside the braces, or those that do not.
fn keep_attrs(attrs: &Vec<TokenStream>, inner: bool, with_markers: bool) -> (stream: TokenStream)
    ensures
        tokens_of(stream) == kept_attrs(all_tokens(attrs@), inner, with_markers),
{
    let mut out = TokenStream::new();
    let n: usize = attrs.len();
    let ghost all = all_tokens(attrs@);
    for i in 0..n
        invariant
            n == attrs@.len(),
            all == all_tokens(attrs@),
            tokens_of(out) == kept_attrs(all.take(i as int), inner, with_markers),
    {
        assert(all.take(i + 1).drop_last() =~= all.take(i as int));
        assert(all.take(i + 1).last() == tokens_of(attrs@[i as int]));
        if is_inner_attr(&attrs[i]) == inner && (with_markers || !is_trusted_relayer_attr(
            &attrs[i],
        )) {
            append(&mut out, attrs[i].clone());
        }
    }
    assert(all.take(n as int) =~= all);
    out
}

/// The bypass roles that a list of arguments names, where it can be read.
pub open spec fn bypass_in(args: Seq<Token>) -> Option<Seq<Seq<Token>>> {
    match read_params(args) {
        Ok(read) => if read.leftover is None {
            list_named(read.params, "bypass_roles"@)
        } else {
            None
        },
        Err(_) => None,
    }
}

/// The bypass roles that a method has of its own: those of the first marker that names some.
/// They take the place of those of the contract.
pub open spec fn method_bypass(attrs: Seq<Seq<Token>>) -> Option<Seq<Seq<Token>>>
    decreases attrs.len(),
{
    if attrs.len() == 0 {
        None
    } else if is_marker(attrs[0]) && bypass_in(attr_args(attrs[0])) is Some {
        bypass_in(attr_args(attrs[0]))
    } else {
        method_bypass(attrs.drop_first())
    }
}

/// The roles of the last list of that name.
fn find_list(params: &Vec<MacroParam>, name: &str) -> (roles: Option<Vec<TokenStream>>)
    ensures
        roles is Some <==> list_named(params_of(params@), name@) is Some,
        roles matches Some(list) ==> list_named(params_of(params@), name@) == Some(
            all_tokens(list@),
        ),
{
    let ghost all = params_of(params@);
    let mut i: usize = params.len();
    assert(all.take(i as int) =~= all);
    while i > 0
        invariant
            i <= params@.len(),
            all == params_of(params@),
            list_named(all, name@) == list_named(all.take(i as int), name@),
        decreases i,
    {
        i = i - 1;
        assert(all.take(i + 1).drop_last() =~= all.take(i as int));
        assert(all.take(i + 1).last() == params@[i as int]@);
        if let MacroParam::RoleList { name: list_name, roles } = &params[i] {
            if *list_name.text.as_str() == *name {
                return Some(crate::macro_args::copied(roles));
            }
        }
    }
    None
}

/// The bypass roles that a method has of its own.
fn read_method_bypass(attrs: &Vec<TokenStream>) -> (roles: Option<Vec<TokenStream>>)
    ensures
        roles is Some <==> method_bypass(all_tokens(attrs@)) is Some,
        roles matches Some(list) ==> method_bypass(all_tokens(attrs@)) == Some(all_tokens(list@)),
{
    let n: usize = attrs.len();
    let ghost all = all_tokens(attrs@);
    assert(all.skip(0) =~= all);
    for i in 0..n
        invariant
            n == attrs@.len(),
            all == all_tokens(attrs@),
            method_bypass(all) == method_bypass(all.skip(i as int)),
    {
        let ghost rest = all.skip(i as int);
        assert(rest[0] == tokens_of(attrs@[i as int]));
        assert(rest.drop_first() =~= all.skip(i + 1));
        if is_trusted_relayer_attr(&attrs[i]) {
            let args = read_attr_args(&attrs[i]);
            if let Ok(read) = parse_params(&args) {
                if read.leftover.is_none() {
                    let found = find_list(&read.params, "bypass_roles");
                    if found.is_some() {
                        return found;
                    }
                }
            }
        }
    }
    assert(all.skip(n as int) =~= Seq::empty());
    None
}

/// The guard of a marked method: by the roles of its own where it has some, and by whom the
/// contract trusts where it has not.
pub open spec fn guard_tokens(attrs: Seq<Seq<Token>>) -> Seq<Token> {
    match method_bypass(attrs) {
        Some(roles) => filled(lexed(ROLE_GUARD@), seq![("roles"@, role_names(roles))]),
        None => lexed(GUARD@),
    }
}

/// Writes the guard of a marked method.
fn build_guard(attrs: &Vec<TokenStream>) -> (guard: TokenStream)
    ensures
        tokens_of(guard) == guard_tokens(all_tokens(attrs@)),
{
    match read_method_bypass(attrs) {
        Some(roles) => {
            let mut slots: Vec<Slot> = Vec::new();
            slots.push(Slot { name: "roles", stream: name_roles(&roles) });
            assert(slots_of(slots@) =~= seq![("roles"@, role_names(all_tokens(roles@)))]);
            fill(&lex(ROLE_GUARD), &slots)
        },
        None => lex(GUARD),
    }
}

/// A method with the given guard as its first statement, and without its markers where these
/// are left out.
pub open spec fn guarded_method(
    method: MethodView,
    guard: Seq<Token>,
    with_markers: bool,
) -> Seq<Token> {
    kept_attrs(method.attrs, false, with_markers) + method.head + seq![
        Token::Group(
            Delimiter::Brace,
            kept_attrs(method.attrs, true, with_markers) + guard + method.body,
        ),
    ]
}

/// Puts a guard in front of the body of a method.
pub fn guard_method(method: &Method, guard: TokenStream, with_markers: bool) -> (stream:
    TokenStream)
    ensures
        tokens_of(stream) == guarded_method(method@, tokens_of(guard), with_markers),
{
    let mut body = keep_attrs(&method.attrs, true, with_markers);
    append(&mut body, guard);
    append(&mut body, method.body.clone());
    let mut out = keep_attrs(&method.attrs, false, with_markers);
    append(&mut out, method.head.clone());
    append(&mut out, grouped(Delimiter::Brace, body, &method.body));
    out
}

/// An item of an impl block after guarding: a marked method gets its guard and loses its
/// markers, and all else stays as it is.
pub open spec fn guarded_item(item: Seq<Token>) -> Seq<Token> {
    match syn_method(item) {
        Some(method) => if is_marked(method.attrs) {
            guarded_method(method, guard_tokens(method.attrs), false)
        } else {
            item
        },
        None => item,
    }
}

/// Whether one of the attributes is `trusted_relayer`.
fn has_marker(attrs: &Vec<TokenStream>) -> (marked: bool)
    ensures
        marked == is_marked(all_tokens(attrs@)),
{
    let n: usize = attrs.len();
    for i in 0..n
        invariant
            n == attrs@.len(),
            forall|k: int| 0 <= k < i ==> !is_marker(#[trigger] all_tokens(attrs@)[k]),
    {
        assert(all_tokens(attrs@)[i as int] == tokens_of(attrs@[i as int]));
        if is_trusted_relayer_attr(&attrs[i]) {
            return true;
        }
    }
    false
}

/// An impl block with its marked methods guarded.
pub open spec fn guarded_block(block: ImplView) -> ImplView {
    ImplView { items: block.items.map_values(|item: Seq<Token>| guarded_item(item)), ..block }
}

/// Guards the marked methods of an impl block, and takes the markers off.
pub fn inject_guards(block: &mut ImplBlock)
    ensures
        final(block)@ == guarded_block(old(block)@),
{
    let mut items: Vec<TokenStream> = Vec::new();
    let n: usize = block.items.len();
    let ghost before = block@;
    let ghost expected = before.items.map_values(|item: Seq<Token>| guarded_item(item));
    for i in 0..n
        invariant
            n == block.items@.len(),
            before == block@,
            expected == before.items.map_values(|item: Seq<Token>| guarded_item(item)),
            all_tokens(items@) =~= expected.take(i as int),
    {
        let ghost done = items@;
        let ghost item = tokens_of(block.items@[i as int]);
        assert(before.items[i as int] == item);
        let mut out: Option<TokenStream> = None;
        if let Some(method) = parse_method(&block.items[i]) {
            if has_marker(&method.attrs) {
                out = Some(guard_method(&method, build_guard(&method.attrs), false));
            }
        }
        match out {
            Some(stream) => {
                items.push(stream);
            },
            None => {
                items.push(block.items[i].clone());
            },
        }
        assert(all_tokens(items@) =~= all_tokens(done).push(expected[i as int]));
    }
    assert(expected.take(n as int) =~= expected);
    block.items = items;
}

/// A block with the given tokens at the end of the braces in which it ends.
pub open spec fn closed_with(frame: Seq<Token>, inside: Seq<Token>) -> Seq<Token> {
    if frame.len() == 0 {
        frame
    } else {
        match frame.last() {
            Token::Group(delimiter, contents) => frame.drop_last().push(
                Token::Group(delimiter, contents + inside),
            ),
            _ => frame,
        }
    }
}

/// An impl block as source: its items stand in its braces, behind the attributes that may stand
/// there.
pub open spec fn block_tokens(block: ImplView) -> Seq<Token> {
    closed_with(block.frame, block.items.flatten())
}

/// Writes tokens at the end of the braces in which a block ends.
fn close_with(frame: &TokenStream, inside: TokenStream) -> (stream: TokenStream)
    ensures
        tokens_of(stream) == closed_with(tokens_of(*frame), tokens_of(inside)),
{
    let pieces = read_tokens(frame);
    let n: usize = pieces.len();
    let ghost all = tokens_of(*frame);
    assert(all == pieces_of(pieces@) && all.len() == n);
    if n == 0 {
        return frame.clone();
    }
    assert(all.last() == pieces@[n - 1].shape@);
    let (delimiter, contents) = match &pieces[n - 1].shape {
        Shape::Group(delimiter, contents) => (*delimiter, contents.clone()),
        _ => return frame.clone(),
    };
    let mut out = TokenStream::new();
    let end: usize = n - 1;
    for i in 0..end
        invariant
            end < pieces@.len() == all.len(),
            all == pieces_of(pieces@),
            forall|k: int|
                0 <= k < pieces@.len() ==> tokens_of((#[trigger] pieces@[k]).stream)
                    == seq![pieces@[k].shape@],
            tokens_of(out) =~= all.take(i as int),
    {
        append(&mut out, pieces[i].stream.clone());
    }
    let mut last = contents;
    append(&mut last, inside);
    append(&mut out, grouped(delimiter, last, &pieces[end].stream));
    assert(tokens_of(out) =~= closed_with(all, tokens_of(inside)));
    out
}

/// Writes an impl block.
fn print_block(block: &ImplBlock) -> (stream: TokenStream)
    ensures
        tokens_of(stream) == block_tokens(block@),
{
    let mut inside = TokenStream::new();
    let n: usize = block.items.len();
    let ghost parts = block@.items;
    assert(parts.take(0).flatten() =~= Seq::<Token>::empty());
    for i in 0..n
        invariant
            n == block.items@.len(),
            parts == block@.items,
            tokens_of(inside) =~= parts.take(i as int).flatten(),
    {
        append(&mut inside, block.items[i].clone());
        assert(parts.take(i + 1) =~= parts.take(i as int).push(parts[i as int]));
        proof {
            parts.take(i as int).lemma_flatten_push(parts[i as int]);
        }
    }
    assert(parts.take(n as int) =~= parts);
    close_with(&block.frame, inside)
}

/// An impl block whose marked methods are guarded, and nothing else.
pub open spec fn guards_only(input: Seq<Token>) -> Result<
    Seq<Token>,
    Seq<char>,
> {
    match syn_impl_block(input) {
        Ok(block) => Ok(block_tokens(guarded_block(block))),
        Err(message) => Err(message),
    }
}

/// Guards the marked methods of an impl block without generating anything. A contract can have
/// any number of such blocks beside the one that carries the arguments.
pub fn process_impl_block_guard_only(input: &TokenStream) -> (stream: TokenStream)
    ensures
        comes_to(tokens_of(stream), guards_only(tokens_of(*input))),
{
    match parse_impl_block(input) {
        Ok(block) => {
            let mut block = block;
            inject_guards(&mut block);
            print_block(&block)
        },
        Err(fault) => fault.report,
    }
}

/// All that becomes of an impl block with arguments: the block with its guards, the trait impl
/// and the public methods.
pub open spec fn expanded_block(block: ImplView, args: ArgsView) -> Seq<Token> {
    block_tokens(guarded_block(block)) + trait_impl(guarded_block(block), args) + public_methods(
        guarded_block(block),
        args,
    )
}

/// An impl block with arguments, or the error of the arguments or else of the block.
pub open spec fn full_expansion(args: Seq<Token>, input: Seq<Token>) -> Result<
    Seq<Token>,
    Seq<char>,
> {
    match read_args(args) {
        Err(message) => Err(message),
        Ok(args) => match syn_impl_block(input) {
            Err(message) => Err(message),
            Ok(block) => Ok(expanded_block(block, args)),
        },
    }
}

/// Expands an impl block and arguments that have been taken apart.
pub fn expand_block(block: ImplBlock, args: &TrustedRelayerImplArgs) -> (stream: TokenStream)
    ensures
        tokens_of(stream) == expanded_block(block@, args@),
{
    let mut block = block;
    inject_guards(&mut block);
    let mut out = print_block(&block);
    append(&mut out, gen_trait_impl(&block, args));
    append(&mut out, gen_public_methods(&block, args));
    out
}

/// Expands an impl block with arguments.
pub fn process_impl_block(args: &TokenStream, input: &TokenStream) -> (stream: TokenStream)
    ensures
        comes_to(tokens_of(stream), full_expansion(tokens_of(*args), tokens_of(*input))),
{
    let args = match TrustedRelayerImplArgs::parse(args) {
        Ok(args) => args,
        Err(fault) => return fault.report,
    };
    match parse_impl_block(input) {
        Ok(block) => expand_block(block, &args),
        Err(fault) => fault.report,
    }
}

/// A function with the guard of the contract.
pub open spec fn guarded_function(input: Seq<Token>) -> Result<
    Seq<Token>,
    Seq<char>,
> {
    match syn_function(input) {
        Ok(function) => Ok(guarded_method(function, lexed(GUARD@), true)),
        Err(message) => Err(message),
    }
}

/// Guards a function.
pub fn process_fn(input: &TokenStream) -> (stream: TokenStream)
    ensures
        comes_to(tokens_of(stream), guarded_function(tokens_of(*input))),
{
    match parse_function(input) {
        Ok(function) => guard_method(&function, lex(GUARD), true),
        Err(fault) => fault.report,
    }
}

/// Whether tokens begin an impl block: behind attributes the first word is `impl`.
pub open spec fn begins_impl(tokens: Seq<Token>) -> bool
    decreases tokens.len(),
{
    if tokens.len() == 0 {
        false
    } else {
        match tokens[0] {
            Token::Ident(word) => word == "impl"@,
            Token::Punct(c, _) => c == '#' && begins_impl(tokens.skip(1)),
            Token::Group(_, _) => begins_impl(tokens.skip(1)),
            Token::Literal(_) => false,
        }
    }
}

/// Whether a stream begins an impl block.
pub fn is_impl_block(stream: &TokenStream) -> (found: bool)
    ensures
        found == begins_impl(tokens_of(*stream)),
{
    let pieces = read_tokens(stream);
    let n: usize = pieces.len();
    let ghost all = tokens_of(*stream);
    assert(all.skip(0) =~= all);
    for i in 0..n
        invariant
            n == pieces@.len() == all.len(),
            all == pieces_of(pieces@),
            all == tokens_of(*stream),
            begins_impl(all) == begins_impl(all.skip(i as int)),
    {
        let ghost rest = all.skip(i as int);
        assert(rest[0] == pieces@[i as int].shape@);
        assert(rest.skip(1) =~= all.skip(i + 1));
        match &pieces[i].shape {
            Shape::Ident(word) => return *word.as_str() == *"impl",
            Shape::Punct(c, _) => {
                if *c != '#' {
                    return false;
                }
            },
            Shape::Group(_, _) => {},
            Shape::Literal(_) => return false,
        }
    }
    assert(all.skip(n as int) =~= Seq::empty());
    false
}

/// What `#[trusted_relayer(...)]` makes of the item that it stands on: on an impl block
/// without arguments guards, on an impl block with arguments also what the contract needs, and
/// on a function a guard. A function by itself takes no arguments.
pub open spec fn expansion(args: Seq<Token>, input: Seq<Token>) -> Result<
    Seq<Token>,
    Seq<char>,
> {
    if begins_impl(input) {
        if args.len() == 0 {
            guards_only(input)
        } else {
            full_expansion(args, input)
        }
    } else if args.len() > 0 {
        Err("`#[trusted_relayer]` on methods does not accept arguments"@)
    } else {
        guarded_function(input)
    }
}

/// The expansion of `#[trusted_relayer(...)]`.
pub fn trusted_relayer(args: &TokenStream, input: &TokenStream) -> (stream: TokenStream)
    ensures
        comes_to(tokens_of(stream), expansion(tokens_of(*args), tokens_of(*input))),
{
    if is_impl_block(input) {
        if args.is_empty() {
            process_impl_block_guard_only(input)
        } else {
            process_impl_block(args, input)
        }
    } else {
        if !args.is_empty() {
            return error_report(
                "`#[trusted_relayer]` on methods does not accept arguments",
                &TokenStream::new(),
            );
        }
        process_fn(input)
    }
}

/// The attributes that a method keeps, one by one.
pub open spec fn unmarked(attrs: Seq<Seq<Token>>) -> Seq<Seq<Token>> {
    attrs.filter(|attr: Seq<Token>| !is_marker(attr))
}

/// No marker is left on a method that has been guarded, and every other attribute is: what is
/// written of its attributes is all of those that are not markers.
pub proof fn law_markers_are_stripped(attrs: Seq<Seq<Token>>, inner: bool)
    ensures
        !is_marked(unmarked(attrs)),
        kept_attrs(attrs, inner, false) == kept_attrs(unmarked(attrs), inner, true),
    decreases attrs.len(),
{
    reveal(Seq::filter);
    let kept = unmarked(attrs);
    if attrs.len() > 0 {
        law_markers_are_stripped(attrs.drop_last(), inner);
        let before = unmarked(attrs.drop_last());
        if is_marker(attrs.last()) {
            assert(kept == before);
        } else {
            assert(kept == before.push(attrs.last()));
            assert(kept.drop_last() =~= before);
            assert forall|i: int| 0 <= i < kept.len() implies !is_marker(#[trigger] kept[i]) by {
                if i < before.len() {
                    assert(kept[i] == before[i]);
                }
            }
        }
    }
}

/// An impl block without marked methods stays as it is.
pub proof fn law_unmarked_block_stays(block: ImplView)
    requires
        forall|i: int|
            0 <= i < block.items.len() ==> (syn_method(#[trigger] block.items[i]) matches Some(
                method,
            ) ==> !is_marked(method.attrs)),
    ensures
        guarded_block(block) == block,
{
    assert(guarded_block(block).items =~= block.items);
}

/// With arguments an impl block becomes what it becomes without, and behind it come the trait
/// impl and the public methods. So guards are the same in every block of a contract, and what is
/// generated comes from the block with the arguments alone.
pub proof fn law_arguments_only_add(args: Seq<Token>, input: Seq<Token>)
    requires
        begins_impl(input),
        args.len() > 0,
        read_args(args) is Ok,
        syn_impl_block(input) is Ok,
    ensures
        ({
            let block = syn_impl_block(input)->Ok_0;
            let values = read_args(args)->Ok_0;
            &&& expansion(Seq::empty(), input) is Ok
            &&& expansion(args, input) == Ok::<Seq<Token>, Seq<char>>(
                expansion(Seq::empty(), input)->Ok_0 + trait_impl(block, values) + public_methods(
                    block,
                    values,
                ),
            )
        }),
{
}

/// A method whose marker names no roles is guarded as the contract as a whole is; one whose
/// marker names some is guarded by these in place of those of the contract.
pub proof fn law_own_roles_replace(attr: Seq<Token>)
    requires
        is_marker(attr),
    ensures
        guard_tokens(seq![attr]) == match bypass_in(attr_args(attr)) {
            None => lexed(GUARD@),
            Some(roles) => filled(lexed(ROLE_GUARD@), seq![("roles"@, role_names(roles))]),
        },
        attr_args(attr).len() == 0 ==> guard_tokens(seq![attr]) == lexed(GUARD@),
{
    assert(seq![attr].drop_first() =~= Seq::empty());
    assert(method_bypass(Seq::<Seq<Token>>::empty()) is None);
}

} // verus!
