//! The parts of Rust source that the macros look at, as syn takes them apart.

use crate::tokens::{all_tokens, is_string, tokens_of, Delimiter, Token};
use proc_macro2::TokenStream;
use quote::{ToTokens, TokenStreamExt};
use vstd::prelude::*;

verus! {

/// A method or a function: its attributes, all that stands between them and the body, and
/// the statements of the body.
pub struct Method {
    pub attrs: Vec<TokenStream>,
    pub head: TokenStream,
    pub body: TokenStream,
}

/// The tokens of a method.
pub struct MethodView {
    pub attrs: Seq<Seq<Token>>,
    pub head: Seq<Token>,
    pub body: Seq<Token>,
}

impl View for Method {
    type V = MethodView;

    open spec fn view(&self) -> MethodView {
        MethodView {
            attrs: all_tokens(self.attrs@),
            head: tokens_of(self.head),
            body: tokens_of(self.body),
        }
    }
}

/// An impl block: all of it but its items, which go at the end of the braces; its items; and its
/// type, the generics of an impl for that type and the where clause.
pub struct ImplBlock {
    pub frame: TokenStream,
    pub items: Vec<TokenStream>,
    pub self_ty: TokenStream,
    pub impl_generics: TokenStream,
    pub where_clause: TokenStream,
}

/// The tokens of an impl block.
pub struct ImplView {
    pub frame: Seq<Token>,
    pub items: Seq<Seq<Token>>,
    pub self_ty: Seq<Token>,
    pub impl_generics: Seq<Token>,
    pub where_clause: Seq<Token>,
}

impl View for ImplBlock {
    type V = ImplView;

    open spec fn view(&self) -> ImplView {
        ImplView {
            frame: tokens_of(self.frame),
            items: all_tokens(self.items@),
            self_ty: tokens_of(self.self_ty),
            impl_generics: tokens_of(self.impl_generics),
            where_clause: tokens_of(self.where_clause),
        }
    }
}

/// The fields of a variant: how many, or by which names.
pub enum Fields {
    Unit,
    Unnamed(usize),
    Named(Vec<TokenStream>),
}

/// The fields of a variant, names by their tokens.
pub enum FieldsView {
    Unit,
    Unnamed(nat),
    Named(Seq<Seq<Token>>),
}

impl View for Fields {
    type V = FieldsView;

    open spec fn view(&self) -> FieldsView {
        match self {
            Fields::Unit => FieldsView::Unit,
            Fields::Unnamed(count) => FieldsView::Unnamed(*count as nat),
            Fields::Named(names) => FieldsView::Named(all_tokens(names@)),
        }
    }
}

/// A variant of an enum.
pub struct Variant {
    pub ident: TokenStream,
    pub fields: Fields,
}

/// The tokens of a variant.
pub struct VariantView {
    pub ident: Seq<Token>,
    pub fields: FieldsView,
}

impl View for Variant {
    type V = VariantView;

    open spec fn view(&self) -> VariantView {
        VariantView { ident: tokens_of(self.ident), fields: self.fields@ }
    }
}

/// A type that something is derived for: its name and its generics.
pub struct TypeItem {
    pub name: TokenStream,
    pub impl_generics: TokenStream,
    pub ty_generics: TokenStream,
    pub where_clause: TokenStream,
}

/// The tokens of a type that something is derived for.
pub struct TypeView {
    pub name: Seq<Token>,
    pub impl_generics: Seq<Token>,
    pub ty_generics: Seq<Token>,
    pub where_clause: Seq<Token>,
}

impl View for TypeItem {
    type V = TypeView;

    open spec fn view(&self) -> TypeView {
        TypeView {
            name: tokens_of(self.name),
            impl_generics: tokens_of(self.impl_generics),
            ty_generics: tokens_of(self.ty_generics),
            where_clause: tokens_of(self.where_clause),
        }
    }
}

/// Whether tokens make the compiler report an error with the given message: they call the macro
/// for that, with a string literal that stands for the message.
pub open spec fn is_error_report(tokens: Seq<Token>, message: Seq<char>) -> bool {
    &&& tokens.len() == 8
    &&& tokens.take(7) == seq![
        Token::Punct(':', true),
        Token::Punct(':', false),
        Token::Ident("core"@),
        Token::Punct(':', true),
        Token::Punct(':', false),
        Token::Ident("compile_error"@),
        Token::Punct('!', false),
    ]
    &&& tokens[7] matches Token::Group(Delimiter::Brace, contents)
    &&& is_string(contents, message)
}

/// Whether tokens are what was to come out: the tokens that are due, or the report of the fault.
pub open spec fn comes_to(tokens: Seq<Token>, due: Result<Seq<Token>, Seq<char>>) -> bool {
    match due {
        Ok(expected) => tokens == expected,
        Err(message) => is_error_report(tokens, message),
    }
}

/// What is wrong with a piece of source: in words, and as the tokens that make the compiler report
/// it in its place.
pub struct Fault {
    pub message: String,
    pub report: TokenStream,
}

impl View for Fault {
    type V = Seq<char>;

    open spec fn view(&self) -> Seq<char> {
        self.message@
    }
}

/// Whether the report of a fault, where there is one, is that of its message.
pub open spec fn reports<T>(parsed: Result<T, Fault>) -> bool {
    parsed matches Err(fault) ==> is_error_report(tokens_of(fault.report), fault@)
}

/// `syn::Error::to_compile_error` of a `syn::Error::new_spanned`: a call of the macro that has the
/// compiler report the message as an error, in the place of `at` in the source. Nothing is claimed
/// of how the literal of the message is written.
#[verifier::external_body]
pub(crate) fn error_report(message: &str, at: &TokenStream) -> (stream: TokenStream)
    ensures
        is_error_report(tokens_of(stream), message@),
{
    syn::Error::new_spanned(at, message).to_compile_error()
}

/// A fault with the given message in the place of `at` in the source.
pub(crate) fn fault_at(message: &str, at: &TokenStream) -> (fault: Fault)
    ensures
        fault@ == message@,
        is_error_report(tokens_of(fault.report), fault@),
{
    Fault { message: message.to_owned(), report: error_report(message, at) }
}

/// A parse by its values: what was read, or the message of the fault.
pub open spec fn parse_of<T: View>(parsed: Result<T, Fault>) -> Result<T::V, Seq<char>> {
    match parsed {
        Ok(value) => Ok(value@),
        Err(fault) => Err(fault@),
    }
}

/// How syn reads an impl block.
pub uninterp spec fn syn_impl_block(tokens: Seq<Token>) -> Result<ImplView, Seq<char>>;

/// `syn::parse2` as a `syn::ItemImpl`, `to_token_stream` of its parts and
/// `syn::Generics::split_for_impl`. The parts and the message of a fault depend on the tokens
/// alone.
///
/// An error of syn that comes of a parse holds one message, and
/// `syn::Error::to_compile_error` reports that.
#[verifier::external_body]
pub(crate) fn parse_impl_block(source: &TokenStream) -> (parsed: Result<ImplBlock, Fault>)
    ensures
        parse_of(parsed) == syn_impl_block(tokens_of(*source)),
        reports(parsed),
{
    let mut block = syn::parse2::<syn::ItemImpl>(source.clone()).map_err(|error| Fault { message: error.to_string(), report: error.to_compile_error() })?;
    let (impl_generics, _, where_clause) = block.generics.split_for_impl();
    let (impl_generics, where_clause) = (impl_generics.to_token_stream(), where_clause.to_token_stream());
    let self_ty = block.self_ty.to_token_stream();
    let items = block.items.drain(..).map(|item| item.to_token_stream()).collect();
    Ok(ImplBlock { frame: block.to_token_stream(), items, self_ty, impl_generics, where_clause })
}

/// How syn reads an item of an impl block that is a method.
pub uninterp spec fn syn_method(tokens: Seq<Token>) -> Option<MethodView>;

/// A method by its tokens, where there is one.
pub open spec fn method_of(method: Option<Method>) -> Option<MethodView> {
    match method {
        Some(method) => Some(method@),
        None => None,
    }
}

/// `syn::parse2` as a `syn::ImplItem`, where that is a `syn::ImplItem::Fn`. The parts depend on
/// the tokens alone.
#[verifier::external_body]
pub(crate) fn parse_method(item: &TokenStream) -> (method: Option<Method>)
    ensures
        method_of(method) == syn_method(tokens_of(*item)),
{
    match syn::parse2(item.clone()) {
        Ok(syn::ImplItem::Fn(method)) => {
            let mut head = method.vis.to_token_stream();
            method.defaultness.to_tokens(&mut head);
            method.sig.to_tokens(&mut head);
            let attrs = method.attrs.iter().map(|attr| attr.to_token_stream()).collect();
            let mut body = TokenStream::new();
            body.append_all(&method.block.stmts);
            Some(Method { attrs, head, body })
        },
        _ => None,
    }
}

/// How syn reads a function.
pub uninterp spec fn syn_function(tokens: Seq<Token>) -> Result<MethodView, Seq<char>>;

/// `syn::parse2` as a `syn::ItemFn`. The parts and the message of a fault depend on the
/// tokens alone.
///
/// An error of syn that comes of a parse holds one message, and
/// `syn::Error::to_compile_error` reports that.
#[verifier::external_body]
pub(crate) fn parse_function(source: &TokenStream) -> (parsed: Result<Method, Fault>)
    ensures
        parse_of(parsed) == syn_function(tokens_of(*source)),
        reports(parsed),
{
    let function = syn::parse2::<syn::ItemFn>(source.clone()).map_err(|error| Fault { message: error.to_string(), report: error.to_compile_error() })?;
    let mut head = function.vis.to_token_stream();
    function.sig.to_tokens(&mut head);
    let attrs = function.attrs.iter().map(|attr| attr.to_token_stream()).collect();
    let mut body = TokenStream::new();
    body.append_all(&function.block.stmts);
    Ok(Method { attrs, head, body })
}

/// A list of expressions with commas between them, and the fault of a token that one of them leaves
/// over within brackets. Such a fault syn puts off to the end of all that is being read.
pub struct Expressions {
    pub list: Vec<TokenStream>,
    pub leftover: Option<Fault>,
}

/// The tokens of a list of expressions, and the message of the fault that is put off.
pub struct ExpressionsView {
    pub list: Seq<Seq<Token>>,
    pub leftover: Option<Seq<char>>,
}

impl View for Expressions {
    type V = ExpressionsView;

    open spec fn view(&self) -> ExpressionsView {
        ExpressionsView { list: all_tokens(self.list@), leftover: message_of(self.leftover) }
    }
}

/// The message of a fault, where there is one.
pub open spec fn message_of(fault: Option<Fault>) -> Option<Seq<char>> {
    match fault {
        Some(fault) => Some(fault@),
        None => None,
    }
}

/// Whether the report of a fault that is put off, where there is one, is that of its message.
pub open spec fn reports_later(fault: Option<Fault>) -> bool {
    fault matches Some(fault) ==> is_error_report(tokens_of(fault.report), fault@)
}

/// How syn reads a list of expressions with commas between them.
pub uninterp spec fn syn_expressions(tokens: Seq<Token>) -> Result<ExpressionsView, Seq<char>>;

/// `syn::punctuated::Punctuated::parse_terminated` of `syn::Expr` with commas, and what
/// `syn::parse::Parser::parse2` finds left over once that is done. The expressions and the messages
/// of faults depend on the tokens alone.
///
/// An error of syn that comes of a parse holds one message, and
/// `syn::Error::to_compile_error` reports that.
#[verifier::external_body]
pub(crate) fn parse_expressions(source: &TokenStream) -> (parsed: Result<Expressions, Fault>)
    ensures
        parse_of(parsed) == syn_expressions(tokens_of(*source)),
        reports(parsed),
        parsed is Ok ==> reports_later(parsed->Ok_0.leftover),
{
    let mut read: Option<Vec<TokenStream>> = None;
    let parser = |input: syn::parse::ParseStream| -> syn::Result<()> {
        let list = syn::punctuated::Punctuated::<syn::Expr, syn::token::Comma>::parse_terminated(input)?;
        read = Some(list.iter().map(|expression| expression.to_token_stream()).collect());
        Ok(())
    };
    let end = syn::parse::Parser::parse2(parser, source.clone())
        .map_err(|error| Fault { message: error.to_string(), report: error.to_compile_error() });
    match read {
        Some(list) => Ok(Expressions { list, leftover: end.err() }),
        None => Err(end.unwrap_err()),
    }
}

/// How syn reads an identifier.
pub uninterp spec fn syn_identifier(tokens: Seq<Token>) -> Result<Seq<char>, Seq<char>>;

/// `syn::parse2` as a `syn::Ident`, which a keyword is not. The name and the message of a
/// fault depend on the tokens alone.
///
/// An error of syn that comes of a parse holds one message, and
/// `syn::Error::to_compile_error` reports that.
#[verifier::external_body]
pub(crate) fn parse_identifier(source: &TokenStream) -> (parsed: Result<String, Fault>)
    ensures
        parse_of(parsed) == syn_identifier(tokens_of(*source)),
        reports(parsed),
{
    syn::parse2::<syn::Ident>(source.clone()).map(|ident| ident.to_string()).map_err(|error| Fault { message: error.to_string(), report: error.to_compile_error() })
}

/// How syn reads a type that something is derived for.
pub uninterp spec fn syn_type_item(tokens: Seq<Token>) -> Result<TypeView, Seq<char>>;

/// `syn::parse2` as a `syn::DeriveInput`, `to_token_stream` of its name and
/// `syn::Generics::split_for_impl`. The parts and the message of a fault depend on the tokens
/// alone.
///
/// An error of syn that comes of a parse holds one message, and
/// `syn::Error::to_compile_error` reports that.
#[verifier::external_body]
pub(crate) fn parse_type_item(source: &TokenStream) -> (parsed: Result<TypeItem, Fault>)
    ensures
        parse_of(parsed) == syn_type_item(tokens_of(*source)),
        reports(parsed),
{
    let item = syn::parse2::<syn::DeriveInput>(source.clone()).map_err(|error| Fault { message: error.to_string(), report: error.to_compile_error() })?;
    let (impl_generics, ty_generics, where_clause) = item.generics.split_for_impl();
    Ok(TypeItem {
        name: item.ident.to_token_stream(),
        impl_generics: impl_generics.to_token_stream(),
        ty_generics: ty_generics.to_token_stream(),
        where_clause: where_clause.to_token_stream(),
    })
}

/// How syn reads the variants of an enum: not at all where the tokens are not those of an enum.
pub uninterp spec fn syn_variants(tokens: Seq<Token>) -> Option<Seq<VariantView>>;

/// Variants by their tokens, where there are such.
pub open spec fn variants_of(variants: Option<Vec<Variant>>) -> Option<Seq<VariantView>> {
    match variants {
        Some(list) => Some(list@.map_values(|variant: Variant| variant@)),
        None => None,
    }
}

/// The variants of a `syn::DeriveInput` of `syn::parse2`, where that has a `syn::Data::Enum`.
/// They depend on the tokens alone.
#[verifier::external_body]
pub(crate) fn parse_variants(source: &TokenStream) -> (variants: Option<Vec<Variant>>)
    ensures
        variants_of(variants) == syn_variants(tokens_of(*source)),
{
    let fields = |fields: &syn::Fields| match fields {
        syn::Fields::Unit => Fields::Unit,
        syn::Fields::Unnamed(list) => Fields::Unnamed(list.unnamed.len()),
        syn::Fields::Named(list) => Fields::Named(list.named.iter().map(|field| field.ident.to_token_stream()).collect()),
    };
    match syn::parse2::<syn::DeriveInput>(source.clone()).map(|item| item.data) {
        Ok(syn::Data::Enum(data)) => Some(data.variants.iter().map(|v| Variant { ident: v.ident.to_token_stream(), fields: fields(&v.fields) }).collect()),
        _ => None,
    }
}

} // verus!
