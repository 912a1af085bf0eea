//! `ErrorDisplay`: the message of each variant of an error enum.

use crate::syntax::{error_report, is_error_report, parse_type_item, parse_variants};
use crate::syntax::{syn_type_item, syn_variants, variants_of};
use crate::syntax::{Fields, FieldsView, TypeItem, TypeView, Variant, VariantView};
use crate::templates::{DISPLAY_IMPLS, NAMED_ARM, UNIT_ARM, UNNAMED_ARM};
use crate::text::{decimal, joined, law_numeral, lemma_joined_step, numeral, texts};
use crate::tokens::{all_tokens, append, comma_separated, comma_token, fill, filled, identifier};
use crate::tokens::{is_ascii_name, is_string, lex, lexed, pieces_of, read_tokens, slots_of};
use crate::tokens::{string_literal, tokens_of, Shape, Slot, Token};
use proc_macro2::TokenStream;
use vstd::prelude::*;

verus! {

/// `name={}` for each of the names.
pub open spec fn placeholders(names: Seq<Seq<char>>) -> Seq<Seq<char>> {
    names.map_values(|name: Seq<char>| name + "={}"@)
}

/// The format string of a variant with the given fields: the message first, and, where there
/// are fields, each of them by name after a colon.
pub open spec fn format_string(names: Seq<Seq<char>>) -> Seq<char> {
    if names.len() == 0 {
        "{}"@
    } else {
        "{}"@ + ": "@ + joined(placeholders(names), ", "@)
    }
}

/// Builds the format string of a variant from the names of its fields.
pub fn build_format_string(field_names: &[String]) -> (fmt: String)
    ensures
        fmt@ == format_string(texts(field_names@)),
{
    let mut fmt = "{}".to_owned();
    if field_names.len() > 0 {
        fmt.append(": ");
        let n: usize = field_names.len();
        let ghost parts = placeholders(texts(field_names@));
        let ghost head = fmt@;
        for index in 0..n
            invariant
                n == field_names@.len(),
                parts == placeholders(texts(field_names@)),
                fmt@ =~= head + joined(parts.take(index as int), ", "@),
        {
            let ghost done = joined(parts.take(index as int), ", "@);
            let ghost part = field_names@[index as int]@ + "={}"@;
            proof {
                lemma_joined_step(parts, ", "@, index as int);
            }
            if index > 0 {
                fmt.append(", ");
            }
            fmt.append(field_names[index].as_str());
            fmt.append("={}");
            if index > 0 {
                assert(fmt@ =~= head + (done + ", "@ + part));
            } else {
                assert(fmt@ =~= head + part);
            }
        }
        assert(parts.take(n as int) =~= parts);
    }
    fmt
}

/// How many places a format string leaves open. Each begins with a brace.
pub open spec fn open_places(fmt: Seq<char>) -> nat {
    fmt.to_multiset().count('{')
}

/// The places of two texts add up.
proof fn lemma_places_add(a: Seq<char>, b: Seq<char>)
    ensures
        open_places(a + b) == open_places(a) + open_places(b),
{
    vstd::seq_lib::lemma_multiset_commutative(a, b);
}

/// The places that fields leave open, each with `name={}`.
proof fn lemma_field_places(names: Seq<Seq<char>>)
    requires
        forall|i: int| 0 <= i < names.len() ==> !(#[trigger] names[i]).contains('{'),
    ensures
        open_places(joined(placeholders(names), ", "@)) == names.len(),
    decreases names.len(),
{
    broadcast use vstd::seq_lib::group_to_multiset_ensures;

    let parts = placeholders(names);
    reveal_strlit(", ");
    reveal_strlit("={}");
    if names.len() == 0 {
        assert(joined(parts, ", "@) =~= Seq::empty());
    } else {
        let rest = names.drop_last();
        lemma_field_places(rest);
        assert(placeholders(rest) =~= parts.drop_last());
        let name = names.last();
        assert(parts.last() == name + "={}"@);
        assert(open_places(name) == 0) by {
            assert(!names[names.len() - 1].contains('{'));
        }
        assert("={}"@ =~= seq!['='].push('{').push('}'));
        assert(seq!['='] =~= Seq::<char>::empty().push('='));
        assert(", "@ =~= Seq::<char>::empty().push(',').push(' '));
        lemma_places_add(name, "={}"@);
        if names.len() > 1 {
            lemma_places_add(joined(parts.drop_last(), ", "@), ", "@);
            lemma_places_add(joined(parts.drop_last(), ", "@) + ", "@, parts.last());
        }
    }
}

/// Whether every opening brace is followed at once by a closing one, and there is no other closing
/// brace.
pub open spec fn empty_braces(fmt: Seq<char>) -> bool {
    &&& forall|i: int|
        0 <= i < fmt.len() && #[trigger] fmt[i] == '{' ==> i + 1 < fmt.len() && fmt[i + 1] == '}'
    &&& forall|i: int|
        0 <= i < fmt.len() && #[trigger] fmt[i] == '}' ==> 0 < i && fmt[i - 1] == '{'
}

/// Texts whose braces are empty make one whose braces are.
proof fn lemma_braces_add(a: Seq<char>, b: Seq<char>)
    requires
        empty_braces(a),
        empty_braces(b),
    ensures
        empty_braces(a + b),
{
    let both = a + b;
    assert forall|i: int| 0 <= i < both.len() && #[trigger] both[i] == '{' implies i + 1
        < both.len() && both[i + 1] == '}' by {
        if i < a.len() {
            assert(a[i] == '{');
        } else {
            assert(b[i - a.len()] == '{');
        }
    }
    assert forall|i: int| 0 <= i < both.len() && #[trigger] both[i] == '}' implies 0 < i && both[i
        - 1] == '{' by {
        if i < a.len() {
            assert(a[i] == '}');
        } else {
            assert(b[i - a.len()] == '}');
        }
    }
}

/// The braces that fields bring along are empty.
proof fn lemma_field_braces(names: Seq<Seq<char>>)
    requires
        forall|i: int|
            0 <= i < names.len() ==> !(#[trigger] names[i]).contains('{') && !names[i].contains('}'),
    ensures
        empty_braces(joined(placeholders(names), ", "@)),
    decreases names.len(),
{
    let parts = placeholders(names);
    reveal_strlit(", ");
    reveal_strlit("={}");
    if names.len() > 0 {
        let rest = names.drop_last();
        lemma_field_braces(rest);
        assert(placeholders(rest) =~= parts.drop_last());
        let name = names.last();
        assert(parts.last() == name + "={}"@);
        assert(!names[names.len() - 1].contains('{') && !names[names.len() - 1].contains('}'));
        assert forall|i: int| 0 <= i < name.len() implies #[trigger] name[i] != '{' && name[i]
            != '}' by {
            assert(name.contains(name[i]));
        }
        lemma_braces_add(name, "={}"@);
        if names.len() > 1 {
            lemma_braces_add(joined(parts.drop_last(), ", "@), ", "@);
            lemma_braces_add(joined(parts.drop_last(), ", "@) + ", "@, parts.last());
        }
    }
}

/// The format string of a variant leaves as many places open as there are values to fill
/// them: the message, and every field. Where no name holds a brace, nothing stands in the braces of
/// a place, and there are no others.
pub proof fn law_format_places(names: Seq<Seq<char>>)
    requires
        forall|i: int| 0 <= i < names.len() ==> !(#[trigger] names[i]).contains('{'),
    ensures
        open_places(format_string(names)) == 1 + names.len(),
        (forall|i: int| 0 <= i < names.len() ==> !(#[trigger] names[i]).contains('}'))
            ==> empty_braces(format_string(names)),
{
    broadcast use vstd::seq_lib::group_to_multiset_ensures;

    reveal_strlit("{}");
    reveal_strlit(": ");
    assert("{}"@ =~= Seq::<char>::empty().push('{').push('}'));
    assert(": "@ =~= Seq::<char>::empty().push(':').push(' '));
    if names.len() > 0 {
        lemma_field_places(names);
        lemma_places_add("{}"@, ": "@);
        lemma_places_add("{}"@ + ": "@, joined(placeholders(names), ", "@));
        if forall|i: int| 0 <= i < names.len() ==> !(#[trigger] names[i]).contains('}') {
            lemma_field_braces(names);
            lemma_braces_add("{}"@, ": "@);
            lemma_braces_add("{}"@ + ": "@, joined(placeholders(names), ", "@));
        }
    }
}

/// The name that a single identifier holds.
pub open spec fn ident_text(tokens: Seq<Token>) -> Seq<char> {
    if tokens.len() == 1 {
        match tokens[0] {
            Token::Ident(text) => text,
            _ => Seq::empty(),
        }
    } else {
        Seq::empty()
    }
}

/// Reads the name out of a single identifier.
fn read_ident(stream: &TokenStream) -> (text: String)
    ensures
        text@ == ident_text(tokens_of(*stream)),
{
    let pieces = read_tokens(stream);
    assert(pieces_of(pieces@).len() == pieces@.len());
    if pieces.len() == 1 {
        assert(tokens_of(*stream)[0] == pieces@[0].shape@);
        if let Shape::Ident(text) = &pieces[0].shape {
            return text.clone();
        }
    }
    String::new()
}

/// The name under which a field without a name is bound: `field1` for the first, and so on.
pub open spec fn position_name(index: int) -> Seq<char> {
    "field"@ + numeral((index + 1) as nat)
}

/// The names of the fields of a variant, as its message gives them.
pub open spec fn field_names(fields: FieldsView) -> Seq<Seq<char>> {
    match fields {
        FieldsView::Unit => Seq::empty(),
        FieldsView::Unnamed(count) => Seq::new(count, |i: int| position_name(i)),
        FieldsView::Named(names) => names.map_values(|name: Seq<Token>| ident_text(name)),
    }
}

/// The identifiers that the fields of a variant are bound to.
pub open spec fn field_idents(fields: FieldsView) -> Seq<Seq<Token>> {
    match fields {
        FieldsView::Unit => Seq::empty(),
        FieldsView::Unnamed(count) => Seq::new(
            count,
            |i: int| seq![Token::Ident(position_name(i))],
        ),
        FieldsView::Named(names) => names,
    }
}

/// The arm that turns a variant into its message, with the given literal of the format string.
pub open spec fn variant_arm(variant: VariantView, format: Seq<Token>) -> Seq<Token> {
    let template = match variant.fields {
        FieldsView::Unit => UNIT_ARM@,
        FieldsView::Unnamed(_) => UNNAMED_ARM@,
        FieldsView::Named(_) => NAMED_ARM@,
    };
    filled(
        lexed(template),
        seq![
            ("variant"@, variant.ident),
            ("fields"@, joined(field_idents(variant.fields), seq![comma_token()])),
            ("format"@, format),
        ],
    )
}

/// Whether a literal is one of the format string of a variant.
pub open spec fn is_format(variant: VariantView, format: Seq<Token>) -> bool {
    is_string(format, format_string(field_names(variant.fields)))
}

/// Writes the arm that turns a variant into its message.
fn build_arm(variant: &Variant) -> (arm: TokenStream)
    ensures
        exists|format: Seq<Token>| #[trigger]
            is_format(variant@, format) && tokens_of(arm) == variant_arm(variant@, format),
{
    let mut names: Vec<String> = Vec::new();
    let mut idents: Vec<TokenStream> = Vec::new();
    let template = match &variant.fields {
        Fields::Unit => UNIT_ARM,
        Fields::Unnamed(count) => {
            let count: usize = *count;
            for index in 0..count
                invariant
                    texts(names@) =~= field_names(FieldsView::Unnamed(index as nat)),
                    all_tokens(idents@) =~= field_idents(FieldsView::Unnamed(index as nat)),
            {
                let ghost names_before = names@;
                let ghost idents_before = idents@;
                let mut name = "field".to_owned();
                name.append(decimal(index as u128 + 1).as_str());
                assert(name@ == position_name(index as int));
                proof {
                    lemma_position_name(index as int);
                }
                idents.push(identifier(name.as_str()));
                names.push(name);
                assert(texts(names@) =~= texts(names_before).push(position_name(index as int)));
                assert(all_tokens(idents@) =~= all_tokens(idents_before).push(
                    seq![Token::Ident(position_name(index as int))],
                ));
            }
            UNNAMED_ARM
        },
        Fields::Named(list) => {
            let n: usize = list.len();
            for index in 0..n
                invariant
                    n == list@.len(),
                    texts(names@) =~= all_tokens(list@).take(index as int).map_values(
                        |name: Seq<Token>| ident_text(name),
                    ),
                    all_tokens(idents@) =~= all_tokens(list@).take(index as int),
            {
                let ghost names_before = names@;
                let ghost idents_before = idents@;
                let ghost name = tokens_of(list@[index as int]);
                names.push(read_ident(&list[index]));
                idents.push(list[index].clone());
                assert(texts(names@) =~= texts(names_before).push(ident_text(name)));
                assert(all_tokens(idents@) =~= all_tokens(idents_before).push(name));
            }
            NAMED_ARM
        },
    };
    assert(texts(names@) =~= field_names(variant.fields@));
    assert(all_tokens(idents@) =~= field_idents(variant.fields@));
    let text = build_format_string(names.as_slice());
    let format = string_literal(text.as_str(), &variant.ident);
    let ghost literal = tokens_of(format);
    assert(is_format(variant@, literal));
    let mut slots: Vec<Slot> = Vec::new();
    slots.push(Slot { name: "variant", stream: variant.ident.clone() });
    slots.push(Slot { name: "fields", stream: comma_separated(&idents) });
    slots.push(Slot { name: "format", stream: format });
    assert(slots_of(slots@) =~= seq![
        ("variant"@, variant@.ident),
        ("fields"@, joined(field_idents(variant.fields@), seq![comma_token()])),
        ("format"@, literal),
    ]);
    fill(&lex(template), &slots)
}

/// `field` and a number make a name.
proof fn lemma_position_name(index: int)
    requires
        index >= 0,
    ensures
        is_ascii_name(position_name(index)),
{
    reveal_strlit("field");
    let number = numeral((index + 1) as nat);
    law_numeral((index + 1) as nat);
    assert forall|i: int| 0 <= i < position_name(index).len() implies 'a' <= #[trigger] position_name(
        index,
    )[i] <= 'z' || '0' <= position_name(index)[i] <= '9' by {
        if i >= 5 {
            assert(position_name(index)[i] == number[i - 5]);
        }
    }
}

/// The message of a variant has a place for the text of the variant and for each field that the
/// arm binds, and no other; nothing stands in the braces of a place, and there are no others.
pub proof fn law_every_field_is_shown(fields: FieldsView)
    requires
        fields matches FieldsView::Named(names) ==> forall|i: int|
            0 <= i < names.len() ==> !ident_text(#[trigger] names[i]).contains('{') && !ident_text(
                names[i],
            ).contains('}'),
    ensures
        open_places(format_string(field_names(fields))) == 1 + field_idents(fields).len(),
        empty_braces(format_string(field_names(fields))),
{
    let names = field_names(fields);
    assert forall|i: int| 0 <= i < names.len() implies !(#[trigger] names[i]).contains('{')
        && !names[i].contains('}') by {
        match fields {
            FieldsView::Unit => {},
            FieldsView::Unnamed(_) => {
                lemma_position_name(i);
                assert forall|k: int| 0 <= k < names[i].len() implies names[i][k] != '{'
                    && names[i][k] != '}' by {}
            },
            FieldsView::Named(list) => {
                assert(names[i] == ident_text(list[i]));
            },
        }
    }
    law_format_places(names);
}

/// Whether there is a literal of the format string for each of the variants.
pub open spec fn are_formats(variants: Seq<VariantView>, formats: Seq<Seq<Token>>) -> bool {
    &&& formats.len() == variants.len()
    &&& forall|i: int|
        0 <= i < variants.len() ==> is_format(variants[i], #[trigger] formats[i])
}

/// The arm of each variant, with the given literals.
pub open spec fn variant_arms(variants: Seq<VariantView>, formats: Seq<Seq<Token>>) -> Seq<
    Seq<Token>,
> {
    Seq::new(variants.len(), |i: int| variant_arm(variants[i], formats[i]))
}

/// The two impls of an error enum, with the given literals of the format strings.
pub open spec fn display_impls(
    item: TypeView,
    variants: Seq<VariantView>,
    formats: Seq<Seq<Token>>,
) -> Seq<Token> {
    filled(
        lexed(DISPLAY_IMPLS@),
        seq![
            ("impl_generics"@, item.impl_generics),
            ("name"@, item.name),
            ("ty_generics"@, item.ty_generics),
            ("where_clause"@, item.where_clause),
            ("arms"@, variant_arms(variants, formats).flatten()),
        ],
    )
}

/// Whether tokens are what is derived for a type: for an enum the message of each variant and
/// `Display`, and an error for any other type. How the literals of the format strings are written
/// is left open.
pub open spec fn is_error_display(
    tokens: Seq<Token>,
    item: TypeView,
    variants: Option<Seq<VariantView>>,
) -> bool {
    match variants {
        None => is_error_report(tokens, "ErrorDisplay can only be derived for enums"@),
        Some(variants) => exists|formats: Seq<Seq<Token>>| #[trigger]
            are_formats(variants, formats) && tokens == display_impls(item, variants, formats),
    }
}

/// Derives the messages of an error enum that has been taken apart.
pub fn derive_for_type(item: &TypeItem, variants: &Option<Vec<Variant>>) -> (stream: TokenStream)
    ensures
        is_error_display(tokens_of(stream), item@, variants_of(*variants)),
{
    let list = match variants {
        Some(list) => list,
        None => return error_report(
            "ErrorDisplay can only be derived for enums",
            &item.name,
        ),
    };
    let mut arms = TokenStream::new();
    let n: usize = list.len();
    let ghost views = list@.map_values(|variant: Variant| variant@);
    let ghost mut formats: Seq<Seq<Token>> = Seq::empty();
    let ghost mut parts: Seq<Seq<Token>> = Seq::empty();
    assert(parts.flatten() =~= Seq::<Token>::empty());
    for i in 0..n
        invariant
            n == list@.len(),
            views == list@.map_values(|variant: Variant| variant@),
            formats.len() == parts.len() == i,
            forall|k: int| 0 <= k < i ==> is_format(views[k], #[trigger] formats[k]),
            forall|k: int|
                0 <= k < i ==> #[trigger] parts[k] == variant_arm(views[k], formats[k]),
            tokens_of(arms) == parts.flatten(),
    {
        let arm = build_arm(&list[i]);
        let ghost part = tokens_of(arm);
        append(&mut arms, arm);
        proof {
            let format = choose|format: Seq<Token>| #[trigger]
                is_format(views[i as int], format) && part == variant_arm(views[i as int], format);
            parts.lemma_flatten_push(part);
            formats = formats.push(format);
            parts = parts.push(part);
        }
    }
    assert(variants_of(*variants)->Some_0 =~= views);
    assert(are_formats(views, formats));
    assert(parts =~= variant_arms(views, formats));
    let mut slots: Vec<Slot> = Vec::new();
    slots.push(Slot { name: "impl_generics", stream: item.impl_generics.clone() });
    slots.push(Slot { name: "name", stream: item.name.clone() });
    slots.push(Slot { name: "ty_generics", stream: item.ty_generics.clone() });
    slots.push(Slot { name: "where_clause", stream: item.where_clause.clone() });
    slots.push(Slot { name: "arms", stream: arms });
    assert(slots_of(slots@) =~= seq![
        ("impl_generics"@, item@.impl_generics),
        ("name"@, item@.name),
        ("ty_generics"@, item@.ty_generics),
        ("where_clause"@, item@.where_clause),
        ("arms"@, variant_arms(views, formats).flatten()),
    ]);
    fill(&lex(DISPLAY_IMPLS), &slots)
}

/// The expansion of `#[derive(ErrorDisplay)]` on an item.
pub fn derive_error_display(input: &TokenStream) -> (stream: TokenStream)
    ensures
        match syn_type_item(tokens_of(*input)) {
            Ok(item) => is_error_display(
                tokens_of(stream),
                item,
                syn_variants(tokens_of(*input)),
            ),
            Err(message) => is_error_report(tokens_of(stream), message),
        },
{
    match parse_type_item(input) {
        Ok(item) => derive_for_type(&item, &parse_variants(input)),
        Err(fault) => fault.report,
    }
}

} // verus!
