//! What the macros are for, in terms of the tokens that go in and come out.

use crate::error_display::{are_formats, display_impls, field_idents, field_names, format_string};
use crate::error_display::{ident_text, is_error_display, is_format, placeholders, position_name};
use crate::error_display::{variant_arm, variant_arms};
use crate::macro_args::{args_of, list_named, read_args, read_params, TrustedRelayerImplArgs};
use crate::macro_args::{ArgsView, MacroParam, ParamView, ReadParams, ReadView};
use crate::registry_laws::{law_decimal_numeral, stands_for};
use crate::relayer_macro::{attr_args, attr_contents, begins_impl, block_tokens, bypass_in};
use crate::relayer_macro::{bypass_is_trusted, closed_with, expanded_block, expansion, guard_tokens};
use crate::relayer_macro::{guarded_block, guarded_item, guarded_method, is_inner, is_marked};
use crate::relayer_macro::{is_marker, kept_attrs, method_bypass, override_method, public_methods};
use crate::relayer_macro::{role_names, trait_impl};
use crate::syntax::{comes_to, is_error_report, message_of, parse_of, reports, reports_later};
use crate::syntax::{syn_function, syn_impl_block, syn_method, variants_of};
use crate::syntax::{Expressions, Fault, Fields, FieldsView, ImplBlock, ImplView};
use crate::syntax::{Method, MethodView, TypeItem, TypeView, Variant, VariantView};
use crate::templates::{BYPASS_METHOD, DISPLAY_IMPLS, GUARD, NAMED_ARM, PUBLIC_METHODS, ROLE_GUARD};
use crate::templates::{ROLE_NAME, TRAIT_IMPL, UNIT_ARM, UNNAMED_ARM};
use crate::text::{joined, numeral, texts};
use crate::tokens::{all_tokens, comma_token, filled, filled_token, is_string, leading_slot, lexed};
use crate::tokens::{slot_tokens, slots_of, string_value, tokens_of, Delimiter, Slot, Token};
use proc_macro2::TokenStream;
use vstd::prelude::*;

verus! {

// Lists.

/// Nothing joined is nothing, one part joined is that part, and two lists joined are each joined,
/// with one separator between them.
pub proof fn law_joining<T>(a: Seq<Seq<T>>, b: Seq<Seq<T>>, sep: Seq<T>)
    ensures
        joined(Seq::<Seq<T>>::empty(), sep) == Seq::<T>::empty(),
        a.len() == 1 ==> joined(a, sep) == a[0],
        a.len() > 0 && b.len() > 0 ==> joined(a + b, sep) == joined(a, sep) + sep + joined(b, sep),
    decreases b.len(),
{
    if a.len() > 0 && b.len() > 0 {
        let both = a + b;
        assert(both.drop_last() =~= a + b.drop_last());
        assert(both.last() == b.last());
        if b.len() == 1 {
            assert(a + b.drop_last() =~= a);
        } else {
            law_joining(a, b.drop_last(), sep);
            assert(joined(a + b, sep) =~= joined(a, sep) + sep + joined(b, sep));
        }
    }
}

/// Texts and streams are seen one for one, and slots by their names with what they hold.
pub proof fn law_lists_one_for_one(
    list: Seq<String>,
    streams: Seq<TokenStream>,
    slots: Seq<Slot>,
    i: int,
)
    ensures
        texts(list).len() == list.len(),
        0 <= i < list.len() ==> texts(list)[i] == list[i]@,
        all_tokens(streams).len() == streams.len(),
        0 <= i < streams.len() ==> all_tokens(streams)[i] == tokens_of(streams[i]),
        slots_of(slots).len() == slots.len(),
        0 <= i < slots.len() ==> slots_of(slots)[i] == (slots[i].name@, tokens_of(slots[i].stream)),
{
}

// Templates.

/// The slot of a name is the first that has it, and there is none where no slot has it.
pub proof fn law_first_slot_counts(
    slots: Seq<(Seq<char>, Seq<Token>)>,
    name: Seq<char>,
    i: int,
)
    ensures
        0 <= i < slots.len() && slots[i].0 == name && (forall|k: int|
            0 <= k < i ==> (#[trigger] slots[k]).0 != name) ==> slot_tokens(slots, name) == Some(
            slots[i].1,
        ),
        (forall|k: int| 0 <= k < slots.len() ==> (#[trigger] slots[k]).0 != name)
            ==> slot_tokens(slots, name) is None,
    decreases slots.len(),
{
    if slots.len() > 0 && slots[0].0 != name {
        let rest = slots.drop_first();
        law_first_slot_counts(rest, name, i - 1);
        if 0 <= i < slots.len() && slots[i].0 == name && (forall|k: int|
            0 <= k < i ==> (#[trigger] slots[k]).0 != name) {
            assert(rest[i - 1] == slots[i]);
            assert forall|k: int| 0 <= k < i - 1 implies (#[trigger] rest[k]).0 != name by {
                assert(rest[k] == slots[k + 1]);
            }
        }
        if forall|k: int| 0 <= k < slots.len() ==> (#[trigger] slots[k]).0 != name {
            assert forall|k: int| 0 <= k < rest.len() implies (#[trigger] rest[k]).0 != name by {
                assert(rest[k] == slots[k + 1]);
            }
        }
    }
}

/// A template is filled piece by piece: two pieces that are put end to end give what each gives,
/// unless they meet within a slot.
pub proof fn law_filling_piece_by_piece(
    a: Seq<Token>,
    b: Seq<Token>,
    slots: Seq<(Seq<char>, Seq<Token>)>,
)
    requires
        a.len() == 0 || b.len() == 0 || !(a.last() matches Token::Punct(c, _) && c == '#')
            || b[0] !is Ident,
    ensures
        filled(a + b, slots) == filled(a, slots) + filled(b, slots),
    decreases a.len(),
{
    let both = a + b;
    if a.len() == 0 {
        assert(both =~= b);
        assert(filled(a, slots) + filled(b, slots) =~= filled(b, slots));
    } else {
        assert(both[0] == a[0]);
        if a.len() >= 2 {
            assert(both[1] == a[1]);
        } else if b.len() > 0 {
            assert(both[1] == b[0]);
        }
        assert(leading_slot(both, slots) == leading_slot(a, slots));
        match leading_slot(a, slots) {
            Some(tokens) => {
                let rest = a.subrange(2, a.len() as int);
                assert(both.subrange(2, both.len() as int) =~= rest + b);
                law_filling_piece_by_piece(rest, b, slots);
                assert(filled(both, slots) =~= filled(a, slots) + filled(b, slots));
            },
            None => {
                let rest = a.subrange(1, a.len() as int);
                assert(both.subrange(1, both.len() as int) =~= rest + b);
                law_filling_piece_by_piece(rest, b, slots);
                assert(filled(both, slots) =~= filled(a, slots) + filled(b, slots));
            },
        }
    }
}

/// What one piece of a template gives: a slot the tokens that it stands for, a group the same group
/// with its contents filled, and any other token itself. An unknown slot stays as it is.
pub proof fn law_filling_one_piece(
    name: Seq<char>,
    joint: bool,
    token: Token,
    slots: Seq<(Seq<char>, Seq<Token>)>,
)
    ensures
        filled(Seq::empty(), slots) == Seq::<Token>::empty(),
        slot_tokens(slots, name) is Some ==> filled(
            seq![Token::Punct('#', joint), Token::Ident(name)],
            slots,
        ) == slot_tokens(slots, name)->Some_0,
        slot_tokens(slots, name) is None ==> filled(
            seq![Token::Punct('#', joint), Token::Ident(name)],
            slots,
        ) == seq![Token::Punct('#', joint), Token::Ident(name)],
        token is Group ==> filled(seq![token], slots) == seq![
            Token::Group(token->Group_0, filled(token->Group_1, slots)),
        ],
        token !is Group ==> filled(seq![token], slots) == seq![token],
{
    let empty = Seq::<Token>::empty();
    assert(filled(empty, slots) =~= empty);
    let pair = seq![Token::Punct('#', joint), Token::Ident(name)];
    assert(pair.subrange(2, 2) =~= empty);
    let one = seq![token];
    assert(one.subrange(1, 1) =~= empty);
    assert(filled(one, slots) =~= seq![filled_token(token, slots)]);
    match slot_tokens(slots, name) {
        Some(tokens) => {
            assert(filled(pair, slots) =~= tokens);
        },
        None => {
            let second = pair.subrange(1, 2);
            assert(second =~= seq![Token::Ident(name)]);
            assert(second.subrange(1, second.len() as int) =~= empty);
            assert(leading_slot(second, slots) is None);
            assert(filled_token(second[0], slots) == second[0]);
            assert(filled(second, slots) =~= seq![second[0]] + filled(empty, slots));
            assert(leading_slot(pair, slots) is None);
            assert(filled_token(pair[0], slots) == pair[0]);
            assert(filled(pair, slots) =~= seq![pair[0]] + filled(second, slots));
            assert(filled(pair, slots) =~= pair);
        },
    }
}

/// What a template gives depends on what its slots stand for and on nothing else of them.
pub proof fn law_slots_decide(
    template: Seq<Token>,
    a: Seq<(Seq<char>, Seq<Token>)>,
    b: Seq<(Seq<char>, Seq<Token>)>,
)
    requires
        forall|name: Seq<char>| #[trigger] slot_tokens(a, name) == slot_tokens(b, name),
    ensures
        filled(template, a) == filled(template, b),
    decreases template,
{
    if template.len() > 0 {
        assert(leading_slot(template, a) == leading_slot(template, b));
        if leading_slot(template, a) is Some {
            law_slots_decide(template.subrange(2, template.len() as int), a, b);
        } else {
            law_slots_decide(template.subrange(1, template.len() as int), a, b);
            if let Token::Group(delimiter, contents) = template[0] {
                assert(decreases_to!(template => template[0]));
                assert(decreases_to!(template[0] => template[0]->Group_1));
                law_slots_decide(contents, a, b);
                reveal_with_fuel(filled_token, 2);
                assert(filled_token(template[0], a) == filled_token(template[0], b));
            }
        }
    }
}

/// Whether a template has a slot of that name, within groups too.
pub open spec fn has_slot(template: Seq<Token>, name: Seq<char>) -> bool
    decreases template,
{
    if template.len() == 0 {
        false
    } else {
        ||| template.len() >= 2 && (template[0] matches Token::Punct(c, _) && c == '#')
            && template[1] == Token::Ident(name)
        ||| has_slot(template.subrange(1, template.len() as int), name)
        ||| match template[0] {
            Token::Group(_, contents) => {
                proof {
                    assert(decreases_to!(template => template[0]));
                    assert(decreases_to!(template[0] => template[0]->Group_1));
                }
                has_slot(contents, name)
            },
            _ => false,
        }
    }
}

/// Whether tokens stand in a row somewhere in other tokens, within groups too.
pub open spec fn stands_in(part: Seq<Token>, tokens: Seq<Token>) -> bool
    decreases tokens,
{
    ||| part.is_prefix_of(tokens)
    ||| tokens.len() > 0 && {
        ||| stands_in(part, tokens.subrange(1, tokens.len() as int))
        ||| match tokens[0] {
            Token::Group(_, contents) => {
                proof {
                    assert(decreases_to!(tokens => tokens[0]));
                    assert(decreases_to!(tokens[0] => tokens[0]->Group_1));
                }
                stands_in(part, contents)
            },
            _ => false,
        }
    }
}

/// What stands in tokens stands in more tokens in front of these too.
proof fn lemma_stands_behind(part: Seq<Token>, front: Seq<Token>, tokens: Seq<Token>)
    requires
        stands_in(part, tokens),
    ensures
        stands_in(part, front + tokens),
    decreases front.len(),
{
    let both = front + tokens;
    if front.len() == 0 {
        assert(both =~= tokens);
    } else {
        let rest = front.subrange(1, front.len() as int);
        lemma_stands_behind(part, rest, tokens);
        assert(both.subrange(1, both.len() as int) =~= rest + tokens);
    }
}

/// What stands in tokens stands in more tokens behind these too.
proof fn lemma_stands_in_front(part: Seq<Token>, tokens: Seq<Token>, tail: Seq<Token>)
    requires
        stands_in(part, tokens),
    ensures
        stands_in(part, tokens + tail),
    decreases tokens.len(),
{
    let both = tokens + tail;
    if part.is_prefix_of(tokens) {
        assert(part.is_prefix_of(both));
    } else {
        let rest = tokens.subrange(1, tokens.len() as int);
        assert(both[0] == tokens[0]);
        assert(both.subrange(1, both.len() as int) =~= rest + tail);
        if stands_in(part, rest) {
            lemma_stands_in_front(part, rest, tail);
        }
    }
}

/// What stands in a part of tokens stands in the tokens.
pub proof fn law_parts_of_parts(part: Seq<Token>, middle: Seq<Token>, tokens: Seq<Token>)
    requires
        stands_in(part, middle),
        stands_in(middle, tokens),
    ensures
        stands_in(part, tokens),
    decreases tokens,
{
    if middle.is_prefix_of(tokens) {
        let tail = tokens.skip(middle.len() as int);
        assert(tokens =~= middle + tail);
        lemma_stands_in_front(part, middle, tail);
    } else {
        let rest = tokens.subrange(1, tokens.len() as int);
        if stands_in(middle, rest) {
            law_parts_of_parts(part, middle, rest);
        } else {
            assert(decreases_to!(tokens => tokens[0]));
            assert(decreases_to!(tokens[0] => tokens[0]->Group_1));
            law_parts_of_parts(part, middle, tokens[0]->Group_1);
        }
    }
}

/// Each part of a list stands in a row in the list with its commas.
pub proof fn law_each_part_stands_in_the_list(parts: Seq<Seq<Token>>, i: int)
    requires
        0 <= i < parts.len(),
    ensures
        stands_in(parts[i], joined(parts, seq![Token::Punct(',', false)])),
{
    let before = parts.take(i);
    let one = seq![parts[i]];
    let after = parts.skip(i + 1);
    let from = one + after;
    let comma = seq![Token::Punct(',', false)];
    assert(parts =~= before + from);
    law_joining(one, after, comma);
    law_joining(before, from, comma);
    if after.len() == 0 {
        assert(from =~= one);
    }
    assert(parts[i].is_prefix_of(joined(from, comma)));
    if before.len() == 0 {
        assert(parts =~= from);
    } else {
        lemma_stands_behind(parts[i], joined(before, comma) + comma, joined(from, comma));
    }
}

/// Where a template has a slot, what the slot stands for stands in a row in the filled template.
pub proof fn law_slots_are_written(
    template: Seq<Token>,
    slots: Seq<(Seq<char>, Seq<Token>)>,
    name: Seq<char>,
)
    requires
        has_slot(template, name),
        slot_tokens(slots, name) is Some,
    ensures
        stands_in(slot_tokens(slots, name)->Some_0, filled(template, slots)),
    decreases template,
{
    let part = slot_tokens(slots, name)->Some_0;
    let next = template.subrange(1, template.len() as int);
    match leading_slot(template, slots) {
        Some(tokens) => {
            let rest = template.subrange(2, template.len() as int);
            if template[1] == Token::Ident(name) {
                assert(part.is_prefix_of(tokens + filled(rest, slots)));
            } else {
                assert(next[0] == template[1]);
                assert(next.subrange(1, next.len() as int) =~= rest);
                assert(template[0] !is Group && next[0] is Ident);
                assert(has_slot(next, name));
                assert(has_slot(rest, name));
                law_slots_are_written(rest, slots, name);
                lemma_stands_behind(part, tokens, filled(rest, slots));
            }
        },
        None => {
            let head = seq![filled_token(template[0], slots)];
            let out = filled(template, slots);
            assert(out == head + filled(next, slots));
            if has_slot(next, name) {
                law_slots_are_written(next, slots, name);
                lemma_stands_behind(part, head, filled(next, slots));
            } else {
                assert(template[0] is Group);
                assert(decreases_to!(template => template[0]));
                assert(decreases_to!(template[0] => template[0]->Group_1));
                law_slots_are_written(template[0]->Group_1, slots, name);
                reveal_with_fuel(filled_token, 2);
                assert(out[0] == Token::Group(
                    template[0]->Group_0,
                    filled(template[0]->Group_1, slots),
                ));
            }
        },
    }
}

// The roles that a contract names.

/// Every role is named once, in the order in which it is given: one role by its own tokens alone,
/// and two lists by what each gives, with a comma between them.
pub proof fn law_every_role_is_named(a: Seq<Seq<Token>>, b: Seq<Seq<Token>>)
    ensures
        role_names(Seq::empty()) == Seq::<Token>::empty(),
        a.len() == 1 ==> role_names(a) == filled(lexed(ROLE_NAME@), seq![("role"@, a[0])]),
        a.len() > 0 && b.len() > 0 ==> role_names(a + b) == role_names(a) + seq![
            Token::Punct(',', false),
        ] + role_names(b),
{
    let name = |role: Seq<Token>| filled(lexed(ROLE_NAME@), seq![("role"@, role)]);
    let sep = seq![comma_token()];
    law_joining(a.map_values(name), b.map_values(name), sep);
    assert((a + b).map_values(name) =~= a.map_values(name) + b.map_values(name));
    assert(Seq::<Seq<Token>>::empty().map_values(name) =~= Seq::empty());
}

/// The name of each role stands in a row in the names of all, and the role in its own name where
/// the template of a name has the slot.
pub proof fn law_each_role_stands_in_the_list(roles: Seq<Seq<Token>>, i: int)
    requires
        0 <= i < roles.len(),
    ensures
        stands_in(role_names(seq![roles[i]]), role_names(roles)),
        has_slot(lexed(ROLE_NAME@), "role"@) ==> stands_in(
            roles[i],
            role_names(seq![roles[i]]),
        ),
{
    let before = roles.take(i);
    let one = seq![roles[i]];
    let after = roles.skip(i + 1);
    let from = one + after;
    let comma = seq![Token::Punct(',', false)];
    let name = role_names(one);
    assert(roles =~= before + from);
    law_every_role_is_named(one, after);
    law_every_role_is_named(before, from);
    if after.len() == 0 {
        assert(from =~= one);
        assert(name.is_prefix_of(role_names(from)));
    } else {
        assert(name.is_prefix_of(role_names(from)));
    }
    assert(stands_in(name, role_names(from)));
    if before.len() == 0 {
        assert(roles =~= from);
    } else {
        lemma_stands_behind(name, role_names(before) + comma, role_names(from));
    }
    let slots = seq![("role"@, roles[i])];
    law_first_slot_counts(slots, "role"@, 0);
    if has_slot(lexed(ROLE_NAME@), "role"@) {
        law_slots_are_written(lexed(ROLE_NAME@), slots, "role"@);
    }
}

/// The override for bypass roles is its template with the names of all of them, and of no other, in
/// the one slot that it has; where the template has that slot, they stand there in a row.
pub proof fn law_bypass_lets_every_role_through(
    roles: Seq<Seq<Token>>,
    names: Seq<Seq<Token>>,
    slots: Seq<(Seq<char>, Seq<Token>)>,
)
    requires
        names.len() == roles.len(),
        forall|i: int|
            0 <= i < roles.len() ==> #[trigger] names[i] == filled(
                lexed(ROLE_NAME@),
                seq![("role"@, roles[i])],
            ),
        forall|name: Seq<char>| #[trigger]
            slot_tokens(slots, name) == (if name == "roles"@ {
                Some(joined(names, seq![Token::Punct(',', false)]))
            } else {
                None
            }),
    ensures
        bypass_is_trusted(roles) == filled(lexed(BYPASS_METHOD@), slots),
        has_slot(lexed(BYPASS_METHOD@), "roles"@) ==> stands_in(
            joined(names, seq![Token::Punct(',', false)]),
            bypass_is_trusted(roles),
        ),
        forall|i: int|
            0 <= i < roles.len() && has_slot(lexed(BYPASS_METHOD@), "roles"@) ==> stands_in(
                #[trigger] names[i],
                joined(names, seq![Token::Punct(',', false)]),
            ),
{
    let own = seq![("roles"@, role_names(roles))];
    assert(names =~= roles.map_values(
        |role: Seq<Token>| filled(lexed(ROLE_NAME@), seq![("role"@, role)]),
    ));
    assert forall|name: Seq<char>| #[trigger] slot_tokens(own, name) == slot_tokens(
        slots,
        name,
    ) by {
        law_first_slot_counts(own, name, 0);
    }
    law_slots_decide(lexed(BYPASS_METHOD@), own, slots);
    if has_slot(lexed(BYPASS_METHOD@), "roles"@) {
        law_slots_are_written(lexed(BYPASS_METHOD@), slots, "roles"@);
    }
    assert forall|i: int|
        0 <= i < roles.len() && has_slot(lexed(BYPASS_METHOD@), "roles"@) implies stands_in(
        #[trigger] names[i],
        joined(names, seq![Token::Punct(',', false)]),
    ) by {
        law_each_role_stands_in_the_list(roles, i);
        law_every_role_is_named(seq![roles[i]], Seq::empty());
    }
}

/// A contract that decides by itself gets no trait impl. Any other gets the template with its own
/// type, generics and where clause, and with the override for its bypass roles, or none where it
/// has no such roles.
pub proof fn law_trait_impl(
    block: ImplView,
    args: ArgsView,
    slots: Seq<(Seq<char>, Seq<Token>)>,
)
    requires
        forall|name: Seq<char>| #[trigger]
            slot_tokens(slots, name) == (if name == "impl_generics"@ {
                Some(block.impl_generics)
            } else if name == "self_ty"@ {
                Some(block.self_ty)
            } else if name == "where_clause"@ {
                Some(block.where_clause)
            } else if name == "override_method"@ {
                Some(
                    if args.bypass_roles is Some {
                        bypass_is_trusted(args.bypass_roles->Some_0)
                    } else {
                        Seq::empty()
                    },
                )
            } else {
                None
            }),
    ensures
        args.custom_is_trusted_relayer ==> trait_impl(block, args).len() == 0,
        !args.custom_is_trusted_relayer ==> trait_impl(block, args) == filled(
            lexed(TRAIT_IMPL@),
            slots,
        ),
{
    let own = seq![
        ("impl_generics"@, block.impl_generics),
        ("self_ty"@, block.self_ty),
        ("where_clause"@, block.where_clause),
        ("override_method"@, override_method(args.bypass_roles)),
    ];
    reveal_strlit("impl_generics");
    reveal_strlit("self_ty");
    reveal_strlit("where_clause");
    reveal_strlit("override_method");
    assert("impl_generics"@[0] == 'i' && "self_ty"@[0] == 's' && "where_clause"@[0] == 'w'
        && "override_method"@[0] == 'o');
    assert forall|name: Seq<char>| #[trigger] slot_tokens(own, name) == slot_tokens(
        slots,
        name,
    ) by {
        law_first_slot_counts(own, name, 0);
        law_first_slot_counts(own, name, 1);
        law_first_slot_counts(own, name, 2);
        law_first_slot_counts(own, name, 3);
    }
    law_slots_decide(lexed(TRAIT_IMPL@), own, slots);
}

/// The public methods are their template with the type, generics and where clause of the contract,
/// with all manager roles where relayers are rejected and with all configuration roles where the
/// configuration is set: each as it is given, in order, with commas between them.
pub proof fn law_public_methods(
    block: ImplView,
    args: ArgsView,
    slots: Seq<(Seq<char>, Seq<Token>)>,
)
    requires
        forall|name: Seq<char>| #[trigger]
            slot_tokens(slots, name) == (if name == "impl_generics"@ {
                Some(block.impl_generics)
            } else if name == "self_ty"@ {
                Some(block.self_ty)
            } else if name == "where_clause"@ {
                Some(block.where_clause)
            } else if name == "manager_roles"@ {
                Some(joined(args.manager_roles, seq![Token::Punct(',', false)]))
            } else if name == "config_roles"@ {
                Some(joined(args.config_roles, seq![Token::Punct(',', false)]))
            } else {
                None
            }),
    ensures
        public_methods(block, args) == filled(lexed(PUBLIC_METHODS@), slots),
        has_slot(lexed(PUBLIC_METHODS@), "manager_roles"@) ==> stands_in(
            joined(args.manager_roles, seq![Token::Punct(',', false)]),
            public_methods(block, args),
        ),
        has_slot(lexed(PUBLIC_METHODS@), "config_roles"@) ==> stands_in(
            joined(args.config_roles, seq![Token::Punct(',', false)]),
            public_methods(block, args),
        ),
{
    let own = seq![
        ("impl_generics"@, block.impl_generics),
        ("self_ty"@, block.self_ty),
        ("where_clause"@, block.where_clause),
        ("manager_roles"@, joined(args.manager_roles, seq![comma_token()])),
        ("config_roles"@, joined(args.config_roles, seq![comma_token()])),
    ];
    reveal_strlit("impl_generics");
    reveal_strlit("self_ty");
    reveal_strlit("where_clause");
    reveal_strlit("manager_roles");
    reveal_strlit("config_roles");
    assert("impl_generics"@[0] == 'i' && "self_ty"@[0] == 's' && "where_clause"@[0] == 'w'
        && "manager_roles"@[0] == 'm' && "config_roles"@[0] == 'c');
    assert forall|name: Seq<char>| #[trigger] slot_tokens(own, name) == slot_tokens(
        slots,
        name,
    ) by {
        law_first_slot_counts(own, name, 0);
        law_first_slot_counts(own, name, 1);
        law_first_slot_counts(own, name, 2);
        law_first_slot_counts(own, name, 3);
        law_first_slot_counts(own, name, 4);
    }
    law_slots_decide(lexed(PUBLIC_METHODS@), own, slots);
    if has_slot(lexed(PUBLIC_METHODS@), "manager_roles"@) {
        law_slots_are_written(lexed(PUBLIC_METHODS@), slots, "manager_roles"@);
    }
    if has_slot(lexed(PUBLIC_METHODS@), "config_roles"@) {
        law_slots_are_written(lexed(PUBLIC_METHODS@), slots, "config_roles"@);
    }
}

// Attributes.

/// What an attribute `#[...]` or `#![...]` is: its contents are what stands in the brackets, it
/// stands inside the braces where an exclamation mark stands behind the hash, and its arguments are
/// what stands in parentheses behind its first token.
pub proof fn law_parts_of_an_attribute(contents: Seq<Token>, hash: Token, mark: bool)
    ensures
        attr_contents(seq![hash, Token::Group(Delimiter::Bracket, contents)]) == contents,
        attr_contents(
            seq![hash, Token::Punct('!', mark), Token::Group(Delimiter::Bracket, contents)],
        ) == contents,
        !is_inner(seq![hash, Token::Group(Delimiter::Bracket, contents)]),
        is_inner(seq![hash, Token::Punct('!', mark), Token::Group(Delimiter::Bracket, contents)]),
        contents.len() >= 2 ==> attr_args(
            seq![hash, Token::Group(Delimiter::Bracket, contents)],
        ) == (match contents[1] {
            Token::Group(Delimiter::Parenthesis, args) => args,
            _ => Seq::empty(),
        }),
        contents.len() < 2 ==> attr_args(
            seq![hash, Token::Group(Delimiter::Bracket, contents)],
        ).len() == 0,
{
}

/// An attribute is a marker exactly where its path is the one word `trusted_relayer`: that word
/// comes first, and behind it nothing, a group or an equals sign.
pub proof fn law_what_a_marker_is(attr: Seq<Token>, hash: Token, contents: Seq<Token>, mark: bool)
    requires
        attr == seq![hash, Token::Group(Delimiter::Bracket, contents)] || attr == seq![
            hash,
            Token::Punct('!', mark),
            Token::Group(Delimiter::Bracket, contents),
        ],
    ensures
        contents.len() == 0 ==> !is_marker(attr),
        contents.len() > 0 && contents[0] != Token::Ident("trusted_relayer"@) ==> !is_marker(attr),
        contents.len() == 1 && contents[0] == Token::Ident("trusted_relayer"@) ==> is_marker(attr),
        contents.len() > 1 && contents[0] == Token::Ident("trusted_relayer"@) ==> (is_marker(attr)
            <==> contents[1] is Group || (contents[1] is Punct && contents[1]->Punct_0 == '=')),
{
}

/// A method is marked where one of its attributes is a marker: in two lists of attributes, where
/// one is in either.
pub proof fn law_one_marker_is_enough(a: Seq<Seq<Token>>, b: Seq<Seq<Token>>)
    ensures
        is_marked(a + b) <==> is_marked(a) || is_marked(b),
        a.len() == 0 ==> !is_marked(a),
        a.len() == 1 ==> (is_marked(a) <==> is_marker(a[0])),
{
    let both = a + b;
    if is_marked(a) {
        let i = choose|i: int| 0 <= i < a.len() && is_marker(#[trigger] a[i]);
        assert(both[i] == a[i]);
    }
    if is_marked(b) {
        let i = choose|i: int| 0 <= i < b.len() && is_marker(#[trigger] b[i]);
        assert(both[a.len() + i] == b[i]);
    }
    if is_marked(both) {
        let i = choose|i: int| 0 <= i < both.len() && is_marker(#[trigger] both[i]);
        if i < a.len() {
            assert(a[i] == both[i]);
        } else {
            assert(b[i - a.len()] == both[i]);
        }
    }
}

/// Attributes are kept one by one, in their order: one is kept as it is where it stands where it is
/// wanted and is no marker, or markers are kept too.
pub proof fn law_keeping_attributes(
    a: Seq<Seq<Token>>,
    b: Seq<Seq<Token>>,
    inner: bool,
    with_markers: bool,
)
    ensures
        kept_attrs(a + b, inner, with_markers) == kept_attrs(a, inner, with_markers) + kept_attrs(
            b,
            inner,
            with_markers,
        ),
        kept_attrs(Seq::empty(), inner, with_markers) == Seq::<Token>::empty(),
        a.len() == 1 ==> kept_attrs(a, inner, with_markers) == (if is_inner(a[0]) == inner && (
        with_markers || !is_marker(a[0])) {
            a[0]
        } else {
            Seq::empty()
        }),
    decreases b.len(),
{
    if b.len() == 0 {
        assert(a + b =~= a);
        assert(kept_attrs(a, inner, with_markers) + Seq::<Token>::empty() =~= kept_attrs(
            a,
            inner,
            with_markers,
        ));
    } else {
        law_keeping_attributes(a, b.drop_last(), inner, with_markers);
        assert((a + b).drop_last() =~= a + b.drop_last());
        assert((a + b).last() == b.last());
        assert(kept_attrs(a + b, inner, with_markers) =~= kept_attrs(a, inner, with_markers)
            + kept_attrs(b, inner, with_markers));
    }
    if a.len() == 1 {
        assert(a.drop_last() =~= Seq::empty());
        assert(kept_attrs(a.drop_last(), inner, with_markers) =~= Seq::empty());
        assert(kept_attrs(a, inner, with_markers) =~= if is_inner(a[0]) == inner && (with_markers
            || !is_marker(a[0])) {
            a[0]
        } else {
            Seq::empty()
        });
    }
}

/// Nothing of the attributes is lost or doubled: without a marker among them, those outside the
/// braces and those inside are together as many tokens as all of them.
pub proof fn law_attributes_are_all_there(attrs: Seq<Seq<Token>>)
    ensures
        kept_attrs(attrs, true, true).len() + kept_attrs(attrs, false, true).len()
            == attrs.flatten().len(),
        !is_marked(attrs) ==> kept_attrs(attrs, true, false) == kept_attrs(attrs, true, true)
            && kept_attrs(attrs, false, false) == kept_attrs(attrs, false, true),
    decreases attrs.len(),
{
    if attrs.len() > 0 {
        let rest = attrs.drop_last();
        law_attributes_are_all_there(rest);
        assert(attrs =~= rest.push(attrs.last()));
        rest.lemma_flatten_push(attrs.last());
        if !is_marked(attrs) {
            assert(!is_marker(attrs[attrs.len() - 1]));
            assert forall|i: int| 0 <= i < rest.len() implies !is_marker(#[trigger] rest[i]) by {
                assert(rest[i] == attrs[i]);
            }
        }
    }
}

// Guards.

/// The roles that a method has of its own are those of the first of its markers that names some.
pub proof fn law_own_roles_of_a_method(a: Seq<Seq<Token>>, b: Seq<Seq<Token>>)
    ensures
        method_bypass(a) is Some ==> method_bypass(a + b) == method_bypass(a),
        method_bypass(a) is None ==> method_bypass(a + b) == method_bypass(b),
        method_bypass(Seq::empty()) is None,
        a.len() == 1 && is_marker(a[0]) ==> method_bypass(a) == bypass_in(attr_args(a[0])),
        a.len() == 1 && !is_marker(a[0]) ==> method_bypass(a) is None,
    decreases a.len(),
{
    if a.len() == 0 {
        assert(a + b =~= b);
    } else {
        law_own_roles_of_a_method(a.drop_first(), b);
        assert((a + b)[0] == a[0]);
        assert((a + b).drop_first() =~= a.drop_first() + b);
        if a.len() == 1 {
            assert(a.drop_first() =~= Seq::empty());
        }
    }
}

/// The bypass roles of a marker are a list that its arguments hold under that name, and there are
/// none where the arguments cannot be read or hold no such list.
pub proof fn law_bypass_roles_of_a_marker(args: Seq<Token>)
    ensures
        (read_params(args) is Err || read_params(args)->Ok_0.leftover is Some) ==> bypass_in(
            args,
        ) is None,
        read_params(args) is Ok && read_params(args)->Ok_0.leftover is None ==> {
            let params = read_params(args)->Ok_0.params;
            &&& bypass_in(args) is None <==> forall|i: int|
                0 <= i < params.len() ==> !((#[trigger] params[i]) is RoleList
                    && params[i]->RoleList_name == "bypass_roles"@)
            &&& bypass_in(args) is Some ==> exists|i: int|
                0 <= i < params.len() && #[trigger] params[i] == (ParamView::RoleList {
                    name: "bypass_roles"@,
                    roles: bypass_in(args)->Some_0,
                })
        },
{
    if let Ok(read) = read_params(args) {
        law_list_is_the_last_of_its_name(read.params, "bypass_roles"@);
    }
}

/// The list of a name is one of the arguments, the last of that name, and there is none where no
/// argument is such a list.
pub proof fn law_list_is_the_last_of_its_name(params: Seq<ParamView>, name: Seq<char>)
    ensures
        list_named(params, name) is None <==> forall|i: int|
            0 <= i < params.len() ==> !((#[trigger] params[i]) is RoleList
                && params[i]->RoleList_name == name),
        list_named(params, name) is Some ==> exists|i: int|
            0 <= i < params.len() && #[trigger] params[i] == (ParamView::RoleList {
                name,
                roles: list_named(params, name)->Some_0,
            }) && forall|k: int|
                i < k < params.len() ==> !((#[trigger] params[k]) is RoleList
                    && params[k]->RoleList_name == name),
    decreases params.len(),
{
    if params.len() > 0 {
        let rest = params.drop_last();
        let last = params.len() - 1;
        law_list_is_the_last_of_its_name(rest, name);
        assert forall|i: int| 0 <= i < rest.len() implies rest[i] == params[i] by {}
        if params[last] is RoleList && params[last]->RoleList_name == name {
            assert(params[last] == (ParamView::RoleList {
                name,
                roles: list_named(params, name)->Some_0,
            }));
        } else {
            assert(list_named(params, name) == list_named(rest, name));
            if list_named(rest, name) is Some {
                let roles = list_named(rest, name)->Some_0;
                let i = choose|i: int|
                    0 <= i < rest.len() && #[trigger] rest[i] == (ParamView::RoleList {
                        name,
                        roles,
                    }) && forall|k: int|
                        i < k < rest.len() ==> !((#[trigger] rest[k]) is RoleList
                            && rest[k]->RoleList_name == name);
                assert(params[i] == rest[i]);
                assert forall|k: int| i < k < params.len() implies !((#[trigger] params[k]) is RoleList
                    && params[k]->RoleList_name == name) by {
                    if k < last {
                        assert(rest[k] == params[k]);
                    }
                }
            } else {
                assert forall|i: int| 0 <= i < params.len() implies !((
                #[trigger] params[i]) is RoleList && params[i]->RoleList_name == name) by {
                    if i < last {
                        assert(rest[i] == params[i]);
                    }
                }
            }
        }
    }
}

/// The guard of a method with roles of its own is its template with the names of all of these in
/// the one slot that it has; without such roles it is the guard of the contract.
pub proof fn law_guard_names_every_own_role(
    attrs: Seq<Seq<Token>>,
    slots: Seq<(Seq<char>, Seq<Token>)>,
)
    requires
        method_bypass(attrs) is Some ==> forall|name: Seq<char>| #[trigger]
            slot_tokens(slots, name) == (if name == "roles"@ {
                Some(role_names(method_bypass(attrs)->Some_0))
            } else {
                None
            }),
    ensures
        method_bypass(attrs) is None ==> guard_tokens(attrs) == lexed(GUARD@),
        method_bypass(attrs) is Some ==> guard_tokens(attrs) == filled(lexed(ROLE_GUARD@), slots),
        method_bypass(attrs) is Some && has_slot(lexed(ROLE_GUARD@), "roles"@) ==> stands_in(
            role_names(method_bypass(attrs)->Some_0),
            guard_tokens(attrs),
        ),
{
    if let Some(roles) = method_bypass(attrs) {
        let own = seq![("roles"@, role_names(roles))];
        assert forall|name: Seq<char>| #[trigger] slot_tokens(own, name) == slot_tokens(
            slots,
            name,
        ) by {
            law_first_slot_counts(own, name, 0);
        }
        law_slots_decide(lexed(ROLE_GUARD@), own, slots);
        if has_slot(lexed(ROLE_GUARD@), "roles"@) {
            law_slots_are_written(lexed(ROLE_GUARD@), slots, "roles"@);
        }
    }
}

/// A guarded method ends in braces in which the guard stands in front of all statements of the body
/// and right behind the attributes that stand there; its head and its other attributes stand in
/// front of the braces.
pub proof fn law_guard_comes_first(method: MethodView, guard: Seq<Token>, with_markers: bool)
    ensures
        ({
            let out = guarded_method(method, guard, with_markers);
            let outside = kept_attrs(method.attrs, false, with_markers);
            let inside = kept_attrs(method.attrs, true, with_markers);
            &&& out.len() == outside.len() + method.head.len() + 1
            &&& out.take(outside.len() as int) == outside
            &&& out.subrange(outside.len() as int, out.len() - 1) == method.head
            &&& out.last() is Group
            &&& out.last()->Group_0 == Delimiter::Brace
            &&& out.last()->Group_1.len() == inside.len() + guard.len() + method.body.len()
            &&& out.last()->Group_1.take(inside.len() as int) == inside
            &&& out.last()->Group_1.skip(inside.len() as int).take(guard.len() as int) == guard
            &&& out.last()->Group_1.skip((inside.len() + guard.len()) as int) == method.body
        }),
{
    let out = guarded_method(method, guard, with_markers);
    let outside = kept_attrs(method.attrs, false, with_markers);
    let inside = kept_attrs(method.attrs, true, with_markers);
    assert(out.take(outside.len() as int) =~= outside);
    assert(out.subrange(outside.len() as int, out.len() - 1) =~= method.head);
    let body = out.last()->Group_1;
    assert(body.take(inside.len() as int) =~= inside);
    assert(body.skip(inside.len() as int).take(guard.len() as int) =~= guard);
    assert(body.skip((inside.len() + guard.len()) as int) =~= method.body);
}

/// Of an item of an impl block nothing changes unless it is a method with a marker; such a method
/// gets its guard and loses its markers.
pub proof fn law_only_marked_methods_change(item: Seq<Token>, i: int)
    ensures
        syn_method(item) is None ==> guarded_item(item) == item,
        syn_method(item) is Some && (forall|k: int|
            0 <= k < syn_method(item)->Some_0.attrs.len() ==> !is_marker(
                #[trigger] syn_method(item)->Some_0.attrs[k],
            )) ==> guarded_item(item) == item,
        syn_method(item) is Some && 0 <= i < syn_method(item)->Some_0.attrs.len() && is_marker(
            syn_method(item)->Some_0.attrs[i],
        ) ==> guarded_item(item) == guarded_method(
            syn_method(item)->Some_0,
            guard_tokens(syn_method(item)->Some_0.attrs),
            false,
        ),
{
}

/// Guarding a block goes item by item, keeps their order, and touches nothing else of the block.
pub proof fn law_guarding_item_by_item(block: ImplView, i: int)
    ensures
        guarded_block(block).items.len() == block.items.len(),
        0 <= i < block.items.len() ==> guarded_block(block).items[i] == guarded_item(
            block.items[i],
        ),
        guarded_block(block).frame == block.frame,
        guarded_block(block).self_ty == block.self_ty,
        guarded_block(block).impl_generics == block.impl_generics,
        guarded_block(block).where_clause == block.where_clause,
{
}

/// A block that ends in a group is written with its items, one after the other, at the end of that
/// group and with nothing else changed.
pub proof fn law_items_stand_in_the_braces(
    block: ImplView,
    front: Seq<Token>,
    delimiter: Delimiter,
    contents: Seq<Token>,
    inside: Seq<Token>,
)
    requires
        block.frame == front.push(Token::Group(delimiter, contents)),
    ensures
        block_tokens(block) == front.push(
            Token::Group(delimiter, contents + block.items.flatten()),
        ),
        closed_with(block.frame, inside) == front.push(
            Token::Group(delimiter, contents + inside),
        ),
{
    assert(block.frame.drop_last() =~= front);
}

// The expansion.

/// Tokens begin an impl block exactly where `impl` is the first word behind hashes and groups, which
/// are all that attributes are made of.
pub proof fn law_what_begins_an_impl_block(front: Seq<Token>, rest: Seq<Token>)
    requires
        forall|i: int|
            0 <= i < front.len() ==> (#[trigger] front[i]) is Group || (front[i] is Punct
                && front[i]->Punct_0 == '#'),
    ensures
        !begins_impl(front),
        rest.len() > 0 && rest[0] is Ident ==> (begins_impl(front + rest) <==> rest[0]->Ident_0
            == "impl"@),
        rest.len() > 0 && rest[0] is Literal ==> !begins_impl(front + rest),
        rest.len() > 0 && rest[0] is Punct && rest[0]->Punct_0 != '#' ==> !begins_impl(front + rest),
    decreases front.len(),
{
    let both = front + rest;
    if front.len() == 0 {
        assert(both =~= rest);
    } else {
        let next = front.skip(1);
        assert forall|i: int| 0 <= i < next.len() implies (#[trigger] next[i]) is Group || (
        next[i] is Punct && next[i]->Punct_0 == '#') by {
            assert(next[i] == front[i + 1]);
        }
        law_what_begins_an_impl_block(next, rest);
        assert(front[0] is Group || (front[0] is Punct && front[0]->Punct_0 == '#'));
        assert(both[0] == front[0]);
        assert(both.skip(1) =~= next + rest);
    }
}

/// What an impl block becomes: without arguments the block with its marked methods guarded, with
/// arguments that and then the trait impl and the public methods of the block. An error of the
/// arguments comes before one of the block.
pub proof fn law_expansion_of_a_block(args: Seq<Token>, input: Seq<Token>)
    requires
        begins_impl(input),
    ensures
        args.len() == 0 ==> expansion(args, input) == (match syn_impl_block(input) {
            Ok(block) => Ok::<Seq<Token>, Seq<char>>(block_tokens(guarded_block(block))),
            Err(message) => Err(message),
        }),
        args.len() > 0 && read_args(args) is Err ==> expansion(args, input) == Err::<
            Seq<Token>,
            Seq<char>,
        >(read_args(args)->Err_0),
        args.len() > 0 && read_args(args) is Ok && syn_impl_block(input) is Err ==> expansion(
            args,
            input,
        ) == Err::<Seq<Token>, Seq<char>>(syn_impl_block(input)->Err_0),
        args.len() > 0 && read_args(args) is Ok && syn_impl_block(input) is Ok ==> expansion(
            args,
            input,
        ) == Ok::<Seq<Token>, Seq<char>>(
            block_tokens(guarded_block(syn_impl_block(input)->Ok_0)) + trait_impl(
                syn_impl_block(input)->Ok_0,
                read_args(args)->Ok_0,
            ) + public_methods(syn_impl_block(input)->Ok_0, read_args(args)->Ok_0),
        ),
{
}

/// What anything else becomes: with arguments an error, and without the function with the guard of
/// the contract and all of its attributes, or the error of reading it.
pub proof fn law_expansion_of_a_function(args: Seq<Token>, input: Seq<Token>)
    requires
        !begins_impl(input),
    ensures
        args.len() > 0 ==> expansion(args, input) == Err::<Seq<Token>, Seq<char>>(
            "`#[trusted_relayer]` on methods does not accept arguments"@,
        ),
        args.len() == 0 && syn_function(input) is Ok ==> expansion(args, input) == Ok::<
            Seq<Token>,
            Seq<char>,
        >(guarded_method(syn_function(input)->Ok_0, lexed(GUARD@), true)),
        args.len() == 0 && syn_function(input) is Err ==> expansion(args, input) == Err::<
            Seq<Token>,
            Seq<char>,
        >(syn_function(input)->Err_0),
{
}

/// What is generated goes by the block as it was given: the trait impl and the public methods are
/// the same for two blocks with the same type, generics and where clause.
pub proof fn law_generated_code_goes_by_the_header(a: ImplView, b: ImplView, args: ArgsView)
    requires
        a.self_ty == b.self_ty,
        a.impl_generics == b.impl_generics,
        a.where_clause == b.where_clause,
    ensures
        trait_impl(a, args) == trait_impl(b, args),
        public_methods(a, args) == public_methods(b, args),
        expanded_block(a, args) == block_tokens(guarded_block(a)) + trait_impl(b, args)
            + public_methods(b, args),
{
}

/// A report is of one message only, and is a call of the macro for that with the message in braces.
pub proof fn law_reports_are_of_one_message(tokens: Seq<Token>, a: Seq<char>, b: Seq<char>)
    requires
        is_error_report(tokens, a),
    ensures
        is_error_report(tokens, b) ==> a == b,
        tokens.len() == 8,
        tokens[2] == Token::Ident("core"@),
        tokens[5] == Token::Ident("compile_error"@),
        tokens[6] == Token::Punct('!', false),
        tokens[7] is Group,
        tokens[7]->Group_0 == Delimiter::Brace,
        tokens[7]->Group_1.len() == 1,
        tokens[7]->Group_1[0] is Literal,
        string_value(tokens[7]->Group_1[0]->Literal_0) == Some(a),
{
    let front = tokens.take(7);
    assert(front[2] == tokens[2] && front[5] == tokens[5] && front[6] == tokens[6]);
}

/// What comes out is what is due, and a report where a fault is.
pub proof fn law_what_comes_out(
    tokens: Seq<Token>,
    due: Result<Seq<Token>, Seq<char>>,
    fault: Fault,
)
    ensures
        due is Ok ==> (comes_to(tokens, due) <==> tokens == due->Ok_0),
        due is Err ==> (comes_to(tokens, due) <==> is_error_report(tokens, due->Err_0)),
        fault@ == fault.message@,
        reports(Err::<(), Fault>(fault)) <==> is_error_report(
            tokens_of(fault.report),
            fault.message@,
        ),
        reports_later(Some(fault)) <==> is_error_report(tokens_of(fault.report), fault.message@),
        message_of(Some(fault)) == Some(fault.message@),
        message_of(None) is None,
{
}

// What is taken apart.

/// Methods and blocks are seen part by part.
pub proof fn law_source_seen_part_by_part(method: Method, block: ImplBlock, item: TypeItem)
    ensures
        method@.attrs == all_tokens(method.attrs@),
        method@.head == tokens_of(method.head),
        method@.body == tokens_of(method.body),
        block@.frame == tokens_of(block.frame),
        block@.items == all_tokens(block.items@),
        block@.self_ty == tokens_of(block.self_ty),
        block@.impl_generics == tokens_of(block.impl_generics),
        block@.where_clause == tokens_of(block.where_clause),
        item@.name == tokens_of(item.name),
        item@.impl_generics == tokens_of(item.impl_generics),
        item@.ty_generics == tokens_of(item.ty_generics),
        item@.where_clause == tokens_of(item.where_clause),
{
}

/// Variants are seen part by part: the name, and how many fields there are or by which names.
pub proof fn law_variants_seen_part_by_part(list: Vec<Variant>, i: int)
    ensures
        variants_of(None) is None,
        variants_of(Some(list)) is Some,
        variants_of(Some(list))->Some_0.len() == list@.len(),
        0 <= i < list@.len() ==> {
            let seen = variants_of(Some(list))->Some_0[i];
            &&& seen.ident == tokens_of(list@[i].ident)
            &&& list@[i].fields is Unit ==> seen.fields is Unit
            &&& list@[i].fields matches Fields::Unnamed(count) ==> seen.fields
                == FieldsView::Unnamed(count as nat)
            &&& list@[i].fields matches Fields::Named(names) ==> seen.fields == FieldsView::Named(
                all_tokens(names@),
            )
        },
{
}

/// Arguments are seen part by part.
pub proof fn law_arguments_seen_part_by_part(
    args: TrustedRelayerImplArgs,
    read: ReadParams,
    expressions: Expressions,
    i: int,
)
    ensures
        args@.manager_roles == all_tokens(args.manager_roles@),
        args@.config_roles == all_tokens(args.config_roles@),
        args@.custom_is_trusted_relayer == args.custom_is_trusted_relayer,
        args.bypass_roles is None ==> args@.bypass_roles is None,
        args.bypass_roles is Some ==> args@.bypass_roles == Some(
            all_tokens(args.bypass_roles->Some_0@),
        ),
        args_of(Ok(args)) == Ok::<ArgsView, Seq<char>>(args@),
        parse_of(Ok::<ReadParams, Fault>(read)) == Ok::<ReadView, Seq<char>>(read@),
        read@.leftover == message_of(read.leftover),
        read@.params.len() == read.params@.len(),
        0 <= i < read.params@.len() ==> match read.params@[i] {
            MacroParam::RoleList { name, roles } => read@.params[i] == (ParamView::RoleList {
                name: name.text@,
                roles: all_tokens(roles@),
            }),
            MacroParam::Flag(name) => read@.params[i] == ParamView::Flag(name.text@),
        },
        expressions@.list == all_tokens(expressions.list@),
        expressions@.leftover == message_of(expressions.leftover),
{
}

// Messages of error enums.

/// The fields of a variant are bound in the order in which they are given, each under its own name,
/// and the message labels each value with the name under which it is bound.
pub proof fn law_labels_are_those_of_the_values(fields: FieldsView, i: int)
    ensures
        field_names(fields).len() == field_idents(fields).len(),
        fields is Unit ==> field_idents(fields).len() == 0,
        fields matches FieldsView::Unnamed(count) ==> field_idents(fields).len() == count,
        fields matches FieldsView::Named(names) ==> field_idents(fields) == names,
        0 <= i < field_idents(fields).len() ==> ident_text(field_idents(fields)[i])
            == field_names(fields)[i],
        0 <= i < field_idents(fields).len() && fields is Unnamed ==> {
            let name = field_names(fields)[i];
            &&& field_idents(fields)[i] == seq![Token::Ident(name)]
            &&& name.len() > 5
            &&& name.take(5) == "field"@
            &&& stands_for(name.skip(5), (i + 1) as nat)
        },
{
    if 0 <= i < field_idents(fields).len() && fields is Unnamed {
        reveal_strlit("field");
        law_decimal_numeral((i + 1) as nat);
        let name = position_name(i);
        assert(name.take(5) =~= "field"@);
        assert(name.skip(5) =~= numeral((i + 1) as nat));
    }
    if let FieldsView::Named(names) = fields {
        assert(field_idents(fields) =~= names);
    }
}

/// The name that a single identifier holds is its text.
pub proof fn law_text_of_an_identifier(text: Seq<char>)
    ensures
        ident_text(seq![Token::Ident(text)]) == text,
{
}

/// A format string begins with the place of the message; each field more comes behind a comma, or
/// the first behind a colon, by its name, an equals sign and a place.
pub proof fn law_format_string_field_by_field(names: Seq<Seq<char>>, name: Seq<char>)
    ensures
        format_string(Seq::empty()) == seq!['{', '}'],
        format_string(names.push(name)) == format_string(names) + (if names.len() == 0 {
            seq![':', ' ']
        } else {
            seq![',', ' ']
        }) + name + seq!['=', '{', '}'],
{
    reveal_strlit("{}");
    reveal_strlit(": ");
    reveal_strlit(", ");
    reveal_strlit("={}");
    assert("{}"@ =~= seq!['{', '}']);
    let more = names.push(name);
    let parts = placeholders(more);
    assert(parts.drop_last() =~= placeholders(names));
    assert(parts.last() == name + "={}"@);
    if names.len() == 0 {
        assert(joined(parts, ", "@) == parts[0]);
    } else {
        assert(joined(parts, ", "@) == joined(placeholders(names), ", "@) + ", "@ + parts.last());
    }
    assert(format_string(more) =~= format_string(names) + (if names.len() == 0 {
        seq![':', ' ']
    } else {
        seq![',', ' ']
    }) + name + seq!['=', '{', '}']);
}

/// The arm of a variant is the template of its kind of fields, with its name, with its fields in
/// their order and commas between them, and with the literal of the format string that labels these
/// fields.
pub proof fn law_arm_of_a_variant(
    variant: VariantView,
    format: Seq<Token>,
    slots: Seq<(Seq<char>, Seq<Token>)>,
)
    requires
        forall|name: Seq<char>| #[trigger]
            slot_tokens(slots, name) == (if name == "variant"@ {
                Some(variant.ident)
            } else if name == "fields"@ {
                Some(joined(field_idents(variant.fields), seq![Token::Punct(',', false)]))
            } else if name == "format"@ {
                Some(format)
            } else {
                None
            }),
    ensures
        variant.fields is Unit ==> variant_arm(variant, format) == filled(lexed(UNIT_ARM@), slots),
        variant.fields is Unnamed ==> variant_arm(variant, format) == filled(
            lexed(UNNAMED_ARM@),
            slots,
        ),
        variant.fields is Named ==> variant_arm(variant, format) == filled(lexed(NAMED_ARM@), slots),
        is_format(variant, format) <==> format.len() == 1 && format[0] is Literal && string_value(
            format[0]->Literal_0,
        ) == Some(format_string(field_names(variant.fields))),
{
    let own = seq![
        ("variant"@, variant.ident),
        ("fields"@, joined(field_idents(variant.fields), seq![comma_token()])),
        ("format"@, format),
    ];
    reveal_strlit("variant");
    reveal_strlit("fields");
    reveal_strlit("format");
    assert("variant"@[0] == 'v' && "fields"@[1] == 'i' && "format"@[1] == 'o' && "fields"@[0] == 'f'
        && "format"@[0] == 'f');
    assert forall|name: Seq<char>| #[trigger] slot_tokens(own, name) == slot_tokens(
        slots,
        name,
    ) by {
        law_first_slot_counts(own, name, 0);
        law_first_slot_counts(own, name, 1);
        law_first_slot_counts(own, name, 2);
    }
    law_slots_decide(lexed(UNIT_ARM@), own, slots);
    law_slots_decide(lexed(UNNAMED_ARM@), own, slots);
    law_slots_decide(lexed(NAMED_ARM@), own, slots);
}

/// Every variant of an enum gets its arm, in the order of the variants, and the impls are their
/// template with the name and generics of the enum and with these arms, one after the other.
pub proof fn law_impls_of_an_enum(
    item: TypeView,
    variants: Seq<VariantView>,
    formats: Seq<Seq<Token>>,
    slots: Seq<(Seq<char>, Seq<Token>)>,
    i: int,
)
    requires
        forall|name: Seq<char>| #[trigger]
            slot_tokens(slots, name) == (if name == "impl_generics"@ {
                Some(item.impl_generics)
            } else if name == "name"@ {
                Some(item.name)
            } else if name == "ty_generics"@ {
                Some(item.ty_generics)
            } else if name == "where_clause"@ {
                Some(item.where_clause)
            } else if name == "arms"@ {
                Some(variant_arms(variants, formats).flatten())
            } else {
                None
            }),
    ensures
        variant_arms(variants, formats).len() == variants.len(),
        0 <= i < variants.len() ==> variant_arms(variants, formats)[i] == variant_arm(
            variants[i],
            formats[i],
        ),
        display_impls(item, variants, formats) == filled(lexed(DISPLAY_IMPLS@), slots),
        are_formats(variants, formats) <==> formats.len() == variants.len() && forall|k: int|
            0 <= k < variants.len() ==> is_format(variants[k], #[trigger] formats[k]),
{
    let own = seq![
        ("impl_generics"@, item.impl_generics),
        ("name"@, item.name),
        ("ty_generics"@, item.ty_generics),
        ("where_clause"@, item.where_clause),
        ("arms"@, variant_arms(variants, formats).flatten()),
    ];
    reveal_strlit("impl_generics");
    reveal_strlit("name");
    reveal_strlit("ty_generics");
    reveal_strlit("where_clause");
    reveal_strlit("arms");
    assert("impl_generics"@[0] == 'i' && "name"@[0] == 'n' && "ty_generics"@[0] == 't'
        && "where_clause"@[0] == 'w' && "arms"@[0] == 'a');
    assert forall|name: Seq<char>| #[trigger] slot_tokens(own, name) == slot_tokens(
        slots,
        name,
    ) by {
        law_first_slot_counts(own, name, 0);
        law_first_slot_counts(own, name, 1);
        law_first_slot_counts(own, name, 2);
        law_first_slot_counts(own, name, 3);
        law_first_slot_counts(own, name, 4);
    }
    law_slots_decide(lexed(DISPLAY_IMPLS@), own, slots);
}

/// Whether there is one string literal for each variant, and it stands for the format string that
/// labels the fields of that variant.
pub open spec fn label_the_fields(formats: Seq<Seq<Token>>, variants: Seq<VariantView>) -> bool {
    &&& formats.len() == variants.len()
    &&& forall|i: int|
        0 <= i < variants.len() ==> is_string(
            #[trigger] formats[i],
            format_string(field_names(variants[i].fields)),
        )
}

/// Whether tokens are the impls of an enum with such literals.
pub open spec fn are_impls(tokens: Seq<Token>, item: TypeView, variants: Seq<VariantView>) -> bool {
    exists|formats: Seq<Seq<Token>>| #[trigger]
        label_the_fields(formats, variants) && tokens == display_impls(item, variants, formats)
}

/// What is derived is an error for anything but an enum, and for an enum the impls with a format
/// string for each of its variants.
pub proof fn law_what_is_derived(tokens: Seq<Token>, item: TypeView, variants: Seq<VariantView>)
    ensures
        is_error_display(tokens, item, None) <==> is_error_report(
            tokens,
            "ErrorDisplay can only be derived for enums"@,
        ),
        is_error_display(tokens, item, Some(variants)) <==> are_impls(tokens, item, variants),
{
    if is_error_display(tokens, item, Some(variants)) {
        let formats = choose|formats: Seq<Seq<Token>>| #[trigger]
            are_formats(variants, formats) && tokens == display_impls(item, variants, formats);
        assert forall|i: int| 0 <= i < variants.len() implies is_string(
            #[trigger] formats[i],
            format_string(field_names(variants[i].fields)),
        ) by {
            assert(is_format(variants[i], formats[i]));
        }
        assert(label_the_fields(formats, variants));
        assert(tokens == display_impls(item, variants, formats));
        assert(are_impls(tokens, item, variants));
    }
    if are_impls(tokens, item, variants) {
        let formats = choose|formats: Seq<Seq<Token>>| #[trigger]
            label_the_fields(formats, variants) && tokens == display_impls(item, variants, formats);
        assert forall|i: int| 0 <= i < variants.len() implies is_format(
            variants[i],
            #[trigger] formats[i],
        ) by {}
        let given = Some(variants);
        assert(are_formats(given->Some_0, formats));
        assert(is_error_display(tokens, item, given));
    }
}

} // verus!
