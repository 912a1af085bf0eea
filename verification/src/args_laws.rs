//! What the arguments of `#[trusted_relayer(...)]` mean, and what is said of those that are refused.

use crate::macro_args::{collected, fault, first_fault, list_named, opened, params_in};
use crate::macro_args::{is_comma, leading_param, read_args, read_params, role_tokens};
use crate::macro_args::{ParamView, ReadView};
use crate::macro_laws::law_list_is_the_last_of_its_name;
use crate::syntax::{syn_expressions, syn_identifier};
use crate::tokens::{Delimiter, Token};
use vstd::prelude::*;

verus! {

// Reading.

/// Groups without delimiters open one by one: two lists of tokens that are put end to end give what
/// each gives, and a group that holds nothing counts only where it is the last of all and is kept.
pub proof fn law_opening_groups(a: Seq<Token>, b: Seq<Token>, kept: bool)
    ensures
        b.len() > 0 ==> opened(a + b, kept) == opened(a, false) + opened(b, kept),
        opened(Seq::empty(), kept) == Seq::<Token>::empty(),
        a.len() == 1 && !(a[0] is Group && a[0]->Group_0 == Delimiter::Invisible) ==> opened(a, kept)
            == a,
        a.len() == 1 && a[0] is Group && a[0]->Group_0 == Delimiter::Invisible
            && a[0]->Group_1.len() > 0 ==> opened(a, kept) == opened(a[0]->Group_1, kept),
        a.len() == 1 && a[0] is Group && a[0]->Group_0 == Delimiter::Invisible
            && a[0]->Group_1.len() == 0 ==> opened(a, kept) == (if kept {
            a
        } else {
            Seq::empty()
        }),
    decreases a.len(),
{
    let both = a + b;
    if a.len() == 0 {
        assert(both =~= b);
        assert(opened(a, false) + opened(b, kept) =~= opened(b, kept));
    } else {
        let rest = a.subrange(1, a.len() as int);
        if b.len() > 0 {
            law_opening_groups(rest, b, kept);
            assert(both[0] == a[0]);
            assert(both.subrange(1, both.len() as int) =~= rest + b);
            assert(opened(both, kept) =~= opened(a, false) + opened(b, kept));
        }
        if a.len() == 1 {
            assert(rest =~= Seq::empty());
            assert(opened(rest, kept) =~= Seq::empty());
            if a[0] is Group && a[0]->Group_0 == Delimiter::Invisible {
                let contents = a[0]->Group_1;
                if contents.len() > 0 {
                    assert(opened(a, kept) =~= opened(contents, kept));
                } else {
                    assert(opened(contents, kept) =~= Seq::empty());
                    assert(opened(a, kept) =~= if kept {
                        a
                    } else {
                        Seq::empty()
                    });
                }
            } else {
                assert(opened(a, kept) =~= a);
            }
        }
    }
}

/// Tokens without such groups are read as they are.
pub proof fn law_nothing_to_open(tokens: Seq<Token>, kept: bool)
    requires
        forall|i: int|
            0 <= i < tokens.len() ==> !((#[trigger] tokens[i]) is Group && tokens[i]->Group_0
                == Delimiter::Invisible),
    ensures
        opened(tokens, kept) == tokens,
        read_params(tokens) == params_in(tokens),
    decreases tokens.len(),
{
    if tokens.len() > 0 {
        let rest = tokens.subrange(1, tokens.len() as int);
        assert forall|i: int| 0 <= i < rest.len() implies !((#[trigger] rest[i]) is Group
            && rest[i]->Group_0 == Delimiter::Invisible) by {
            assert(rest[i] == tokens[i + 1]);
        }
        law_nothing_to_open(rest, kept);
        law_nothing_to_open(rest, true);
        assert(!(tokens[0] is Group && tokens[0]->Group_0 == Delimiter::Invisible));
        assert(opened(tokens, kept) =~= tokens);
        assert(opened(tokens, true) =~= tokens);
    }
}

/// One argument is a flag where nothing stands behind its name, and a list of roles where
/// parentheses do: under that name, with the roles that stand in them.
pub proof fn law_reading_one_argument(word: Token, contents: Seq<Token>)
    ensures
        ({
            let alone = params_in(seq![word]);
            let list = params_in(seq![word, Token::Group(Delimiter::Parenthesis, contents)]);
            match syn_identifier(seq![word]) {
                Err(message) => alone == Err::<ReadView, Seq<char>>(message) && list == Err::<
                    ReadView,
                    Seq<char>,
                >(message),
                Ok(name) => {
                    &&& alone is Ok
                    &&& alone->Ok_0.params == seq![ParamView::Flag(name)]
                    &&& alone->Ok_0.leftover is None
                    &&& match syn_expressions(contents) {
                        Err(message) => list == Err::<ReadView, Seq<char>>(message),
                        Ok(read) => {
                            &&& list is Ok
                            &&& list->Ok_0.params == seq![
                                ParamView::RoleList { name, roles: read.list },
                            ]
                            &&& list->Ok_0.leftover == read.leftover
                        },
                    }
                },
            }
        }),
{
    let alone = seq![word];
    let list = seq![word, Token::Group(Delimiter::Parenthesis, contents)];
    assert(alone[0] == word && list[0] == word);
    assert(role_tokens(alone) is None);
    assert(role_tokens(list) == Some(contents));
    assert(seq![alone[0]] =~= seq![word] && seq![list[0]] =~= seq![word]);
}

/// Arguments with a comma between them are read one after the other: all of both come out in order,
/// the first fault ends the reading, and of faults that are put off the first counts.
pub proof fn law_reading_on(a: Seq<Token>, comma: Token, b: Seq<Token>)
    requires
        a.len() > 0,
        !is_comma(a.last()),
        is_comma(comma),
    ensures
        params_in(a) is Err ==> params_in(a.push(comma) + b) == params_in(a),
        params_in(a) is Ok && params_in(b) is Err ==> params_in(a.push(comma) + b) == params_in(b),
        params_in(a) is Ok && params_in(b) is Ok ==> {
            let both = params_in(a.push(comma) + b);
            let first = params_in(a)->Ok_0;
            let second = params_in(b)->Ok_0;
            &&& both is Ok
            &&& both->Ok_0.params == first.params + second.params
            &&& both->Ok_0.leftover == (if first.leftover is Some {
                first.leftover
            } else {
                second.leftover
            })
        },
    decreases a.len(),
{
    let all = a.push(comma) + b;
    assert(all[0] == a[0]);
    assert(role_tokens(all) == role_tokens(a)) by {
        if a.len() >= 2 {
            assert(all[1] == a[1]);
        } else {
            assert(all[1] == comma);
        }
    }
    assert(leading_param(all) == leading_param(a));
    if let Ok((param, used, leftover)) = leading_param(a) {
        if a.len() <= used {
            assert(a.len() == used);
            assert(all[used] == comma);
            assert(all.skip(used + 1) =~= b);
            assert(params_in(a) == Ok::<ReadView, Seq<char>>(
                ReadView { params: seq![param], leftover },
            ));
        } else {
            assert(all[used] == a[used]);
            if is_comma(a[used]) {
                let rest = a.skip(used + 1);
                assert(used < a.len() - 1);
                assert(rest.last() == a.last());
                assert(all.skip(used + 1) =~= rest.push(comma) + b);
                law_reading_on(rest, comma, b);
                if params_in(rest) is Ok && params_in(b) is Ok {
                    let more = params_in(rest)->Ok_0.params;
                    let last = params_in(b)->Ok_0.params;
                    assert(seq![param] + (more + last) =~= seq![param] + more + last);
                }
            }
        }
    }
}

/// An argument that cannot be read ends the reading with its own fault, whatever stands behind it.
pub proof fn law_bad_argument_ends_the_reading(word: Token, contents: Seq<Token>, rest: Seq<Token>)
    ensures
        syn_identifier(seq![word]) is Err ==> params_in(seq![word] + rest) == Err::<
            ReadView,
            Seq<char>,
        >(syn_identifier(seq![word])->Err_0),
        syn_identifier(seq![word]) is Ok && syn_expressions(contents) is Err ==> params_in(
            seq![word, Token::Group(Delimiter::Parenthesis, contents)] + rest,
        ) == Err::<ReadView, Seq<char>>(syn_expressions(contents)->Err_0),
        params_in(Seq::empty()) is Ok,
        params_in(Seq::empty())->Ok_0.params.len() == 0,
        params_in(Seq::empty())->Ok_0.leftover is None,
{
    let one = seq![word] + rest;
    let two = seq![word, Token::Group(Delimiter::Parenthesis, contents)] + rest;
    assert(one[0] == word && two[0] == word);
    assert(two[1] == Token::Group(Delimiter::Parenthesis, contents));
    assert(role_tokens(two) == Some(contents));
}

/// Behind an argument only a comma can go on.
pub proof fn law_only_a_comma_goes_on(word: Token, contents: Seq<Token>, rest: Seq<Token>)
    requires
        rest.len() > 0,
        !is_comma(rest[0]),
        syn_identifier(seq![word]) is Ok,
    ensures
        !(rest[0] is Group && rest[0]->Group_0 == Delimiter::Parenthesis) ==> params_in(
            seq![word] + rest,
        ) == Err::<ReadView, Seq<char>>("expected `,`"@),
        syn_expressions(contents) is Ok ==> params_in(
            seq![word, Token::Group(Delimiter::Parenthesis, contents)] + rest,
        ) == Err::<ReadView, Seq<char>>("expected `,`"@),
        is_comma(Token::Punct(',', true)) && is_comma(Token::Punct(',', false)),
{
    let one = seq![word] + rest;
    let two = seq![word, Token::Group(Delimiter::Parenthesis, contents)] + rest;
    assert(one[0] == word && two[0] == word);
    assert(one[1] == rest[0]);
    assert(two[1] == Token::Group(Delimiter::Parenthesis, contents));
    assert(two[2] == rest[0]);
    assert(role_tokens(two) == Some(contents));
}

/// A fault of reading comes first, then one of the set of arguments, and one that was put off last;
/// without any of these the arguments are accepted.
pub proof fn law_which_fault_counts(tokens: Seq<Token>)
    ensures
        read_params(tokens) is Err ==> read_args(tokens) is Err && read_args(tokens)->Err_0
            == read_params(tokens)->Err_0,
        read_params(tokens) is Ok ==> {
            let read = read_params(tokens)->Ok_0;
            &&& collected(read.params) is Err ==> read_args(tokens) == collected(read.params)
            &&& collected(read.params) is Ok && read.leftover is None ==> read_args(tokens)
                == collected(read.params)
            &&& collected(read.params) is Ok && read.leftover is Some ==> read_args(tokens) is Err
                && read_args(tokens)->Err_0 == read.leftover->Some_0
        },
{
}

// What arguments mean.

/// Whether the argument at a place is a list of roles of that name.
pub open spec fn lists(params: Seq<ParamView>, i: int, name: Seq<char>) -> bool {
    0 <= i < params.len() && params[i] is RoleList && params[i]->RoleList_name == name
}

/// Whether arguments have known names only and no list twice.
pub open spec fn well_named(params: Seq<ParamView>) -> bool {
    &&& forall|i: int|
        0 <= i < params.len() ==> match #[trigger] params[i] {
            ParamView::RoleList { name, .. } => name == "bypass_roles"@ || name == "manager_roles"@
                || name == "config_roles"@,
            ParamView::Flag(name) => name == "custom_is_trusted_relayer"@,
        }
    &&& forall|i: int, j: int, name: Seq<char>| #[trigger]
        lists(params, i, name) && #[trigger] lists(params, j, name) ==> i == j
}

/// Where no argument up to a place has a fault, the first fault is looked for from there on.
proof fn lemma_no_fault_before(params: Seq<ParamView>, from: int, i: int)
    requires
        0 <= from <= i <= params.len(),
        forall|k: int| from <= k < i ==> #[trigger] fault(params, k) is None,
    ensures
        first_fault(params, from) == first_fault(params, i),
    decreases i - from,
{
    if from < i {
        assert(fault(params, from) is None);
        lemma_no_fault_before(params, from + 1, i);
    }
}

/// Arguments in front of a place that are well named have no fault.
proof fn lemma_well_named_front(params: Seq<ParamView>, i: int)
    requires
        0 <= i <= params.len(),
        well_named(params.take(i)),
    ensures
        first_fault(params, 0) == first_fault(params, i),
        forall|name: Seq<char>|
            (#[trigger] list_named(params.take(i), name) is None) <==> forall|k: int|
                0 <= k < i ==> !(#[trigger] lists(params, k, name)),
{
    let front = params.take(i);
    assert forall|k: int| 0 <= k < i implies #[trigger] fault(params, k) is None by {
        assert(front[k] == params[k]);
        if let ParamView::RoleList { name, .. } = params[k] {
            law_list_is_the_last_of_its_name(params.take(k), name);
            assert(lists(front, k, name));
            assert forall|m: int| 0 <= m < k implies !((#[trigger] params.take(k)[m]) is RoleList
                && params.take(k)[m]->RoleList_name == name) by {
                assert(params.take(k)[m] == front[m]);
                if front[m] is RoleList && front[m]->RoleList_name == name {
                    assert(lists(front, m, name));
                }
            }
        }
    }
    lemma_no_fault_before(params, 0, i);
    assert forall|name: Seq<char>| (#[trigger] list_named(front, name) is None) <==> forall|k: int|
        0 <= k < i ==> !(#[trigger] lists(params, k, name)) by {
        law_list_is_the_last_of_its_name(front, name);
        if list_named(front, name) is None {
            assert forall|k: int| 0 <= k < i implies !(#[trigger] lists(params, k, name)) by {
                assert(front[k] == params[k]);
            }
        }
        if forall|k: int| 0 <= k < i ==> !(#[trigger] lists(params, k, name)) {
            assert forall|k: int| 0 <= k < front.len() implies !((#[trigger] front[k]) is RoleList
                && front[k]->RoleList_name == name) by {
                assert(!lists(params, k, name));
                assert(front[k] == params[k]);
            }
        }
    }
}

/// The first argument with an unknown name, or with the name of a list that came before, is what
/// arguments are refused for, and the message gives its name.
pub proof fn law_first_faulty_argument(params: Seq<ParamView>, i: int)
    requires
        0 <= i < params.len(),
        well_named(params.take(i)),
    ensures
        params[i] matches ParamView::RoleList { name, .. } ==> {
            let known = name == "bypass_roles"@ || name == "manager_roles"@ || name
                == "config_roles"@;
            &&& !known ==> collected(params) is Err && collected(params)->Err_0
                == "unknown parameter `"@ + name
                + "`, expected `bypass_roles`, `manager_roles`, `config_roles`, or `custom_is_trusted_relayer`"@
            &&& known && (exists|k: int| 0 <= k < i && #[trigger] lists(params, k, name))
                ==> collected(params) is Err && collected(params)->Err_0 == "duplicate `"@ + name
                + "`"@
        },
        params[i] matches ParamView::Flag(name) ==> name != "custom_is_trusted_relayer"@
            ==> collected(params) is Err && collected(params)->Err_0 == "unknown flag `"@ + name
            + "`, expected `custom_is_trusted_relayer`"@,
{
    lemma_well_named_front(params, i);
}

/// Arguments without such a fault are refused where no managers are named, and else where both
/// bypass roles and a decision of the contract's own are; and only there.
pub proof fn law_accepted_exactly_where(params: Seq<ParamView>)
    requires
        well_named(params),
    ensures
        ({
            let managers = exists|i: int| #[trigger] lists(params, i, "manager_roles"@);
            let bypass = exists|i: int| #[trigger] lists(params, i, "bypass_roles"@);
            let custom = exists|i: int|
                0 <= i < params.len() && #[trigger] params[i] == ParamView::Flag(
                    "custom_is_trusted_relayer"@,
                );
            &&& collected(params) is Ok <==> managers && !(bypass && custom)
            &&& !managers ==> collected(params)->Err_0
                == "`manager_roles(...)` is required for `#[trusted_relayer]` on impl blocks"@
            &&& managers && bypass && custom ==> collected(params)->Err_0
                == "`custom_is_trusted_relayer` and `bypass_roles` are mutually exclusive"@
        }),
{
    let n = params.len() as int;
    assert(params.take(n) =~= params);
    lemma_well_named_front(params, n);
    assert(list_named(params.take(n), "manager_roles"@) == list_named(params, "manager_roles"@));
    assert(list_named(params.take(n), "bypass_roles"@) == list_named(params, "bypass_roles"@));
    if exists|i: int| #[trigger] lists(params, i, "manager_roles"@) {
        let i = choose|i: int| #[trigger] lists(params, i, "manager_roles"@);
        assert(0 <= i < n);
    }
    if exists|i: int| #[trigger] lists(params, i, "bypass_roles"@) {
        let i = choose|i: int| #[trigger] lists(params, i, "bypass_roles"@);
        assert(0 <= i < n);
    }
}

/// Arguments with a fault are never accepted.
pub proof fn law_faulty_arguments_are_refused(params: Seq<ParamView>)
    ensures
        collected(params) is Ok ==> well_named(params),
{
    if collected(params) is Ok {
        crate::macro_args::law_faultless(params);
        assert forall|i: int, j: int, name: Seq<char>| #[trigger]
            lists(params, i, name) && #[trigger] lists(params, j, name) implies i == j by {
            assert(crate::macro_args::is_list(params, i, name));
            assert(crate::macro_args::is_list(params, j, name));
        }
    }
}

/// What accepted arguments mean is what is given: the roles of each list under its name, the
/// managers for the configuration where no others are named, no bypass roles where none are named,
/// and a decision of the contract's own exactly where the flag is given.
pub proof fn law_accepted_arguments_are_those_given(params: Seq<ParamView>, i: int)
    requires
        collected(params) is Ok,
    ensures
        ({
            let args = collected(params)->Ok_0;
            &&& lists(params, i, "manager_roles"@) ==> args.manager_roles
                == params[i]->RoleList_roles
            &&& lists(params, i, "bypass_roles"@) ==> args.bypass_roles == Some(
                params[i]->RoleList_roles,
            )
            &&& lists(params, i, "config_roles"@) ==> args.config_roles
                == params[i]->RoleList_roles
            &&& (forall|k: int| !(#[trigger] lists(params, k, "bypass_roles"@)))
                ==> args.bypass_roles is None
            &&& (forall|k: int| !(#[trigger] lists(params, k, "config_roles"@)))
                ==> args.config_roles == args.manager_roles
            &&& args.custom_is_trusted_relayer <==> exists|k: int|
                0 <= k < params.len() && #[trigger] params[k] == ParamView::Flag(
                    "custom_is_trusted_relayer"@,
                )
        }),
{
    law_faulty_arguments_are_refused(params);
    lemma_only_list(params, "manager_roles"@, i);
    lemma_only_list(params, "bypass_roles"@, i);
    lemma_only_list(params, "config_roles"@, i);
}

/// In well named arguments the list of a name is the one that is found.
proof fn lemma_only_list(params: Seq<ParamView>, name: Seq<char>, i: int)
    requires
        well_named(params),
    ensures
        lists(params, i, name) ==> list_named(params, name) == Some(params[i]->RoleList_roles),
        (forall|k: int| !(#[trigger] lists(params, k, name))) ==> list_named(params, name) is None,
{
    law_list_is_the_last_of_its_name(params, name);
    if lists(params, i, name) {
        assert(params[i] is RoleList && params[i]->RoleList_name == name);
        let roles = list_named(params, name)->Some_0;
        let k = choose|k: int|
            0 <= k < params.len() && #[trigger] params[k] == (ParamView::RoleList { name, roles })
                && forall|m: int|
                k < m < params.len() ==> !((#[trigger] params[m]) is RoleList
                    && params[m]->RoleList_name == name);
        assert(lists(params, k, name));
        assert(k == i);
    }
    if forall|k: int| !(#[trigger] lists(params, k, name)) {
        assert forall|k: int| 0 <= k < params.len() implies !((#[trigger] params[k]) is RoleList
            && params[k]->RoleList_name == name) by {
            assert(!lists(params, k, name));
        }
    }
}

} // verus!
