use omni_utils_core::macro_args::{parse_params, MacroParam, TrustedRelayerImplArgs};
use omni_utils_core::relayer_macro::{
    is_impl_block, is_trusted_relayer_attr, process_fn, process_impl_block,
    process_impl_block_guard_only, trusted_relayer,
};
use omni_utils_core::templates::{
    BYPASS_METHOD, DISPLAY_IMPLS, GUARD as GUARD_TEMPLATE, NAMED_ARM, PUBLIC_METHODS, ROLE_GUARD,
    ROLE_NAME, TRAIT_IMPL, UNIT_ARM, UNNAMED_ARM,
};
use proc_macro2::{Delimiter, Group, Spacing, TokenStream, TokenTree};
use quote::ToTokens;

fn tokens(text: &str) -> TokenStream {
    text.parse().unwrap()
}

/// The tokens one by one, with the delimiters of groups.
fn flat(stream: TokenStream) -> Vec<String> {
    let mut out = Vec::new();
    for tree in stream {
        match tree {
            TokenTree::Group(group) => {
                out.push(format!("{:?}(", group.delimiter()));
                out.extend(flat(group.stream()));
                out.push(")".to_string());
            }
            other => out.push(other.to_string()),
        }
    }
    out
}

/// The tokens one by one, with the delimiters of groups and the spacing of punctuation.
fn spaced(stream: TokenStream) -> Vec<String> {
    let mut out = Vec::new();
    for tree in stream {
        match tree {
            TokenTree::Group(group) => {
                out.push(format!("{:?}(", group.delimiter()));
                out.extend(spaced(group.stream()));
                out.push(")".to_string());
            }
            TokenTree::Punct(punct) => out.push(format!("{} {:?}", punct, punct.spacing())),
            other => out.push(other.to_string()),
        }
    }
    out
}

/// The stream in a group without delimiters, as a macro hands on what it has matched.
fn handed_on(text: &str) -> TokenStream {
    TokenTree::Group(Group::new(Delimiter::None, tokens(text))).into()
}

fn assert_tokens(found: TokenStream, expected: &str) {
    assert_eq!(flat(found), flat(tokens(expected)));
}

/// The message that the expansion has the compiler report.
fn reported(stream: TokenStream) -> String {
    let call: syn::Macro = syn::parse2(stream).unwrap();
    let message: syn::LitStr = syn::parse2(call.tokens).unwrap();
    message.value()
}

fn args_error(args: &str) -> String {
    let message = TrustedRelayerImplArgs::parse(&tokens(args)).err().expect("an error").message;
    assert_eq!(
        reported(trusted_relayer(&tokens(args), &tokens("impl Contract {}"))),
        message
    );
    message
}

fn names(roles: &[TokenStream]) -> Vec<String> {
    roles.iter().map(|role| role.to_string().replace(' ', "")).collect()
}

const GUARD: &str = "
    ::near_sdk::require!(
        <Self as ::omni_utils::trusted_relayer::TrustedRelayer>::is_trusted_relayer(
            self,
            &::near_sdk::env::predecessor_account_id(),
        ),
        \"Relayer is not active\"
    );
";

const SPECIAL_GUARD: &str = "
    ::near_sdk::require!(
        ::near_plugins::AccessControllable::acl_has_any_role(
            self,
            ::std::vec![
                <_ as ::core::convert::Into<String>>::into(Role::Special),
                <_ as ::core::convert::Into<String>>::into(Role::Other)
            ],
            ::near_sdk::env::predecessor_account_id(),
        ) || ::omni_utils::trusted_relayer::tr_relayers_map()
            .get(&::near_sdk::env::predecessor_account_id())
            .is_some_and(|state| {
                ::near_sdk::env::block_timestamp() >= state.activate_at.0
            }),
        \"Relayer is not active\"
    );
";

/// The public methods with what differs from one contract to the other filled in.
fn public_methods(header: &str, managers: &str, config: &str) -> String {
    let text = "
#[::near_sdk::near]
HEADER {
    pub fn is_trusted_relayer(
        &self,
        account_id: &::near_sdk::AccountId,
    ) -> bool {
        <Self as ::omni_utils::trusted_relayer::TrustedRelayer>::is_trusted_relayer(
            self,
            account_id,
        )
    }

    #[payable]
    pub fn apply_for_trusted_relayer(&mut self) {
        <Self as ::omni_utils::trusted_relayer::TrustedRelayer>::_tr_apply(self);
    }

    pub fn resign_trusted_relayer(&mut self) -> ::near_sdk::Promise {
        <Self as ::omni_utils::trusted_relayer::TrustedRelayer>::_tr_resign(self)
    }

    #[::near_plugins::access_control_any(roles(MANAGERS))]
    pub fn reject_relayer_application(
        &mut self,
        account_id: ::near_sdk::AccountId,
    ) -> ::near_sdk::Promise {
        <Self as ::omni_utils::trusted_relayer::TrustedRelayer>::_tr_reject(
            self,
            account_id,
        )
    }

    #[::near_plugins::access_control_any(roles(CONFIG))]
    pub fn set_relayer_config(
        &mut self,
        stake_required: ::near_sdk::NearToken,
        waiting_period_ns: ::near_sdk::json_types::U64,
    ) {
        <Self as ::omni_utils::trusted_relayer::TrustedRelayer>::_tr_set_config(
            self,
            stake_required,
            waiting_period_ns,
        );
    }

    #[must_use]
    pub fn get_relayer_application(
        &self,
        account_id: &::near_sdk::AccountId,
    ) -> Option<::omni_utils::trusted_relayer::RelayerState> {
        <Self as ::omni_utils::trusted_relayer::TrustedRelayer>::_tr_get_application(
            self,
            account_id,
        )
    }

    #[must_use]
    pub fn get_relayer_stake(
        &self,
        account_id: &::near_sdk::AccountId,
    ) -> Option<::near_sdk::json_types::U128> {
        <Self as ::omni_utils::trusted_relayer::TrustedRelayer>::_tr_get_stake(
            self,
            account_id,
        )
    }

    #[must_use]
    pub fn get_relayer_config(
        &self,
    ) -> ::omni_utils::trusted_relayer::RelayerConfig {
        <Self as ::omni_utils::trusted_relayer::TrustedRelayer>::_tr_get_config(self)
    }

    #[must_use]
    pub fn get_active_relayers(
        &self,
        from_index: Option<u32>,
        limit: Option<u32>,
    ) -> Vec<(::near_sdk::AccountId, ::omni_utils::trusted_relayer::RelayerState)> {
        <Self as ::omni_utils::trusted_relayer::TrustedRelayer>::_tr_get_active_relayers(
            self,
            from_index,
            limit,
        )
    }

    #[must_use]
    pub fn get_pending_relayers(
        &self,
        from_index: Option<u32>,
        limit: Option<u32>,
    ) -> Vec<(::near_sdk::AccountId, ::omni_utils::trusted_relayer::RelayerState)> {
        <Self as ::omni_utils::trusted_relayer::TrustedRelayer>::_tr_get_pending_relayers(
            self,
            from_index,
            limit,
        )
    }
}";
    text.replace("HEADER", header)
        .replace("MANAGERS", managers)
        .replace("CONFIG", config)
}

#[test]
fn block_with_all_arguments() {
    let args = tokens(
        "manager_roles(Role::Admin, Role::RelayerManager),
         config_roles(Role::Admin),
         bypass_roles(Role::Relayer),",
    );
    let input = tokens(
        "#[near]
         impl Contract {
             #[init]
             pub fn new() -> Self { Self { value: 0 } }

             #[payable]
             #[trusted_relayer]
             pub fn relayer_only_method(&mut self) -> u64 { self.value += 1; self.value }

             pub const LIMIT: u64 = 3;
         }",
    );
    let guarded = "
        #[near]
        impl Contract {
            #[init]
            pub fn new() -> Self { Self { value: 0 } }

            #[payable]
            pub fn relayer_only_method(&mut self) -> u64 { GUARD self.value += 1; self.value }

            pub const LIMIT: u64 = 3;
        }
        impl ::omni_utils::trusted_relayer::TrustedRelayer for Contract {
            fn is_trusted_relayer(&self, account_id: &::near_sdk::AccountId) -> bool {
                if ::near_plugins::AccessControllable::acl_has_any_role(
                    self,
                    ::std::vec![<_ as ::core::convert::Into<String>>::into(Role::Relayer)],
                    account_id.clone(),
                ) {
                    return true;
                }

                ::omni_utils::trusted_relayer::tr_relayers_map()
                    .get(account_id)
                    .is_some_and(|state| {
                        ::near_sdk::env::block_timestamp() >= state.activate_at.0
                    })
            }
        }";
    let expected = guarded.replace("GUARD", GUARD)
        + &public_methods("impl Contract", "Role::Admin, Role::RelayerManager", "Role::Admin");
    let found = trusted_relayer(&args, &input);
    syn::parse2::<syn::File>(found.clone()).expect("items");
    assert_tokens(found, &expected);
    assert_tokens(process_impl_block(&args, &input), &expected);
}

#[test]
fn block_with_managers_only() {
    let expected = "
        impl<T: Clone> Contract<T> where T: Default {}
        impl<T: Clone> ::omni_utils::trusted_relayer::TrustedRelayer for Contract<T> where T: Default {
        }"
    .to_string()
        + &public_methods("impl<T: Clone> Contract<T> where T: Default", "Role::Dao", "Role::Dao");
    assert_tokens(
        trusted_relayer(
            &tokens("manager_roles(Role::Dao)"),
            &tokens("impl<T: Clone> Contract<T> where T: Default {}"),
        ),
        &expected,
    );
}

#[test]
fn block_with_a_decision_of_its_own() {
    let expected =
        "impl Contract {}".to_string() + &public_methods("impl Contract", "Role::Admin", "Role::Admin");
    assert_tokens(
        trusted_relayer(
            &tokens("manager_roles(Role::Admin), custom_is_trusted_relayer"),
            &tokens("impl Contract {}"),
        ),
        &expected,
    );
}

#[test]
fn method_with_roles_of_its_own() {
    let input = tokens(
        "impl Contract {
            #[trusted_relayer(bypass_roles(Role::Special, Role::Other))]
            pub fn special(&mut self) { self.value += 100; }
            #[trusted_relayer(something_else)]
            fn odd(&self) {}
        }",
    );
    let expected = "impl Contract {
            pub fn special(&mut self) { SPECIAL self.value += 100; }
            fn odd(&self) { GUARD }
        }"
    .replace("SPECIAL", SPECIAL_GUARD)
    .replace("GUARD", GUARD);
    assert_tokens(trusted_relayer(&TokenStream::new(), &input), &expected);
}

#[test]
fn block_without_arguments_gets_guards_only() {
    let input = tokens(
        "#[allow(unused)]
         impl<'a, T> Guarded for Contract<'a, T> where T: Copy {
             #![allow(dead_code)]
             type Item = u8;
             fn open(&self) -> u8 { 1 }
             #[first]
             #[trusted_relayer]
             #[last = \"x\"]
             async fn shut(&mut self, n: u8) -> u8 { #![inner] n }
             #[other::trusted_relayer]
             fn not_this_one(&self) {}
         }",
    );
    let expected = "
         #[allow(unused)]
         impl<'a, T> Guarded for Contract<'a, T> where T: Copy {
             #![allow(dead_code)]
             type Item = u8;
             fn open(&self) -> u8 { 1 }
             #[first]
             #[last = \"x\"]
             async fn shut(&mut self, n: u8) -> u8 { #![inner] GUARD n }
             #[other::trusted_relayer]
             fn not_this_one(&self) {}
         }"
    .replace("GUARD", GUARD);
    let found = trusted_relayer(&TokenStream::new(), &input);
    syn::parse2::<syn::ItemImpl>(found.clone()).expect("an impl block");
    assert_tokens(found, &expected);
    assert_tokens(process_impl_block_guard_only(&input), &expected);
}

#[test]
fn unmarked_block_stays_as_it_is() {
    let text = "impl Contract { pub fn a(&self) -> u8 { 1 } const B: u8 = 2; }";
    assert_tokens(trusted_relayer(&TokenStream::new(), &tokens(text)), text);
}

#[test]
fn function_gets_the_guard() {
    let input = tokens("#[payable] pub fn relay(&mut self) -> u64 { self.value += 1; self.value }");
    let expected = "#[payable] pub fn relay(&mut self) -> u64 { GUARD self.value += 1; self.value }"
        .replace("GUARD", GUARD);
    assert_tokens(trusted_relayer(&TokenStream::new(), &input), &expected);
    assert_tokens(process_fn(&input), &expected);
}

#[test]
fn function_by_itself_takes_no_arguments() {
    assert_eq!(
        reported(trusted_relayer(
            &tokens("bypass_roles(Role::Relayer)"),
            &tokens("fn relay(&mut self) {}")
        )),
        "`#[trusted_relayer]` on methods does not accept arguments"
    );
}

#[test]
fn items_that_cannot_be_read_are_reported() {
    assert_eq!(
        reported(trusted_relayer(&TokenStream::new(), &tokens("impl Contract"))),
        "unexpected end of input, expected curly braces"
    );
    assert_eq!(
        reported(trusted_relayer(&tokens("manager_roles(A)"), &tokens("impl Contract"))),
        "unexpected end of input, expected curly braces"
    );
    assert_eq!(
        reported(trusted_relayer(&TokenStream::new(), &tokens("struct Contract;"))),
        "expected `fn`"
    );
}

#[test]
fn faulty_arguments_are_reported() {
    assert_eq!(
        args_error("custom_is_trusted_relayer"),
        "`manager_roles(...)` is required for `#[trusted_relayer]` on impl blocks"
    );
    assert_eq!(
        args_error("manager_roles(A), bypass_roles(B), bypass_roles(C)"),
        "duplicate `bypass_roles`"
    );
    assert_eq!(
        args_error("manager_roles(A), manager_roles(A)"),
        "duplicate `manager_roles`"
    );
    assert_eq!(
        args_error("config_roles(A), manager_roles(A), config_roles(B)"),
        "duplicate `config_roles`"
    );
    assert_eq!(
        args_error("manager_roles(A), other_roles(B)"),
        "unknown parameter `other_roles`, expected `bypass_roles`, `manager_roles`, \
         `config_roles`, or `custom_is_trusted_relayer`"
    );
    assert_eq!(
        args_error("manager_roles(A), manager_roles"),
        "unknown flag `manager_roles`, expected `custom_is_trusted_relayer`"
    );
    assert_eq!(
        args_error("manager_roles(A), bypass_roles(B), custom_is_trusted_relayer"),
        "`custom_is_trusted_relayer` and `bypass_roles` are mutually exclusive"
    );
}

#[test]
fn first_fault_is_the_one_that_is_reported() {
    assert_eq!(
        args_error("one, other_roles(B)"),
        "unknown flag `one`, expected `custom_is_trusted_relayer`"
    );
    assert_eq!(
        args_error("bypass_roles(B), custom_is_trusted_relayer"),
        "`manager_roles(...)` is required for `#[trusted_relayer]` on impl blocks"
    );
}

#[test]
fn arguments_that_cannot_be_read_are_reported() {
    assert_eq!(args_error("manager_roles = A"), "expected `,`");
    assert_eq!(args_error("manager_roles(A) config_roles(B)"), "expected `,`");
    assert_eq!(args_error("manager_roles(A B)"), "expected `,`");
    assert_eq!(args_error("(A)"), "expected identifier");
    assert_eq!(args_error("manager_roles(A), , "), "expected identifier");
    assert_eq!(args_error("fn(A)"), "expected identifier, found keyword `fn`");
}

#[test]
fn same_messages_as_a_parser_of_syn() {
    for text in ["(A)", ",", "\"text\"", "fn"] {
        let expected = syn::parse_str::<syn::Ident>(text).unwrap_err().to_string();
        assert_eq!(args_error(text), expected);
    }
}

#[test]
fn arguments_are_read() {
    let args = TrustedRelayerImplArgs::parse(&tokens(
        "bypass_roles(Role::A, roles::b(1, 2)), manager_roles(Role::C,), config_roles(),",
    ))
    .ok()
    .unwrap();
    assert_eq!(names(&args.bypass_roles.unwrap()), ["Role::A", "roles::b(1,2)"]);
    assert_eq!(names(&args.manager_roles), ["Role::C"]);
    assert_eq!(names(&args.config_roles), Vec::<String>::new());
    assert!(!args.custom_is_trusted_relayer);
}

#[test]
fn managers_configure_unless_others_are_named() {
    let args = TrustedRelayerImplArgs::parse(&tokens("manager_roles(A, B)")).ok().unwrap();
    assert_eq!(names(&args.config_roles), ["A", "B"]);
    assert!(args.bypass_roles.is_none());
}

#[test]
fn order_of_arguments_does_not_matter() {
    let block = tokens("impl Contract { #[trusted_relayer] fn f(&self) {} }");
    let one = trusted_relayer(&tokens("manager_roles(A), bypass_roles(B), config_roles(C)"), &block);
    let other = trusted_relayer(&tokens("config_roles(C), manager_roles(A), bypass_roles(B)"), &block);
    assert_eq!(flat(one), flat(other));
}

#[test]
fn parameters_are_read_one_by_one() {
    let params = parse_params(&tokens("flag, list(A, B)")).ok().unwrap().params;
    assert_eq!(params.len(), 2);
    assert!(matches!(&params[0], MacroParam::Flag(name) if name.text == "flag"));
    match &params[1] {
        MacroParam::RoleList { name, roles } => {
            assert_eq!(name.text, "list");
            assert_eq!(name.place.to_string(), "list");
            assert_eq!(names(roles), ["A", "B"]);
        }
        _ => panic!("a list"),
    }
    assert_eq!(parse_params(&TokenStream::new()).ok().unwrap().params.len(), 0);
}

#[test]
fn impl_blocks_are_told_from_other_items() {
    assert!(is_impl_block(&tokens("impl A {}")));
    assert!(is_impl_block(&tokens("#[x] #[y(z)] impl A for B {}")));
    assert!(!is_impl_block(&tokens("pub fn f() {}")));
    assert!(!is_impl_block(&tokens("unsafe impl A for B {}")));
    assert!(!is_impl_block(&tokens("\"impl\"")));
    assert!(!is_impl_block(&tokens("< impl >")));
    assert!(!is_impl_block(&TokenStream::new()));
}

#[test]
fn markers_are_told_from_other_attributes() {
    let attr = |text: &str| -> TokenStream {
        let item: syn::ItemFn = syn::parse2(tokens(&format!("{text} fn f() {{}}"))).unwrap();
        assert_eq!(
            item.attrs[0].path().is_ident("trusted_relayer"),
            is_trusted_relayer_attr(&item.attrs[0].to_token_stream())
        );
        item.attrs[0].to_token_stream()
    };
    assert!(is_trusted_relayer_attr(&attr("#[trusted_relayer]")));
    assert!(is_trusted_relayer_attr(&attr("#[trusted_relayer(bypass_roles(A))]")));
    assert!(is_trusted_relayer_attr(&attr("#[trusted_relayer = 1]")));
    assert!(is_trusted_relayer_attr(&attr("#[trusted_relayer { a }]")));
    assert!(!is_trusted_relayer_attr(&attr("#[trusted_relayer::full]")));
    assert!(!is_trusted_relayer_attr(&attr("#[omni::trusted_relayer]")));
    assert!(!is_trusted_relayer_attr(&attr("#[near]")));
    assert!(!is_trusted_relayer_attr(&attr("/// trusted_relayer\n")));
}

/// The operators of the stream that are more than one character.
fn operators(stream: TokenStream) -> Vec<String> {
    let mut out = Vec::new();
    let mut open = String::new();
    for tree in stream {
        match tree {
            TokenTree::Punct(punct) => {
                open.push(punct.as_char());
                if punct.spacing() == Spacing::Alone {
                    if open.len() > 1 {
                        out.push(open.clone());
                    }
                    open.clear();
                }
            }
            TokenTree::Ident(_) if open == "'" => open.clear(),
            TokenTree::Group(group) => {
                assert_eq!(open, "");
                out.extend(operators(group.stream()));
            }
            _ => assert_eq!(open, ""),
        }
    }
    out
}

#[test]
fn templates_join_only_the_characters_of_an_operator() {
    for template in [
        ROLE_NAME, BYPASS_METHOD, TRAIT_IMPL, PUBLIC_METHODS, GUARD_TEMPLATE, ROLE_GUARD, UNIT_ARM,
        UNNAMED_ARM, NAMED_ARM, DISPLAY_IMPLS,
    ] {
        assert!(!tokens(template).is_empty());
        for operator in operators(tokens(template)) {
            assert!(["::", "->", "=>", ">=", "||", ">>"].contains(&operator.as_str()), "{operator}");
        }
    }
}

#[test]
fn generated_items_are_spaced_as_syn_prints_them() {
    let found = trusted_relayer(
        &tokens("manager_roles(Role::A), bypass_roles(Role::B)"),
        &tokens("impl<T> Contract<T> { #[trusted_relayer] fn f(&self) -> Vec<u8> { self.g() } }"),
    );
    let file: syn::File = syn::parse2(found.clone()).unwrap();
    assert_eq!(spaced(found), spaced(file.to_token_stream()));
}

#[test]
fn arguments_that_a_macro_hands_on() {
    let whole = handed_on("manager_roles(Role::A, Role::B), custom_is_trusted_relayer");
    let args = TrustedRelayerImplArgs::parse(&whole).ok().unwrap();
    assert_eq!(names(&args.manager_roles), ["Role::A", "Role::B"]);
    assert!(args.custom_is_trusted_relayer);

    let mut parts = handed_on("");
    parts.extend(handed_on("manager_roles"));
    parts.extend(tokens("(Role::A)"));
    parts.extend(handed_on(", bypass_roles"));
    parts.extend(TokenStream::from(TokenTree::Group(Group::new(
        Delimiter::None,
        TokenStream::from(TokenTree::Group(Group::new(Delimiter::Parenthesis, handed_on("Role::C")))),
    ))));
    let args = TrustedRelayerImplArgs::parse(&parts).ok().unwrap();
    assert_eq!(names(&args.manager_roles), ["Role::A"]);
    assert_eq!(names(&args.bypass_roles.unwrap()), ["Role::C"]);
}

#[test]
fn nothing_handed_on_is_no_argument() {
    let fault = |stream: TokenStream| parse_params(&stream).err().unwrap().message;
    assert_eq!(fault(handed_on("")), "expected identifier");
    let mut behind = tokens("flag");
    behind.extend(handed_on(""));
    assert_eq!(fault(behind), "expected `,`");
    let mut behind_comma = tokens("flag,");
    behind_comma.extend(handed_on(""));
    assert_eq!(fault(behind_comma), "expected identifier");
}

#[test]
fn roles_of_a_method_that_a_macro_hands_on() {
    let mut item = tokens("#");
    let mut marker = tokens("trusted_relayer");
    marker.extend(TokenStream::from(TokenTree::Group(Group::new(
        Delimiter::Parenthesis,
        handed_on("bypass_roles(Role::Special, Role::Other)"),
    ))));
    item.extend(TokenStream::from(TokenTree::Group(Group::new(Delimiter::Bracket, marker))));
    item.extend(tokens("fn f(&self) {}"));
    let mut input = tokens("impl Contract");
    input.extend(TokenStream::from(TokenTree::Group(Group::new(Delimiter::Brace, item))));
    assert_tokens(
        trusted_relayer(&TokenStream::new(), &input),
        &"impl Contract { fn f(&self) { SPECIAL } }".replace("SPECIAL", SPECIAL_GUARD),
    );
}

#[test]
fn leftover_tokens_are_reported_last() {
    let leftover = syn::parse_str::<syn::Expr>("#[a b] X").err().unwrap().to_string();
    assert_eq!(args_error("manager_roles(#[a b] X)"), leftover);
    assert_eq!(args_error("manager_roles(A, #[a b] X), bypass_roles(B)"), leftover);
    assert_eq!(
        args_error("bypass_roles(#[a b] X)"),
        "`manager_roles(...)` is required for `#[trusted_relayer]` on impl blocks"
    );
    assert_eq!(
        args_error("manager_roles(#[a b] X), one"),
        "unknown flag `one`, expected `custom_is_trusted_relayer`"
    );
    assert_eq!(args_error("manager_roles(#[a b] X), 5"), "expected identifier");
    assert_eq!(args_error("manager_roles(#[a b] X) config_roles(B)"), "expected `,`");
    let read = parse_params(&tokens("list(#[a b] X), other(#[c (d) e] Y)")).ok().unwrap();
    assert_eq!(read.params.len(), 2);
    assert_eq!(read.leftover.unwrap().message, leftover);
    assert!(parse_params(&tokens("list(#[a(b)] X)")).ok().unwrap().leftover.is_none());
}

#[test]
fn arguments_mean_the_same_in_any_order() {
    let parts = ["manager_roles(A)", "custom_is_trusted_relayer", "config_roles(C)"];
    let block = tokens("impl Contract { #[trusted_relayer] fn f(&self) {} }");
    let expected = flat(trusted_relayer(&tokens(&parts.join(", ")), &block));
    for order in [[0, 2, 1], [1, 0, 2], [1, 2, 0], [2, 0, 1], [2, 1, 0]] {
        let text = order.map(|i| parts[i]).join(", ");
        assert_eq!(flat(trusted_relayer(&tokens(&text), &block)), expected);
        let with_comma = format!("{text},");
        assert_eq!(flat(trusted_relayer(&tokens(&with_comma), &block)), expected);
        let repeated = format!("custom_is_trusted_relayer, {text}, custom_is_trusted_relayer");
        assert_eq!(flat(trusted_relayer(&tokens(&repeated), &block)), expected);
    }
}
