use omni_utils_core::error_display::{build_format_string, derive_error_display};
use proc_macro2::{TokenStream, TokenTree};

fn tokens(text: &str) -> TokenStream {
    text.parse().unwrap()
}

/// The tokens one by one, with the delimiters of groups.
fn flat(stream: TokenStream) -> Vec<String> {
    let mut out = Vec::new();
    for tree in stream {
        match tree {
            TokenTree::Group(group) => {
                out.push(format!("{:?}(", group.delimiter()));
                out.extend(flat(group.stream()));
                out.push(")".to_string());
            }
            other => out.push(other.to_string()),
        }
    }
    out
}

/// The message that the expansion has the compiler report.
fn reported(stream: TokenStream) -> String {
    let call: syn::Macro = syn::parse2(stream).unwrap();
    let message: syn::LitStr = syn::parse2(call.tokens).unwrap();
    message.value()
}

fn strings(names: &[&str]) -> Vec<String> {
    names.iter().map(|name| name.to_string()).collect()
}

#[test]
fn format_strings() {
    assert_eq!(build_format_string(&[]), "{}");
    assert_eq!(build_format_string(&strings(&["field1"])), "{}: field1={}");
    assert_eq!(
        build_format_string(&strings(&["account", "amount", "r#type"])),
        "{}: account={}, amount={}, r#type={}"
    );
}

#[test]
fn format_strings_have_a_place_for_every_value() {
    for count in 0..12 {
        let names: Vec<String> = (1..=count).map(|n| format!("field{n}")).collect();
        let text = build_format_string(&names);
        assert_eq!(text.matches("{}").count(), 1 + count);
        assert_eq!(text.matches('{').count(), 1 + count);
        assert_eq!(text.matches('}').count(), 1 + count);
    }
}

#[test]
fn message_of_each_variant() {
    let derived = derive_error_display(&tokens(
        "pub enum MyError {
            Missing,
            BadInput(String),
            #[other] TooMany(u8, Vec<(u8, u8)>),
            Transfer { account_id: AccountId, amount: u128, },
            Nothing(),
            Empty {},
        }",
    ));
    let expected = tokens(
        "impl MyError {
            pub fn as_ref(&self) -> String {
                match self {
                    Self::Missing => {
                        ::std::convert::AsRef::<str>::as_ref(self).to_string()
                    }
                    Self::BadInput(field1) => {
                        format!(\"{}: field1={}\", ::std::convert::AsRef::<str>::as_ref(self), field1)
                    }
                    Self::TooMany(field1, field2) => {
                        format!(
                            \"{}: field1={}, field2={}\",
                            ::std::convert::AsRef::<str>::as_ref(self),
                            field1, field2
                        )
                    }
                    Self::Transfer { account_id, amount } => {
                        format!(
                            \"{}: account_id={}, amount={}\",
                            ::std::convert::AsRef::<str>::as_ref(self),
                            account_id, amount
                        )
                    }
                    Self::Nothing() => {
                        format!(\"{}\", ::std::convert::AsRef::<str>::as_ref(self),)
                    }
                    Self::Empty {} => {
                        format!(\"{}\", ::std::convert::AsRef::<str>::as_ref(self),)
                    }
                }
            }
        }

        impl std::fmt::Display for MyError {
            fn fmt(&self, f: &mut std::fmt::Formatter<'_>) -> std::fmt::Result {
                write!(f, \"{}\", self.as_ref())
            }
        }",
    );
    syn::parse2::<syn::File>(derived.clone()).expect("items");
    assert_eq!(flat(derived), flat(expected));
}

#[test]
fn generics_are_carried_over() {
    let derived = derive_error_display(&tokens(
        "enum Wrapped<'a, T: Debug = u8, const N: usize> where T: 'a { One(&'a [T; N]) }",
    ));
    let file: syn::File = syn::parse2(derived).expect("items");
    let expected = [
        "impl<'a, T: Debug, const N: usize> Wrapped<'a, T, N> where T: 'a {}",
        "impl<'a, T: Debug, const N: usize> std::fmt::Display for Wrapped<'a, T, N> where T: 'a {}",
    ];
    for (item, expected) in file.items.into_iter().zip(expected) {
        match item {
            syn::Item::Impl(mut block) => {
                assert_eq!(block.items.len(), 1);
                block.items.clear();
                assert_eq!(flat(quote::ToTokens::to_token_stream(&block)), flat(tokens(expected)));
            }
            _ => panic!("an impl block"),
        }
    }
}

#[test]
fn raw_field_names_keep_their_prefix() {
    let derived = derive_error_display(&tokens("enum E { A { r#type: u8 } }")).to_string();
    assert!(derived.contains("\"{}: r#type={}\""));
}

#[test]
fn other_types_are_refused() {
    let message = "ErrorDisplay can only be derived for enums";
    assert_eq!(reported(derive_error_display(&tokens("struct NotAnEnum { a: u8 }"))), message);
    assert_eq!(reported(derive_error_display(&tokens("union U { a: u8, b: i8 }"))), message);
}

#[test]
fn types_that_cannot_be_read_are_reported() {
    for text in ["fn f() {}", "enum", "enum E { A("] {
        if let Ok(stream) = text.parse::<TokenStream>() {
            let expected = syn::parse2::<syn::DeriveInput>(stream.clone()).err().unwrap();
            assert_eq!(reported(derive_error_display(&stream)), expected.to_string());
        }
    }
}

#[test]
fn format_literals_stand_for_the_format_string() {
    fn literals(stream: TokenStream, out: &mut Vec<String>) {
        for tree in stream {
            match tree {
                TokenTree::Group(group) => literals(group.stream(), out),
                TokenTree::Literal(literal) => {
                    let text: syn::LitStr = syn::parse_str(&literal.to_string()).unwrap();
                    out.push(text.value());
                }
                _ => {}
            }
        }
    }
    let mut found = Vec::new();
    literals(derive_error_display(&tokens("enum E { A { größe: u8 }, B { x\u{301}: u8 } }")), &mut found);
    assert_eq!(found, ["{}: größe={}", "{}: x\u{301}={}", "{}"]);
}
