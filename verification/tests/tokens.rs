use omni_utils_core::tokens::{comma_separated, fill, Slot};
use proc_macro2::TokenStream;

fn tokens(text: &str) -> TokenStream {
    text.parse().unwrap()
}

fn filled(template: &str, slots: Vec<Slot>) -> String {
    fill(&tokens(template), &slots).to_string()
}

fn slot(name: &'static str, text: &str) -> Slot {
    Slot { name, stream: tokens(text) }
}

#[test]
fn slots_are_filled_within_groups_too() {
    assert_eq!(
        filled("fn #name(#args) -> [#args; 2] { #name { #args } }", vec![slot("name", "f"), slot("args", "a, b")]),
        tokens("fn f(a, b) -> [a, b; 2] { f { a, b } }").to_string()
    );
}

#[test]
fn all_but_slots_stays() {
    let text = "#[attr(#unknown)] # x 'a' \"#name\" r#name #";
    assert_eq!(filled(text, vec![slot("name", "f")]), tokens(text).to_string());
    assert_eq!(filled("", vec![slot("name", "f")]), "");
}

#[test]
fn first_slot_of_a_name_counts() {
    assert_eq!(filled("#a", vec![slot("a", "one"), slot("a", "two")]), "one");
    assert_eq!(filled("#a#b", vec![slot("a", ""), slot("b", "x")]), "x");
    assert_eq!(filled("#a #b", vec![slot("a", "#b"), slot("b", "x")]), tokens("#b x").to_string());
}

#[test]
fn commas_stand_between_streams() {
    assert_eq!(comma_separated(&vec![]).to_string(), "");
    assert_eq!(comma_separated(&vec![tokens("a::b")]).to_string(), tokens("a::b").to_string());
    assert_eq!(
        comma_separated(&vec![tokens("a"), tokens("b()"), tokens("c")]).to_string(),
        tokens("a, b(), c").to_string()
    );
}
