use near_sdk::{AccountId, Promise};
use omni_utils_core::promise::{PromiseOrPromiseIndexOrValue, ReturnAction};

fn account() -> AccountId {
    "alice.near".parse().unwrap()
}

#[test]
fn values_are_returned_as_bytes() {
    let outcome = PromiseOrPromiseIndexOrValue::Value(vec![1u8, 2]);
    match outcome.as_return(|value| serde_json::to_vec(&value).unwrap()) {
        ReturnAction::ReturnValue(bytes) => assert_eq!(bytes, b"[1,2]"),
        _ => panic!("a value"),
    }
}

#[test]
fn indices_are_returned_as_they_are() {
    let index = near_sdk::env::promise_batch_create(&account());
    let outcome: PromiseOrPromiseIndexOrValue<u8> = PromiseOrPromiseIndexOrValue::PromiseIndex(index);
    match outcome.as_return(|_| panic!("nothing to encode")) {
        ReturnAction::ReturnPromiseIndex(returned) => assert!(returned == index),
        _ => panic!("an index"),
    }
}

#[test]
fn promises_are_returned_as_they_are() {
    let outcome: PromiseOrPromiseIndexOrValue<u8> = Promise::new(account()).into();
    assert!(matches!(&outcome, PromiseOrPromiseIndexOrValue::Promise(_)));
    match outcome.as_return(|_| panic!("nothing to encode")) {
        ReturnAction::ReturnPromise(promise) => promise.detach(),
        _ => panic!("a promise"),
    }
}
