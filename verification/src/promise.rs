//! What a contract call can end with: a promise, the index of one, or a value.

use near_sdk::{Promise, PromiseIndex};
use vstd::prelude::*;

verus! {

/// A promise of near-sdk.
#[verifier::external_type_specification]
#[verifier::external_body]
pub struct ExPromise(near_sdk::Promise);

/// The index of a promise of the host.
#[verifier::external_type_specification]
#[verifier::external_body]
pub struct ExPromiseIndex(near_sdk::PromiseIndex);

/// What a contract call ends with.
pub enum PromiseOrPromiseIndexOrValue<T> {
    Promise(Promise),
    PromiseIndex(PromiseIndex),
    Value(T),
}

/// What the host has to be told for a call to return.
pub enum ReturnAction {
    /// Make the result of the promise that of the call, and let the promise go.
    ReturnPromise(Promise),
    /// Make the result of the promise at this index that of the call.
    ReturnPromiseIndex(PromiseIndex),
    /// Return these bytes.
    ReturnValue(Vec<u8>),
}

impl<T> PromiseOrPromiseIndexOrValue<T> {
    /// How the call returns: a promise and an index as they are, and a value as the bytes that
    /// `encode` makes of it.
    pub fn as_return<F: FnOnce(T) -> Vec<u8>>(self, encode: F) -> (action: ReturnAction)
        requires
            self matches PromiseOrPromiseIndexOrValue::Value(value) ==> call_requires(
                encode,
                (value,),
            ),
        ensures
            match self {
                PromiseOrPromiseIndexOrValue::Promise(promise) => action
                    == ReturnAction::ReturnPromise(promise),
                PromiseOrPromiseIndexOrValue::PromiseIndex(index) => action
                    == ReturnAction::ReturnPromiseIndex(index),
                PromiseOrPromiseIndexOrValue::Value(value) => action matches
                    ReturnAction::ReturnValue(bytes) && call_ensures(encode, (value,), bytes),
            },
    {
        match self {
            PromiseOrPromiseIndexOrValue::Promise(promise) => ReturnAction::ReturnPromise(promise),
            PromiseOrPromiseIndexOrValue::PromiseIndex(index) => ReturnAction::ReturnPromiseIndex(
                index,
            ),
            PromiseOrPromiseIndexOrValue::Value(value) => ReturnAction::ReturnValue(encode(value)),
        }
    }
}

impl<T> From<Promise> for PromiseOrPromiseIndexOrValue<T> {
    fn from(promise: Promise) -> (outcome: Self) {
        PromiseOrPromiseIndexOrValue::Promise(promise)
    }
}

impl<T> vstd::std_specs::convert::FromSpecImpl<Promise> for PromiseOrPromiseIndexOrValue<T> {
    open spec fn obeys_from_spec() -> bool {
        true
    }

    open spec fn from_spec(promise: Promise) -> Self {
        PromiseOrPromiseIndexOrValue::Promise(promise)
    }
}

} // verus!
