//! A session-indirected state store with partial-fragment rendering.
//!
//! The library binds a stateless request to durable per-client state and
//! renders each response as one or more independent HTML fragments that
//! stay consistent with each other: a list fragment and its
//! "items left" fragment are always computed from the same state.

pub mod components;
pub mod counter;
pub mod render;
pub mod store;
pub mod templates;
pub mod todo;
pub mod token;

use vstd::prelude::*;

verus! {

/// What a request can fail with, per the library's error taxonomy.
///
/// `StoreUnavailable` is fatal for the request and is never masked by a
/// default empty state; `NotFound` is an unknown item id on toggle or
/// rename; `NoSession` is a mutating action from a client with no bound
/// state; `MalformedInput` is an unparseable request body, rejected
/// before any store access.
#[derive(Clone, Copy, Debug, PartialEq, Eq, Structural)]
pub enum AppError {
    StoreUnavailable,
    NotFound,
    NoSession,
    MalformedInput,
}

} // verus!
