//! Credential and session handling for a web application: salted password hashing,
//! the registration and login decisions over two document stores, and tamper-evident
//! session tokens.
use vstd::prelude::*;

pub mod account;
pub mod codec;
pub mod hasher;
pub mod registration;
pub mod session;

verus! {

} // verus!
