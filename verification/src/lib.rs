//! Username/password authentication core: password policy, credential
//! store, credential verification, session lifecycle and the decisions the
//! login, logout and registration endpoints make.

pub mod policy;
pub mod session;
pub mod store;
pub mod user;
pub mod web;
