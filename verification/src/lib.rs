use vstd::prelude::*;

pub mod api;
pub mod assets;
pub mod assoc;
pub mod auth;
pub mod browser;
pub mod guard;
pub mod ip;
pub mod random;
pub mod security;
pub mod session;
pub mod terminal;
pub mod text;
pub mod uri;

verus! {
}
