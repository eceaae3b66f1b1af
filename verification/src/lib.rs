use vstd::prelude::*;

pub mod auth;
pub mod conversation;
pub mod daemon;
pub mod greeter;
pub mod lightdm;
pub mod order;
pub mod power;
pub mod session;
pub mod text;
pub mod theme;
pub mod ui;

verus! {

} // verus!
