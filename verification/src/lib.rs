//! duga: verified core logic of an agent runtime (sandbox policy, tools,
//! prompt building and the Telegram frontend's message handling).
use vstd::prelude::*;

pub mod text;
pub mod builtin;
pub mod runtime;
pub mod sandbox;
pub mod strmap;
pub mod telegram;
pub mod tools;

verus! {

} // verus!
