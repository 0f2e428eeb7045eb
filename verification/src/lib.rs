use vstd::prelude::*;

pub mod text;
pub mod words;
pub mod appstate;
pub mod addr;
pub mod helpers;
pub mod utils;
pub mod network;
pub mod threads;

verus! {

/// The magic cookie that every STUN message carries (RFC 5389).
pub const MAGIC_COOKIE: u32 = 0x2112A442;

} // verus!
