//! Verified core of a music-royalty tokenization program: creators register,
//! describe a track and its tokenization terms, mint the track's supply into
//! a vault, sell tokens, deposit revenue into a pool that accrues per-token
//! rewards, and let holders claim and trade their positions.
//!
//! Each instruction is a function from the accounts it reads, as plain
//! values, to the accounts it writes and the transfers it asks for, with the
//! checks it makes and the errors it returns. Account addresses are derived
//! from seeds in `pda`, `laws` states what holds across instructions, and
//! `acceptance` says, in terms of their inputs, when instructions accept.
pub mod acceptance;
pub mod address;
pub mod constants;
pub mod errors;
pub mod instructions;
pub mod laws;
pub mod ledger;
pub mod pda;
pub mod state;

use vstd::prelude::*;

verus! {

} // verus!
