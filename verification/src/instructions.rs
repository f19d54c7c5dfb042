//! One module per instruction. Each handler takes the accounts the
//! instruction reads as plain values, checks what the instruction checks in
//! the order it checks it, and returns the accounts it writes together with
//! the amount of the transfer it asks for; the caller performs the transfer
//! and stores the accounts only when both succeed.
pub mod create_track;
pub mod register_creator;
pub mod deposit_revenue;
pub mod initialize_revenue_pool;
pub mod mint_track_tokens;
pub mod claim_revenue;
pub mod open_holder_position;
pub mod buy_tokens;
pub mod buy_resale;
pub mod cancel_resale;
pub mod list_resale;
