//! A marketplace escrow library for uniquely identified assets.
//!
//! An asset owner lists an asset at a price (with an optional donation
//! earmark for a charity account); a buyer purchases it by attaching at
//! least that price. The purchase settles in two turns: `buy` reserves the
//! listing and describes the outbound transfer request, and
//! `resolve_purchase` — run once the outcome of the external asset
//! transfer is known — decides whether the reported payout breakdown can
//! be trusted and computes the final per-party fund movements.
//!
//! The library itself moves no funds and performs no I/O: callers hand it
//! the caller identity, the attached deposit and the outcome of the
//! external call as plain values, and receive the fund transfers to
//! perform as plain values back.

pub mod errors;
pub mod parse;
pub mod payout;
pub mod market;
