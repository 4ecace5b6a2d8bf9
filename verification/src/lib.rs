//! A turn-based, economically gated maze game engine.
//!
//! Players pay a fungible asset to register a directional move; once per
//! round a clock collaborator triggers resolution: one registered move is
//! picked by a host-supplied random draw and applied to a shared player
//! position, and the landed cell (trap, key, door, prize, finish) is
//! resolved with effects on the position, the session and the prize ledger.
//!
//! The engine owns all game state in a single [`storage::GameState`] value;
//! everything the host must do (identity, custody transfers, timestamps,
//! randomness, scheduling callbacks) enters and leaves as plain values, so
//! every rule of the game is stated and verified here.

use vstd::prelude::*;

pub mod engine;
pub mod errors;
pub mod path;
pub mod ping_proxy;
pub mod setup;
pub mod storage;

verus! {

/// Scale of the MVP share ratio: a share of `p` means `p / MULTIPLIER_TOTAL`
/// of the collected funds, so the full pot corresponds to `MULTIPLIER_TOTAL`.
/// The scale matches fungible assets with 18 decimal places.
pub const MULTIPLIER_TOTAL: u64 = 1000000000000000000;

} // verus!
