//! Discovery, validation and application of numbered schema migrations.
//!
//! - `codec`: the filename grammar `NNNN.<name>.<up|down>.sql`, both ways.
//! - `files`: the migration files of a directory, paired and checked into an
//!   ordered set numbered `1..=N`.
//! - `commands`: `status`, `up`, `down`, `redo`, `revert` and `create` over
//!   that set and a store's version register.
pub mod codec;
pub mod commands;
pub mod error;
pub mod files;
