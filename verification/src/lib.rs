//! A small closed ecosystem: crabs that live on beaches, gather in clans,
//! hunt prey on shared reefs, and breed.
//!
//! Reefs are shared between the ocean and all crabs that have discovered
//! them. The ocean keeps them in one table; a crab knows a reef by its
//! position in that table, and a hunt is handed the table to hunt on. So any
//! number of crabs may know the same reef, and whoever holds the table may
//! take prey from a reef or put prey on it.

pub mod beach;
pub mod clans;
pub mod color;
pub mod cookbook;
pub mod crab;
pub mod diet;
pub mod hunting;
pub mod names;
pub mod ocean;
pub mod prey;
pub mod reef;
pub mod search;
