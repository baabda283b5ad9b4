//! Verified core of the S2 cell to Census tract lookup: identifier
//! validation, batch planning, dataset header checks, feature decoding,
//! containment resolution, command-line rules, the pinned asset manifest
//! the JSON Lines output and the installation steps.

pub mod cell;
pub mod text;
pub mod batch;
pub mod containment;
pub mod feature;
pub mod header;
pub mod cli;
pub mod asset;
pub mod prepare;
pub mod output;
pub mod install;
