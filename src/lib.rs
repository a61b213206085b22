//! An ownership-scoped inventory store for model-kit builders: kits,
//! sub-assemblies, kit parts, runners, colors, part requirements and tracked
//! games, each row held by one principal and invisible to every other; plus
//! all-or-nothing reconciliation of a kit part's requirements, user accounts
//! and access-token claims.

use vstd::prelude::*;

pub mod error;
pub mod table;
pub mod text;
pub mod kit;
pub mod sub_assembly;
pub mod kit_part;
pub mod color;
pub mod runner;
pub mod steam;
pub mod requirement;
pub mod sync;
pub mod store;
pub mod reconcile;
pub mod seq_facts;
pub mod laws;
pub mod auth;

verus! {

} // verus!
