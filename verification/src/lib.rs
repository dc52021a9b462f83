//! Core of a spreadsheet table viewer: a table model (dataset, selection
//! set, scroll target, display configuration) and the pure view-layer
//! logic (virtualized row windowing, frame materialization), stated and
//! proved with Verus. The host shell and the remote data source adapter
//! live outside this crate.

pub mod config;
pub mod table;
pub mod text;
pub mod view;

use vstd::prelude::*;

verus! {

} // verus!
