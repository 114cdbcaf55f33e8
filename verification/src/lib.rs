//! Boinc: the decision logic of a file converter, with its contracts.

use vstd::prelude::*;

pub mod cli;
pub mod converter;
pub mod entries;
pub mod error;
pub mod format;
pub mod history;
pub mod integration;
pub mod ipc;
pub mod laws;
pub mod libreoffice;
pub mod markdown;
pub mod output;
pub mod pipeline;
pub mod raster;
pub mod registry;
pub mod settings;
pub mod state;
pub mod text;
pub mod tray;
pub mod update;
pub mod vector;

verus! {

/// The spec value of the crate version.
pub open spec fn spec_version() -> Seq<char> {
    seq!['0', '.', '4', '.', '1']
}

/// Crate version, surfaced for `--version` output.
pub fn version() -> (v: &'static str)
    ensures
        v@ == spec_version(),
{
    proof { reveal_strlit("0.4.1"); }
    "0.4.1"
}

} // verus!
