//! The neutral entity model for 2D CAD drawings: what a drawing *is* once it
//! has been taken out of its file format -- the parts of it that are plain
//! data and plain logic, verified.
//!
//! Every entity carries a reference ID, a provenance and a confidence, so
//! that anything built on the model can say where a value came from and how
//! far it can be trusted, including "unknown". What lives here besides the
//! data is the logic every consumer needs alike: the ACI palette, the
//! references an entity resolves, how a file stored its strings
//! ([`text`]), and the codes a drawing's text is written in
//! ([`text::tokens`]).

pub mod bulge;
pub mod chars;
pub mod color;
pub mod confidence;
pub mod curve;
pub mod model;
pub mod text;

pub use confidence::Confidence;
pub use model::{EntityId, Origin, Ref};
pub mod golden;
pub mod tables;
pub mod units;

use vstd::prelude::*;

verus! {

/// Non-fatal problems the reader reported while producing the model.
///
/// "Read with warnings" and "read cleanly" are different outcomes: a file
/// that came back with a warning may be missing objects the reader did not
/// know how to decode, and nothing else in the model says so. The names are
/// the reader's own (a parser documents its vocabulary), listed in a stable
/// order so the same read always reports the same way.
#[derive(Debug, Clone, PartialEq, Eq)]
pub struct ReadDiagnostics {
    /// The reader's warning names, in the reader's stable order; empty when
    /// the read was clean.
    pub warnings: Vec<String>,
}

impl Default for ReadDiagnostics {
    /// Nothing reported: what a document written before the field existed
    /// reads as.
    fn default() -> (d: Self)
        ensures
            d.warnings@.len() == 0,
    {
        ReadDiagnostics { warnings: Vec::new() }
    }
}

impl ReadDiagnostics {
    /// `true` when the reader reported nothing at all.
    pub fn is_clean(&self) -> (clean: bool)
        ensures
            clean == (self.warnings@.len() == 0),
    {
        self.warnings.len() == 0
    }
}

} // verus!
