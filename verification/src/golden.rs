//! The parts of the synthetic golden drawings that are plain data and plain
//! logic: which code page a written drawing declares, the layers it
//! declares, the handles it issues, the names of its dimension blocks, the
//! bytes each group of a DXF file is written as, and the records a writer
//! appends.
//!
//! A golden case is a spec: the entities and values of a synthetic drawing,
//! as data. A writer turns it into an R2000 ASCII DXF without touching any
//! parser's code, and the same spec is the model a parser is expected to
//! produce -- so the spec is the oracle, not a hand-maintained expected file.

pub mod block_names;
pub mod dxf;
pub mod expected;
pub mod spec;
pub mod writer;

pub use spec::{Codepage, LayerSpec, LayerState};
pub use writer::{Handles, Written};
