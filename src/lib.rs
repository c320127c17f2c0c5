//! Schema-aware random row generation: a typed model of a relational catalog,
//! constraint-respecting value synthesis, insert statement planning and the
//! per-iteration decisions of a generation loop.

pub mod config;
pub mod orchestrate;
pub mod random;
pub mod schema;
pub mod statement;
pub mod synth;
