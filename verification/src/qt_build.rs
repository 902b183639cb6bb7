//! Build-time helpers: what to compile (translations and resources), where
//! Qt's tools are, and where the compiled artifacts go.

pub mod paths;
pub mod tools;
pub mod qm;
pub mod rcc;
pub mod plan;
pub mod steps;
