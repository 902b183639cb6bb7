//! Translation tooling: `tr!` extraction and Qt Linguist `.ts` catalogues.

pub mod extract;
pub mod sorted;
pub mod xml;
pub mod ts;
pub mod roundtrip;
