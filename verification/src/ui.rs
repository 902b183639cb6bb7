//! Declarative, state-driven UI described from Rust code.
//!
//! A view is a pure function from application state to an [`element::Element`]
//! tree. After every batch of messages the runtime asks for a fresh tree and
//! reconciles it against the one on screen ([`reconcile`]), producing the
//! minimal list of widget operations that brings the screen up to date.

pub mod handler;
pub mod element;
pub mod canvas;
pub mod subscription;
pub mod menu;
pub mod reconcile;
pub mod runtime;
pub mod dispatch;
pub mod shown;
