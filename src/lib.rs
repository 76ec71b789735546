//! A readiness selector built on the `poll(2)` model: a table of registered
//! descriptors with their requested interest masks, the translation between
//! portable interests and poll bits, and the harvesting of ready entries
//! after a wait.
//!
//! The blocking `poll` call itself is made by the caller; this library decides
//! what to wait on and what a wait's result means.

mod interest;
pub mod event;
pub mod selector;

pub use event::Event;
pub use interest::{Interest, Token};
pub use selector::{poll_timeout, Events, Selector, SelectorError};
