//! Replay sessions over an embedded Lean runtime.
//!
//! A session imports a module, takes a goal, and applies tactics step by step; each success adds
//! a state, and any state can be worked on again. [`Repl`] keeps the states and decides what a
//! request is about, [`history`] states what holds over any sequence of operations, [`regions`]
//! decides when the memory behind an import may be released, [`check`] and [`environment`] answer
//! queries about terms and declarations, and [`session`] computes with the runtime's own numbers
//! and strings.
pub mod check;
pub mod display;
pub mod environment;
pub mod error;
pub mod history;
pub mod import;
mod list;
pub mod regions;
pub mod repl;
pub mod sequence;
pub mod session;
pub mod text;

pub use crate::display::Goal;
pub use crate::error::ReplError;
pub use crate::repl::Repl;
pub use crate::session::LeanSession;
