//! A deterministic single-tape Turing machine simulator: a machine description,
//! a lazy run that yields one configuration per step, and the rendering of a
//! configuration as text.

pub mod model;
mod machine;
mod symbols;
mod transition;

pub use crate::symbols::Direction;
pub use crate::symbols::State;
pub use crate::symbols::Symbol;
pub use crate::transition::Action;
pub use crate::transition::TransitionFunction;
pub use crate::machine::lemma_no_first_transition;
pub use crate::machine::lemma_runs_agree;
pub use crate::machine::Configuration;
pub use crate::machine::ConfigurationIterator;
pub use crate::machine::Machine;
