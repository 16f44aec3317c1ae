//! Finite-state machines described by data: a specification model, a
//! consistency checker, an interpreter that dispatches events, and an exporter
//! that renders the same specification as a graphviz DOT diagram.

pub mod action;
pub mod check;
pub mod dotfile;
pub mod escape;
pub mod laws;
pub mod model;
pub mod runtime;
pub mod text;

pub use action::{FieldRef, Op, Operand, Stmt};
pub use check::SpecError;
pub use dotfile::{machine_dotfile, MachineDotfile};
pub use model::{EventSpec, FieldSpec, MachineSpec, Source, StateSpec, Transition};
pub use runtime::{Event, FinishError, HandleEventException, Machine};
