//! Small building blocks with proved contracts.
//!
//! The centre is runtime-checked interior mutability: [`cell::Cell`], a
//! single-owner cell whose content is replaced as a whole, and
//! [`refcell::RefCell`], a cell that grants shared or exclusive access to its
//! value through guards and refuses what the aliasing rule forbids. The rule
//! itself is laid down in [`borrow_state`] as a state machine.
//!
//! Beside them stand two walks: [`flatten`] over the items of a list of
//! lists, and [`strsplit`] over the pieces of a string between delimiters.

pub mod borrow_state;
pub mod cell;
pub mod flatten;
pub mod refcell;
pub mod strsplit;
