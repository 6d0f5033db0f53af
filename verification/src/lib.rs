//! Path validation: decides from the text of a path, and from a few facts about
//! the filesystem handed in by the caller, whether the path is safe to give to a
//! filesystem operation.
//!
//! The library performs no operation on the disk and reads nothing from it.
//! [`validate::validate`] is the entry point; the modules below it are its
//! parts, from the leaves up:
//!
//! - [`text`] and [`component`] split a path into typed components;
//! - [`names`] judges a single name against the cross-platform rules;
//! - [`kind`] tells file targets from directory targets;
//! - [`containment`] judges whether a path climbs above its root;
//! - [`absolute`] joins a relative path to an origin and finds parents;
//! - [`validate`] runs the checks that a mode asks for, in their order;
//! - [`laws`] and [`joining`] state and prove what holds of all of them.

pub mod absolute;
pub mod component;
pub mod containment;
pub mod failure;
pub mod joining;
pub mod kind;
pub mod laws;
pub mod names;
pub mod policy;
pub mod text;
pub mod validate;
