//! Reconstruction of MXML markup from the generated document class of a
//! compiled component.
//!
//! A compiled class is admitted by the assignment that marks a document
//! class in its constructor. Its constructor and the factory functions that
//! it reaches are then read statement by statement into a tree of elements,
//! while the package paths of the classes that are met are registered as XML
//! namespaces. The tree is written out as a run of events for an XML writer.

pub mod classify;
pub mod detect;
pub mod document;
pub mod emit;
pub mod encode;
pub mod error;
pub mod events;
pub mod laws;
pub mod lookup;
pub mod mxml;
pub mod namespaces;
pub mod search;
pub mod syntax;
pub mod text;
pub mod transpiler;
