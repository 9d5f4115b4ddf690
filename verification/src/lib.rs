//! The module/namespace layer of a compiler's semantic-analysis phase.
//!
//! A package's modules form a tree: the root module and its nested
//! submodules. While type-checking descends through that tree, a
//! [`namespace::Namespace`] cursor tracks which module is currently being
//! checked, and path-based predicates decide whether a module lies inside
//! or outside the package being compiled.

use vstd::prelude::*;

pub mod laws;
pub mod module;
pub mod path;
pub mod namespace;
pub mod root;
pub mod submodule_namespace;

verus! {

/// An internal contract violation surfaced as a value instead of a crash,
/// so a long-running compiler pass can report it and carry on.
#[derive(Clone, Copy, PartialEq, Eq, Structural, Debug)]
pub enum Fault {
    /// An addressed path has no corresponding node in the module tree.
    MissingModule,
    /// A caller supplied an empty absolute path where the package-name
    /// segment is mandatory.
    MalformedPath,
    /// The package name was still unset when a name-dependent predicate
    /// was evaluated.
    BrokenInvariant,
}

} // verus!
