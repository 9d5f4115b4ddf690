//! The scope guard handed out by entering a submodule.
//!
//! While the type-checking pass descends into a dependency it temporarily redirects the
//! namespace's notion of "current module"; the guard remembers the previous
//! path and restores it on release. Release consumes the guard, so it can
//! run at most once; releasing guards out of last-in-first-out order is
//! caught at run time and reported as a fault instead of corrupting the
//! cursor.

use vstd::prelude::*;

use crate::Fault;
use crate::namespace::{release_effect, Namespace};
use crate::path::path_eq;

verus! {

/// A handle over a namespace whose cursor has been moved into a submodule;
/// releasing it moves the cursor back to the saved parent path.
pub struct SubmoduleNamespace {
    pub(crate) parent_mod_path: Vec<String>,
    pub(crate) submod_path: Vec<String>,
}

impl SubmoduleNamespace {
    /// The path the cursor will be restored to.
    pub closed spec fn parent_view(self) -> Seq<Seq<char>> {
        self.parent_mod_path.deep_view()
    }

    /// The path the cursor moved onto when this guard was created.
    pub closed spec fn entered_view(self) -> Seq<Seq<char>> {
        self.submod_path.deep_view()
    }

    /// Lets the sibling modules of this crate connect the guard's spec
    /// views to its fields.
    pub(crate) proof fn reveal_views(self)
        ensures
            self.parent_view() == self.parent_mod_path.deep_view(),
            self.entered_view() == self.submod_path.deep_view(),
    {
    }

    /// A read-only view of the saved parent path.
    pub fn parent_mod_path(&self) -> (p: &Vec<String>)
        ensures
            p.deep_view() == self.parent_view(),
    {
        &self.parent_mod_path
    }

    /// Restore the namespace's current path to the one saved when the
    /// submodule was entered. Consuming the guard makes a second release of
    /// the same entry impossible; releasing out of last-in-first-out order
    /// (the cursor no longer stands on the entered path), or against a tree
    /// that lost the parent node, is refused as a `BrokenInvariant` fault
    /// and leaves the namespace untouched.
    pub fn release(self, ns: &mut Namespace) -> (r: Result<(), Fault>)
        ensures
            r is Ok <==> (old(ns).spec_mod_path() == self.entered_view()
                && old(ns).spec_root().has_path(self.parent_view())),
            r is Ok ==> release_effect(*old(ns), *final(ns), self),
            r is Ok && old(ns).wf() ==> final(ns).wf(),
            r is Err ==> *final(ns) == *old(ns) && r == Err::<(), Fault>(
                Fault::BrokenInvariant,
            ),
    {
        proof {
            old(ns).reveal_spec();
        }
        if !path_eq(&ns.mod_path, &self.submod_path) {
            return Err(Fault::BrokenInvariant);
        }
        if !ns.root.has_module(&self.parent_mod_path) {
            return Err(Fault::BrokenInvariant);
        }
        ns.mod_path = self.parent_mod_path;
        proof {
            ns.reveal_spec();
        }
        Ok(())
    }
}

} // verus!
