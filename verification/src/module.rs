//! A single module of the package: the payload stored at every node of the
//! module tree.

use vstd::prelude::*;

verus! {

/// A region of source text, kept so diagnostics can point back at the
/// declaration that introduced a module.
#[derive(Clone, Copy, PartialEq, Eq, Structural, Debug)]
pub struct Span {
    pub start: usize,
    pub end: usize,
}

/// Whether a module may be named from outside its parent module.
#[derive(Clone, Copy, PartialEq, Eq, Structural, Debug)]
pub enum Visibility {
    Private,
    Public,
}

/// Mathematical image of a [`Module`]: strings become character sequences.
#[verifier::ext_equal]
pub struct ModuleView {
    pub name: Option<Seq<char>>,
    pub span: Option<Span>,
    pub visibility: Visibility,
    pub is_external: bool,
    pub decls: Seq<Seq<char>>,
}

/// One module of a package.
///
/// `name` and `span` are unset only on a module that has not yet been
/// entered as a submodule; the root module's name is the package name, set
/// once when the tree is initialised. `is_external` is true once the module
/// is known to have been imported from outside the current package.
/// `decls` is the module's declaration table; its content is opaque to this
/// layer, which only seeds it and carries it along.
#[derive(Debug)]
pub struct Module {
    pub name: Option<String>,
    pub span: Option<Span>,
    pub visibility: Visibility,
    pub is_external: bool,
    pub decls: Vec<String>,
}

impl View for Module {
    type V = ModuleView;

    open spec fn view(&self) -> ModuleView {
        ModuleView {
            name: self.name.deep_view(),
            span: self.span,
            visibility: self.visibility,
            is_external: self.is_external,
            decls: self.decls.deep_view(),
        }
    }
}

impl Module {
    /// A fresh module with the given name, not yet entered from anywhere.
    pub fn new(name: Option<String>, visibility: Visibility) -> (r: Module)
        ensures
            r@ == (ModuleView {
                name: name.deep_view(),
                span: None,
                visibility: visibility,
                is_external: false,
                decls: Seq::<Seq<char>>::empty(),
            }),
    {
        let r = Module { name, span: None, visibility, is_external: false, decls: Vec::new() };
        proof {
            assert(r.decls.deep_view() =~= Seq::<Seq<char>>::empty());
        }
        r
    }

    /// An exact copy; spelled out because nothing is known of a derived clone.
    pub fn duplicate(&self) -> (r: Module)
        ensures
            r@ == self@,
    {
        let name: Option<String> = match &self.name {
            Some(s) => Some(s.clone()),
            None => None,
        };
        let r = Module {
            name,
            span: self.span,
            visibility: self.visibility,
            is_external: self.is_external,
            decls: crate::path::clone_strings(&self.decls),
        };
        proof {
            assert(r@ =~= self@);
        }
        r
    }
}

} // verus!
