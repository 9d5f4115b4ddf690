//! The namespace cursor: the current-position-aware view over the module
//! tree used while type-checking.
//!
//! A `Namespace` owns the tree of a package's modules together with the
//! relative path of the module currently being checked. Checking descends
//! into a submodule through [`Namespace::enter_submodule`], which hands back
//! a [`SubmoduleNamespace`] guard; releasing the guard restores the previous
//! position, so recursive descent can nest arbitrarily deep and always come
//! back to where it was.

use vstd::prelude::*;

use crate::Fault;
use crate::module::{Module, ModuleView, Span, Visibility};
use crate::path::{clone_strings, path_concat, path_push};
use crate::root::{module_replaced, Root};
use crate::submodule_namespace::SubmoduleNamespace;

verus! {

/// Asks that a type be inserted into the trait map when an implementation
/// of a trait cannot be found. Carried by callers of the (external)
/// resolver; this layer only transports the request.
#[derive(Clone, Copy, PartialEq, Eq, Structural, Debug)]
pub enum TryInsertingTraitImplOnFailure {
    Yes,
    No,
}

/// The set of items that represent the namespace context passed throughout
/// type checking.
pub struct Namespace {
    /// An immutable module template holding the names that should always be
    /// present, no matter what module is being checked; every freshly
    /// created submodule starts from it.
    pub(crate) init: Module,
    /// The root of the package's namespace, from which every module can be
    /// addressed.
    pub(crate) root: Root,
    /// The path, relative to `root`, of the module currently being checked:
    /// empty while checking the root module itself.
    pub(crate) mod_path: Vec<String>,
}

impl Namespace {
    /// The seed template every fresh submodule starts from.
    pub closed spec fn spec_init(self) -> Module {
        self.init
    }

    /// The module tree.
    pub closed spec fn spec_root(self) -> Root {
        self.root
    }

    /// The current path, as a sequence of segments.
    pub closed spec fn spec_mod_path(self) -> Seq<Seq<char>> {
        self.mod_path.deep_view()
    }

    /// Lets the sibling modules of this crate connect the cursor's spec
    /// views to its fields.
    pub(crate) proof fn reveal_spec(self)
        ensures
            self.spec_init() == self.init,
            self.spec_root() == self.root,
            self.spec_mod_path() == self.mod_path.deep_view(),
    {
    }

    /// The cursor's invariant: the tree is well formed and the current path
    /// always names an existing node — the cursor never points outside the
    /// tree.
    pub open spec fn wf(self) -> bool {
        &&& self.spec_root().wf()
        &&& self.spec_root().has_path(self.spec_mod_path())
    }

    /// Initialise the namespace at its root from the given initial module:
    /// the tree starts as a single root node copied from `init`, and the
    /// cursor stands on it.
    pub fn init_root(init: Module) -> (r: Namespace)
        ensures
            r.wf(),
            r.spec_init() == init,
            r.spec_mod_path() == Seq::<Seq<char>>::empty(),
            forall|q: Seq<Seq<char>>|
                r.spec_root().has_path(q) <==> q == Seq::<Seq<char>>::empty(),
            r.spec_root().module_at_spec(Seq::empty()) == init@,
    {
        let root = Root::new(init.duplicate());
        let mod_path: Vec<String> = Vec::new();
        let r = Namespace { init, root, mod_path };
        proof {
            assert(r.mod_path.deep_view() =~= Seq::<Seq<char>>::empty());
        }
        r
    }

    /// A reference to the path of the module currently being type-checked.
    pub fn mod_path(&self) -> (p: &Vec<String>)
        ensures
            p.deep_view() == self.spec_mod_path(),
    {
        &self.mod_path
    }

    /// The path naming `prefixes` relative to the current module: the
    /// current path followed by the given segments. Pure: it reads only the
    /// cursor and never touches the tree, so callers may name a module
    /// before it exists.
    pub fn find_module_path(&self, prefixes: &Vec<String>) -> (r: Vec<String>)
        ensures
            r.deep_view() == self.spec_mod_path() + prefixes.deep_view(),
    {
        path_concat(&self.mod_path, prefixes)
    }

    /// A reference to the root of the package's namespace.
    pub fn root(&self) -> (r: &Root)
        ensures
            *r == self.spec_root(),
    {
        &self.root
    }

    /// A mutable reference to the root of the package's namespace.
    pub fn root_mut(&mut self) -> (r: &mut Root)
        ensures
            *r == old(self).spec_root(),
            final(self).spec_root() == *final(r),
            final(self).spec_init() == old(self).spec_init(),
            final(self).spec_mod_path() == old(self).spec_mod_path(),
    {
        &mut self.root
    }

    /// Access to the current module: the module at the cursor's path, which
    /// the invariant keeps present.
    pub fn module(&self) -> (m: &Module)
        requires
            self.wf(),
        ensures
            m@ == self.spec_root().module_at_spec(self.spec_mod_path()),
    {
        self.root.module_at_present(&self.mod_path)
    }

    /// Mutable access to the current module. Only the module's payload can
    /// change through the returned reference; the tree's shape and the
    /// cursor stay as they were.
    pub fn module_mut(&mut self) -> (m: &mut Module)
        requires
            old(self).wf(),
        ensures
            (*m)@ == old(self).spec_root().module_at_spec(old(self).spec_mod_path()),
            current_module_replaced(*old(self), *final(self), *final(m)),
    {
        self.root.module_at_mut_present(&self.mod_path)
    }

    /// "Enter" the submodule `mod_name` of the current module, creating it
    /// from the `init` template if it does not exist yet, refreshing its
    /// name, span and visibility, and marking it as belonging to this
    /// package. The cursor moves onto the child; the returned guard
    /// remembers the parent path and restores it when released.
    pub fn enter_submodule(
        &mut self,
        mod_name: String,
        visibility: Visibility,
        module_span: Span,
    ) -> (g: SubmoduleNamespace)
        requires
            old(self).wf(),
        ensures
            final(self).wf(),
            enter_effect(*old(self), *final(self), g, mod_name@, visibility, module_span),
    {
        let parent_mod_path = clone_strings(&self.mod_path);
        let submod_path = path_push(&self.mod_path, &mod_name);
        let guard_path = clone_strings(&submod_path);
        self.root.ensure_child(&self.mod_path, &mod_name, &self.init, visibility, module_span);
        self.mod_path = submod_path;
        let g = SubmoduleNamespace { parent_mod_path, submod_path: guard_path };
        proof {
            g.reveal_views();
        }
        g
    }

    /// Returns whether the current module is a (direct or indirect)
    /// submodule of the module named by `absolute_module_path`, whose first
    /// segment is the package name. When the two are the same module,
    /// `true_if_same` is returned. An unset package name is a
    /// `BrokenInvariant` fault; an empty path is a `MalformedPath` fault.
    pub fn module_is_submodule_of(
        &self,
        absolute_module_path: &Vec<String>,
        true_if_same: bool,
    ) -> (r: Result<bool, Fault>)
        requires
            self.wf(),
        ensures
            ({
                let abs = absolute_module_path.deep_view();
                match self.spec_root().package_name_spec() {
                    None => r == Err::<bool, Fault>(Fault::BrokenInvariant),
                    Some(pkg) => if abs.len() == 0 {
                        r == Err::<bool, Fault>(Fault::MalformedPath)
                    } else {
                        r == Ok::<bool, Fault>(
                            is_submodule_of_spec(self.spec_mod_path(), pkg, abs, true_if_same),
                        )
                    },
                }
            }),
    {
        let root_module = self.root.root_module();
        let root_name = match &root_module.name {
            Some(n) => n,
            None => {
                return Err(Fault::BrokenInvariant);
            },
        };
        if absolute_module_path.len() == 0 {
            return Err(Fault::MalformedPath);
        }
        if !(*root_name == absolute_module_path[0]) {
            return Ok(false);
        }
        let rest_len = absolute_module_path.len() - 1;
        if self.mod_path.len() < rest_len {
            return Ok(false);
        }
        let ghost abs = absolute_module_path.deep_view();
        let ghost cur = self.spec_mod_path();
        let mut i: usize = 0;
        #[verifier::loop_isolation(false)]
        while i < rest_len
            invariant
                i <= rest_len,
                forall|k: int| 0 <= k < i ==> abs[k + 1] == cur[k],
            decreases rest_len - i,
        {
            if !(absolute_module_path[i + 1] == self.mod_path[i]) {
                proof {
                    assert(abs[i + 1] != cur[i as int]);
                    assert(abs.drop_first()[i as int] != cur.take((abs.len() - 1) as int)[i as int]);
                }
                return Ok(false);
            }
            i += 1;
        }
        proof {
            assert(abs.drop_first() =~= cur.take((abs.len() - 1) as int));
        }
        if self.mod_path.len() == rest_len {
            Ok(true_if_same)
        } else {
            Ok(true)
        }
    }

    /// Returns whether the module named by `absolute_module_path` is
    /// external to the current package: true exactly when its first segment
    /// differs from the package name. An unset package name is a
    /// `BrokenInvariant` fault; an empty path is a `MalformedPath` fault.
    pub fn module_is_external(&self, absolute_module_path: &Vec<String>) -> (r: Result<
        bool,
        Fault,
    >)
        requires
            self.wf(),
        ensures
            ({
                let abs = absolute_module_path.deep_view();
                match self.spec_root().package_name_spec() {
                    None => r == Err::<bool, Fault>(Fault::BrokenInvariant),
                    Some(pkg) => if abs.len() == 0 {
                        r == Err::<bool, Fault>(Fault::MalformedPath)
                    } else {
                        r == Ok::<bool, Fault>(abs[0] != pkg)
                    },
                }
            }),
    {
        let root_module = self.root.root_module();
        match &root_module.name {
            None => Err(Fault::BrokenInvariant),
            Some(n) => {
                if absolute_module_path.len() == 0 {
                    Err(Fault::MalformedPath)
                } else {
                    Ok(!(*n == absolute_module_path[0]))
                }
            },
        }
    }
}

/// `post` is `pre` with the module at the cursor (and nothing else)
/// replaced by `m`: what a caller of `module_mut` did to the tree.
pub open spec fn current_module_replaced(pre: Namespace, post: Namespace, m: Module) -> bool {
    &&& post.spec_init() == pre.spec_init()
    &&& post.spec_mod_path() == pre.spec_mod_path()
    &&& module_replaced(pre.spec_root(), post.spec_root(), pre.spec_mod_path(), m)
}

/// What mutating the current module leaves in place: the cursor, the set of
/// addressed paths, and every other module.
pub proof fn lemma_current_module_replaced(pre: Namespace, post: Namespace, m: Module)
    requires
        pre.wf(),
        current_module_replaced(pre, post, m),
    ensures
        post.wf(),
        post.spec_init() == pre.spec_init(),
        post.spec_mod_path() == pre.spec_mod_path(),
        forall|q: Seq<Seq<char>>|
            post.spec_root().has_path(q) <==> pre.spec_root().has_path(q),
        post.spec_root().module_at_spec(pre.spec_mod_path()) == m@,
        forall|q: Seq<Seq<char>>|
            pre.spec_root().has_path(q) && q != pre.spec_mod_path()
                ==> post.spec_root().module_at_spec(q) == pre.spec_root().module_at_spec(q),
{
    crate::root::lemma_module_replaced(
        pre.spec_root(),
        post.spec_root(),
        pre.spec_mod_path(),
        m,
    );
}

/// Everything `enter_submodule` does: the guard remembers the parent path
/// and the entered path; the cursor moves onto the child; the child is
/// addressable, carries the given metadata, is not external, and keeps its
/// declarations if it already existed (a fresh child starts from the seed
/// template); every other module is untouched.
pub open spec fn enter_effect(
    pre: Namespace,
    post: Namespace,
    g: SubmoduleNamespace,
    name: Seq<char>,
    visibility: Visibility,
    span: Span,
) -> bool {
    let p = pre.spec_mod_path().push(name);
    &&& g.parent_view() == pre.spec_mod_path()
    &&& g.entered_view() == p
    &&& post.spec_mod_path() == p
    &&& post.spec_init() == pre.spec_init()
    &&& post.spec_root().wf()
    &&& (forall|q: Seq<Seq<char>>|
        post.spec_root().has_path(q) <==> (pre.spec_root().has_path(q) || q == p))
    &&& post.spec_root().module_at_spec(p) == (ModuleView {
        name: Some(name),
        span: Some(span),
        visibility: visibility,
        is_external: false,
        decls: if pre.spec_root().has_path(p) {
            pre.spec_root().module_at_spec(p).decls
        } else {
            pre.spec_init()@.decls
        },
    })
    &&& (forall|q: Seq<Seq<char>>|
        pre.spec_root().has_path(q) && q != p
            ==> post.spec_root().module_at_spec(q) == pre.spec_root().module_at_spec(q))
}

/// Everything releasing a guard does: the cursor returns to the saved
/// parent path; the template and the whole tree stay untouched.
pub open spec fn release_effect(pre: Namespace, post: Namespace, g: SubmoduleNamespace) -> bool {
    &&& post.spec_mod_path() == g.parent_view()
    &&& post.spec_init() == pre.spec_init()
    &&& post.spec_root() == pre.spec_root()
}

/// The submodule relation over paths: the current module (at `mod_path`,
/// which omits the package name) lies at or below the module named by the
/// absolute path `abs` exactly when `abs` starts with the package name and
/// its remaining segments are a prefix of `mod_path`; when they are all of
/// `mod_path`, the two are the same module and `true_if_same` decides.
pub open spec fn is_submodule_of_spec(
    mod_path: Seq<Seq<char>>,
    package_name: Seq<char>,
    abs: Seq<Seq<char>>,
    true_if_same: bool,
) -> bool
    recommends
        abs.len() > 0,
{
    let rest = abs.drop_first();
    if abs[0] != package_name {
        false
    } else if mod_path.len() < rest.len() {
        false
    } else if rest == mod_path.take(rest.len() as int) {
        if mod_path.len() == rest.len() {
            true_if_same
        } else {
            true
        }
    } else {
        false
    }
}

} // verus!
