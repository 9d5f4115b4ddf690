//! The root of a package's namespace: the tree of its modules.
//!
//! Nodes are addressed by their path from the root module (the root module
//! itself sits at the empty path), so the tree holds exactly one node per
//! path: `wf` keeps the stored paths unique, and every lookup and update is
//! phrased over the path-to-module mapping that `has_path` and
//! `module_at_spec` describe.

use vstd::prelude::*;
use vstd::pervasive::VecAdditionalExecFns;

use crate::Fault;
use crate::module::{Module, ModuleView, Span, Visibility};
use crate::path::{clone_strings, path_eq, path_push};

verus! {

/// One entry of the tree: the module that lives at `path`, a path relative
/// to the package root.
pub struct TreeNode {
    pub path: Vec<String>,
    pub module: Module,
}

/// The tree of modules of one package.
pub struct Root {
    nodes: Vec<TreeNode>,
}

impl Root {
    /// Whether some module lives at path `p`.
    pub closed spec fn has_path(self, p: Seq<Seq<char>>) -> bool {
        exists|i: int|
            0 <= i < self.nodes@.len() && self.nodes@[i].path.deep_view() == p
    }

    /// The position of the node that lives at `p`; meaningful under `wf`
    /// whenever `has_path(p)` holds.
    pub closed spec fn index_of(self, p: Seq<Seq<char>>) -> int {
        choose|i: int|
            0 <= i < self.nodes@.len() && self.nodes@[i].path.deep_view() == p
    }

    /// The module that lives at `p`.
    pub closed spec fn module_at_spec(self, p: Seq<Seq<char>>) -> ModuleView {
        self.nodes@[self.index_of(p)].module@
    }

    /// The tree's invariant: at most one node per path, a root module at the
    /// empty path, and every non-root node's parent present as well.
    pub closed spec fn wf(self) -> bool {
        &&& (forall|i: int, j: int|
            0 <= i < self.nodes@.len() && 0 <= j < self.nodes@.len() && i != j
                ==> self.nodes@[i].path.deep_view() != self.nodes@[j].path.deep_view())
        &&& self.has_path(Seq::empty())
        &&& (forall|i: int|
            0 <= i < self.nodes@.len() && self.nodes@[i].path.deep_view().len() > 0
                ==> self.has_path(#[trigger] self.nodes@[i].path.deep_view().drop_last()))
    }

    /// The package name: the root module's name, set once at construction.
    pub open spec fn package_name_spec(self) -> Option<Seq<char>> {
        self.module_at_spec(Seq::empty()).name
    }

    /// Under `wf`, a node found at position `i` is the node `index_of` names.
    proof fn lemma_index_of(self, i: int, p: Seq<Seq<char>>)
        requires
            self.wf(),
            0 <= i < self.nodes@.len(),
            self.nodes@[i].path.deep_view() == p,
        ensures
            self.has_path(p),
            self.index_of(p) == i,
    {
        assert(self.has_path(p));
        let j = self.index_of(p);
        assert(0 <= j < self.nodes@.len() && self.nodes@[j].path.deep_view() == p);
        if i != j {
            assert(self.nodes@[i].path.deep_view() != self.nodes@[j].path.deep_view());
            assert(false);
        }
    }

    /// A tree holding just the given root module.
    pub fn new(root_module: Module) -> (r: Root)
        ensures
            r.wf(),
            forall|q: Seq<Seq<char>>| r.has_path(q) <==> q == Seq::<Seq<char>>::empty(),
            r.module_at_spec(Seq::empty()) == root_module@,
    {
        let nodes = vec![TreeNode { path: Vec::new(), module: root_module }];
        let r = Root { nodes };
        proof {
            assert(r.nodes@[0].path.deep_view() =~= Seq::<Seq<char>>::empty());
            assert(r.has_path(Seq::empty()));
            assert forall|q: Seq<Seq<char>>| r.has_path(q) implies
                q == Seq::<Seq<char>>::empty() by {
                let i = choose|i: int|
                    0 <= i < r.nodes@.len() && r.nodes@[i].path.deep_view() == q;
                assert(i == 0);
            }
            r.lemma_index_of(0, Seq::empty());
        }
        r
    }

    /// The node at `p`, if any; `None` means no node lives there.
    fn find_index(&self, p: &Vec<String>) -> (r: Option<usize>)
        ensures
            match r {
                Some(i) => i < self.nodes@.len()
                    && self.nodes@[i as int].path.deep_view() == p.deep_view()
                    && self.has_path(p.deep_view()),
                None => !self.has_path(p.deep_view()),
            },
    {
        let mut i: usize = 0;
        while i < self.nodes.len()
            invariant
                i <= self.nodes@.len(),
                forall|k: int| 0 <= k < i
                    ==> self.nodes@[k].path.deep_view() != p.deep_view(),
            decreases self.nodes@.len() - i,
        {
            if path_eq(&self.nodes[i].path, p) {
                return Some(i);
            }
            i += 1;
        }
        None
    }

    /// Whether the addressed path resolves to a module of this tree.
    pub fn has_module(&self, path: &Vec<String>) -> (r: bool)
        ensures
            r == self.has_path(path.deep_view()),
    {
        self.find_index(path).is_some()
    }

    /// Addressed lookup from the root. A path with no corresponding node
    /// surfaces as a `MissingModule` fault, never as a crash.
    pub fn module_at(&self, path: &Vec<String>) -> (r: Result<&Module, Fault>)
        requires
            self.wf(),
        ensures
            match r {
                Ok(m) => self.has_path(path.deep_view())
                    && m@ == self.module_at_spec(path.deep_view()),
                Err(f) => !self.has_path(path.deep_view()) && f == Fault::MissingModule,
            },
    {
        match self.find_index(path) {
            Some(i) => {
                proof {
                    self.lemma_index_of(i as int, path.deep_view());
                }
                Ok(&self.nodes[i].module)
            },
            None => Err(Fault::MissingModule),
        }
    }

    /// Lookup of a path the caller knows to be present.
    pub(crate) fn module_at_present(&self, path: &Vec<String>) -> (m: &Module)
        requires
            self.wf(),
            self.has_path(path.deep_view()),
        ensures
            m@ == self.module_at_spec(path.deep_view()),
    {
        match self.find_index(path) {
            Some(i) => {
                proof {
                    self.lemma_index_of(i as int, path.deep_view());
                }
                &self.nodes[i].module
            },
            None => {
                proof {
                    assert(false);
                }
                &self.nodes[0].module
            },
        }
    }

    /// The root module, which always exists.
    pub fn root_module(&self) -> (m: &Module)
        requires
            self.wf(),
        ensures
            m@ == self.module_at_spec(Seq::empty()),
    {
        let empty: Vec<String> = Vec::new();
        proof {
            assert(empty.deep_view() =~= Seq::<Seq<char>>::empty());
        }
        self.module_at_present(&empty)
    }

    /// Mutable addressed lookup from the root. A path with no corresponding
    /// node surfaces as a `MissingModule` fault, never as a crash, and
    /// leaves the tree untouched. Through the returned reference only the
    /// addressed module's payload can change; the tree's shape stays.
    pub fn module_at_mut(&mut self, path: &Vec<String>) -> (r: Result<&mut Module, Fault>)
        requires
            old(self).wf(),
        ensures
            old(self).has_path(path.deep_view()) ==> (r matches Ok(m)
                && (*m)@ == old(self).module_at_spec(path.deep_view())
                && module_replaced(*old(self), *final(self), path.deep_view(), *final(m))),
            !old(self).has_path(path.deep_view()) ==> (r matches Err(f)
                && f == Fault::MissingModule
                && *final(self) == *old(self)),
    {
        match self.find_index(path) {
            Some(i) => {
                proof {
                    self.lemma_index_of(i as int, path.deep_view());
                }
                let node = &mut self.nodes[i];
                Ok(&mut node.module)
            },
            None => Err(Fault::MissingModule),
        }
    }

    /// Mutable access to the module at a path the caller has already shown
    /// to be present.
    pub(crate) fn module_at_mut_present(&mut self, path: &Vec<String>) -> (m: &mut Module)
        requires
            old(self).wf(),
            old(self).has_path(path.deep_view()),
        ensures
            (*m)@ == old(self).module_at_spec(path.deep_view()),
            module_replaced(*old(self), *final(self), path.deep_view(), *final(m)),
    {
        let i: usize = match self.find_index(path) {
            Some(i) => i,
            None => {
                proof {
                    assert(false);
                }
                0
            },
        };
        proof {
            self.lemma_index_of(i as int, path.deep_view());
        }
        let node = &mut self.nodes[i];
        &mut node.module
    }

    /// Ensure the module at `at` has a child named `name`, creating it from
    /// `seed` if it is missing, and refresh the child's metadata: entering a
    /// submodule of the current package makes it, by definition, not
    /// external. An existing child keeps its declarations; a fresh one
    /// starts from the seed's.
    pub fn ensure_child(
        &mut self,
        at: &Vec<String>,
        name: &String,
        seed: &Module,
        visibility: Visibility,
        span: Span,
    )
        requires
            old(self).wf(),
            old(self).has_path(at.deep_view()),
        ensures
            ({
                let p = at.deep_view().push(name@);
                &&& final(self).wf()
                &&& (forall|q: Seq<Seq<char>>|
                    final(self).has_path(q) <==> (old(self).has_path(q) || q == p))
                &&& final(self).module_at_spec(p) == (ModuleView {
                    name: Some(name@),
                    span: Some(span),
                    visibility: visibility,
                    is_external: false,
                    decls: if old(self).has_path(p) {
                        old(self).module_at_spec(p).decls
                    } else {
                        seed@.decls
                    },
                })
                &&& (forall|q: Seq<Seq<char>>|
                    old(self).has_path(q) && q != p
                        ==> final(self).module_at_spec(q) == old(self).module_at_spec(q))
            }),
    {
        let ghost p = at.deep_view().push(name@);
        let child_path = path_push(at, name);
        match self.find_index(&child_path) {
            Some(i) => {
                let refreshed = Module {
                    name: Some(name.clone()),
                    span: Some(span),
                    visibility,
                    is_external: false,
                    decls: clone_strings(&self.nodes[i].module.decls),
                };
                let kept_path = clone_strings(&self.nodes[i].path);
                let ghost pre = *self;
                self.nodes.set(i, TreeNode { path: kept_path, module: refreshed });
                proof {
                    pre.lemma_index_of(i as int, p);
                    self.lemma_same_paths_preserves(pre, p, i as int);
                }
            },
            None => {
                let mut created = seed.duplicate();
                created.name = Some(name.clone());
                created.span = Some(span);
                created.visibility = visibility;
                created.is_external = false;
                let ghost pre = *self;
                self.nodes.push(TreeNode { path: child_path, module: created });
                proof {
                    let n = pre.nodes@.len() as int;
                    assert(self.nodes@[n].path.deep_view() == p);
                    assert forall|q: Seq<Seq<char>>|
                        self.has_path(q) <==> (pre.has_path(q) || q == p) by {
                        if self.has_path(q) {
                            let k = choose|k: int|
                                0 <= k < self.nodes@.len()
                                    && self.nodes@[k].path.deep_view() == q;
                            if k < n {
                                assert(pre.nodes@[k].path.deep_view() == q);
                                assert(pre.has_path(q));
                            }
                        }
                        if pre.has_path(q) {
                            let k = choose|k: int|
                                0 <= k < pre.nodes@.len()
                                    && pre.nodes@[k].path.deep_view() == q;
                            assert(self.nodes@[k].path.deep_view() == q);
                            assert(self.has_path(q));
                        }
                        if q == p {
                            assert(self.has_path(q));
                        }
                    }
                    // uniqueness: the new node's path was absent before
                    assert forall|i2: int, j2: int|
                        0 <= i2 < self.nodes@.len() && 0 <= j2 < self.nodes@.len() && i2 != j2
                            implies self.nodes@[i2].path.deep_view()
                                != self.nodes@[j2].path.deep_view() by {
                        if i2 < n && j2 < n {
                            assert(pre.nodes@[i2].path.deep_view()
                                != pre.nodes@[j2].path.deep_view());
                        } else if i2 == n {
                            if self.nodes@[j2].path.deep_view() == p {
                                assert(pre.has_path(p));
                            }
                        } else if j2 == n {
                            if self.nodes@[i2].path.deep_view() == p {
                                assert(pre.has_path(p));
                            }
                        }
                    }
                    // parent closure: the new node's parent is `at`
                    assert(p.drop_last() =~= at.deep_view());
                    assert forall|i2: int|
                        0 <= i2 < self.nodes@.len()
                            && self.nodes@[i2].path.deep_view().len() > 0
                            implies self.has_path(
                            #[trigger] self.nodes@[i2].path.deep_view().drop_last(),
                        ) by {
                        if i2 < n {
                            assert(pre.has_path(pre.nodes@[i2].path.deep_view().drop_last()));
                        } else {
                            assert(self.nodes@[i2].path.deep_view().drop_last()
                                == at.deep_view());
                            assert(pre.has_path(at.deep_view()));
                        }
                    }
                    assert(self.wf());
                    self.lemma_index_of(n, p);
                    assert(self.module_at_spec(p) == self.nodes@[n].module@);
                    assert(self.nodes@[n].module@ =~= (ModuleView {
                        name: Some(name@),
                        span: Some(span),
                        visibility: visibility,
                        is_external: false,
                        decls: seed@.decls,
                    }));
                    assert forall|q: Seq<Seq<char>>| pre.has_path(q) && q != p implies
                        self.module_at_spec(q) == pre.module_at_spec(q) by {
                        let k = pre.index_of(q);
                        assert(0 <= k < pre.nodes@.len()
                            && pre.nodes@[k].path.deep_view() == q);
                        assert(self.nodes@[k].path.deep_view() == q);
                        self.lemma_index_of(k, q);
                    }
                }
            },
        }
    }

    /// Under `wf`, replacing the node at position `i` while keeping its path
    /// leaves every other path and module untouched.
    proof fn lemma_same_paths_preserves(self, pre: Root, p: Seq<Seq<char>>, i: int)
        requires
            pre.wf(),
            0 <= i < pre.nodes@.len(),
            pre.nodes@[i].path.deep_view() == p,
            self.nodes@.len() == pre.nodes@.len(),
            forall|k: int| 0 <= k < pre.nodes@.len()
                ==> self.nodes@[k].path.deep_view() == pre.nodes@[k].path.deep_view(),
            forall|k: int| 0 <= k < pre.nodes@.len() && k != i
                ==> self.nodes@[k].module == pre.nodes@[k].module,
        ensures
            self.wf(),
            forall|q: Seq<Seq<char>>| self.has_path(q) <==> pre.has_path(q),
            self.module_at_spec(p) == self.nodes@[i].module@,
            forall|q: Seq<Seq<char>>| pre.has_path(q) && q != p
                ==> self.module_at_spec(q) == pre.module_at_spec(q),
    {
        assert forall|q: Seq<Seq<char>>| self.has_path(q) <==> pre.has_path(q) by {
            if self.has_path(q) {
                let k = choose|k: int|
                    0 <= k < self.nodes@.len() && self.nodes@[k].path.deep_view() == q;
                assert(pre.nodes@[k].path.deep_view() == q);
                assert(pre.has_path(q));
            }
            if pre.has_path(q) {
                let k = choose|k: int|
                    0 <= k < pre.nodes@.len() && pre.nodes@[k].path.deep_view() == q;
                assert(self.nodes@[k].path.deep_view() == q);
                assert(self.has_path(q));
            }
        }
        assert forall|i2: int|
            0 <= i2 < self.nodes@.len() && self.nodes@[i2].path.deep_view().len() > 0
                implies self.has_path(
                #[trigger] self.nodes@[i2].path.deep_view().drop_last(),
            ) by {
            assert(pre.has_path(pre.nodes@[i2].path.deep_view().drop_last()));
        }
        assert(self.wf());
        self.lemma_index_of(i, p);
        assert forall|q: Seq<Seq<char>>| pre.has_path(q) && q != p implies
            self.module_at_spec(q) == pre.module_at_spec(q) by {
            let k = pre.index_of(q);
            assert(0 <= k < pre.nodes@.len() && pre.nodes@[k].path.deep_view() == q);
            assert(self.nodes@[k].path.deep_view() == q);
            self.lemma_index_of(k, q);
            if k == i {
                assert(q == p);
            }
        }
    }
}

/// `post` is `pre` with the module of the node at `p` (and nothing else)
/// replaced by `m`.
pub closed spec fn module_replaced(pre: Root, post: Root, p: Seq<Seq<char>>, m: Module) -> bool {
    let i = pre.index_of(p);
    &&& post.nodes@.len() == pre.nodes@.len()
    &&& (forall|k: int| 0 <= k < pre.nodes@.len()
        ==> post.nodes@[k].path == pre.nodes@[k].path)
    &&& (forall|k: int| 0 <= k < pre.nodes@.len() && k != i
        ==> post.nodes@[k].module == pre.nodes@[k].module)
    &&& post.nodes@[i].module == m
}

/// What replacing one module leaves in place: every path still addresses a
/// node, the replaced path now holds `m`, and every other module is
/// unchanged.
pub proof fn lemma_module_replaced(pre: Root, post: Root, p: Seq<Seq<char>>, m: Module)
    requires
        pre.wf(),
        pre.has_path(p),
        module_replaced(pre, post, p, m),
    ensures
        post.wf(),
        forall|q: Seq<Seq<char>>| post.has_path(q) <==> pre.has_path(q),
        post.module_at_spec(p) == m@,
        forall|q: Seq<Seq<char>>| pre.has_path(q) && q != p
            ==> post.module_at_spec(q) == pre.module_at_spec(q),
{
    let i = pre.index_of(p);
    assert(0 <= i < pre.nodes@.len() && pre.nodes@[i].path.deep_view() == p);
    post.lemma_same_paths_preserves(pre, p, i);
    assert(post.module_at_spec(p) == post.nodes@[i].module@);
}

} // verus!
