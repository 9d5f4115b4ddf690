//! The scoping discipline, proved once and for all over the effects that
//! the cursor operations promise.
//!
//! `enter_effect` and `release_effect` are exactly what
//! `Namespace::enter_submodule` and `SubmoduleNamespace::release` ensure,
//! so each law below holds of every pair of such calls.

use vstd::prelude::*;

use crate::module::{Span, Visibility};
use crate::namespace::{enter_effect, release_effect, Namespace};
use crate::submodule_namespace::SubmoduleNamespace;

verus! {

/// Law: after entering a submodule, the guard may be released at once: the
/// cursor stands exactly on the entered path, the saved parent path is
/// still in the tree, and the namespace is well formed.
pub proof fn lemma_enter_enables_release(
    pre: Namespace,
    mid: Namespace,
    g: SubmoduleNamespace,
    name: Seq<char>,
    visibility: Visibility,
    span: Span,
)
    requires
        pre.wf(),
        enter_effect(pre, mid, g, name, visibility, span),
    ensures
        mid.spec_mod_path() == g.entered_view(),
        mid.spec_root().has_path(g.parent_view()),
        mid.wf(),
{
}

/// Law: entering a submodule and then releasing the returned guard
/// restores the cursor to the path it had before entry, while the tree
/// keeps everything the entry built.
pub proof fn lemma_enter_then_release_restores(
    pre: Namespace,
    mid: Namespace,
    post: Namespace,
    g: SubmoduleNamespace,
    name: Seq<char>,
    visibility: Visibility,
    span: Span,
)
    requires
        pre.wf(),
        enter_effect(pre, mid, g, name, visibility, span),
        release_effect(mid, post, g),
    ensures
        post.spec_mod_path() == pre.spec_mod_path(),
        post.spec_init() == pre.spec_init(),
        post.spec_root() == mid.spec_root(),
        post.wf(),
{
}

/// Law: entries and releases nest in strict last-in-first-out order.
/// Entering `a` then `b` and releasing in the order `b`, `a` is possible at
/// each step (each guard's release condition holds when its turn comes) and
/// restores the path stepwise: after releasing `b` the cursor stands where
/// entering `a` left it, and after releasing `a` it stands where it started.
pub proof fn lemma_nested_enter_release(
    pre: Namespace,
    in_a: Namespace,
    in_b: Namespace,
    back_a: Namespace,
    back: Namespace,
    ga: SubmoduleNamespace,
    gb: SubmoduleNamespace,
    name_a: Seq<char>,
    name_b: Seq<char>,
    vis_a: Visibility,
    vis_b: Visibility,
    span_a: Span,
    span_b: Span,
)
    requires
        pre.wf(),
        enter_effect(pre, in_a, ga, name_a, vis_a, span_a),
        enter_effect(in_a, in_b, gb, name_b, vis_b, span_b),
        release_effect(in_b, back_a, gb),
        release_effect(back_a, back, ga),
    ensures
        // releasing b is possible right after entering it
        in_b.spec_mod_path() == gb.entered_view(),
        in_b.spec_root().has_path(gb.parent_view()),
        // it restores the position entering a established
        back_a.spec_mod_path() == in_a.spec_mod_path(),
        // then releasing a is possible
        back_a.spec_mod_path() == ga.entered_view(),
        back_a.spec_root().has_path(ga.parent_view()),
        // and restores the starting position
        back.spec_mod_path() == pre.spec_mod_path(),
        back.wf(),
{
    lemma_enter_enables_release(pre, in_a, ga, name_a, vis_a, span_a);
    lemma_enter_enables_release(in_a, in_b, gb, name_b, vis_b, span_b);
}

/// Law: re-entering an existing submodule name creates no duplicate child:
/// the tree addresses exactly the same set of paths afterwards. (That each
/// path addresses at most one module is built into the tree's model: every
/// lookup is a function of the path.)
pub proof fn lemma_reenter_no_new_node(
    pre: Namespace,
    post: Namespace,
    g: SubmoduleNamespace,
    name: Seq<char>,
    visibility: Visibility,
    span: Span,
)
    requires
        pre.wf(),
        pre.spec_root().has_path(pre.spec_mod_path().push(name)),
        enter_effect(pre, post, g, name, visibility, span),
    ensures
        forall|q: Seq<Seq<char>>|
            post.spec_root().has_path(q) <==> pre.spec_root().has_path(q),
{
}

} // verus!
