//! Module paths: ordered sequences of name segments.
//!
//! A *relative* path locates a module from the package root, the root module
//! itself having the empty path. An *absolute* path carries the package name
//! as its first segment. Both are plain vectors of segments; equality and
//! prefix comparison are segmentwise.

use vstd::prelude::*;

verus! {

/// An elementwise copy of a vector of strings.
pub fn clone_strings(v: &Vec<String>) -> (r: Vec<String>)
    ensures
        r.deep_view() == v.deep_view(),
{
    let mut r: Vec<String> = Vec::new();
    let mut i: usize = 0;
    while i < v.len()
        invariant
            i <= v.len(),
            r@.len() == i,
            r.deep_view() =~= v.deep_view().take(i as int),
        decreases v.len() - i,
    {
        let c: String = v[i].clone();
        let ghost prev: Seq<String> = r@;
        let ghost prevdv: Seq<Seq<char>> = r.deep_view();
        r.push(c);
        proof {
            assert forall|j: int| 0 <= j < i + 1 implies
                r.deep_view()[j] == v.deep_view()[j] by {
                if j < i {
                    assert(prevdv[j] == prev[j].deep_view());
                    assert(r.deep_view()[j] == prev[j].deep_view());
                    assert(prevdv[j] == v.deep_view().take(i as int)[j]);
                } else {
                    assert(r@[j] == c);
                }
            }
            assert(r.deep_view() =~= v.deep_view().take(i + 1 as int));
        }
        i += 1;
    }
    proof {
        assert(r.deep_view() =~= v.deep_view());
    }
    r
}

/// Segmentwise equality of two paths.
pub fn path_eq(a: &Vec<String>, b: &Vec<String>) -> (r: bool)
    ensures
        r == (a.deep_view() == b.deep_view()),
{
    if a.len() != b.len() {
        proof {
            assert(a.deep_view().len() == a@.len());
            assert(b.deep_view().len() == b@.len());
        }
        return false;
    }
    let mut i: usize = 0;
    while i < a.len()
        invariant
            i <= a.len(),
            a@.len() == b@.len(),
            forall|k: int| 0 <= k < i ==> a.deep_view()[k] == b.deep_view()[k],
        decreases a.len() - i,
    {
        if !(a[i] == b[i]) {
            proof {
                assert(a.deep_view()[i as int] != b.deep_view()[i as int]);
            }
            return false;
        }
        i += 1;
    }
    proof {
        assert(a.deep_view() =~= b.deep_view());
    }
    true
}

/// A copy of `base` with `name` appended.
pub fn path_push(base: &Vec<String>, name: &String) -> (r: Vec<String>)
    ensures
        r.deep_view() == base.deep_view().push(name@),
{
    let mut r = clone_strings(base);
    let ghost prev: Seq<String> = r@;
    let ghost prevdv: Seq<Seq<char>> = r.deep_view();
    r.push(name.clone());
    proof {
        assert forall|j: int| 0 <= j < prev.len() + 1 implies
            r.deep_view()[j] == base.deep_view().push(name@)[j] by {
            if j < prev.len() {
                assert(prevdv[j] == prev[j].deep_view());
                assert(r.deep_view()[j] == prev[j].deep_view());
            } else {
                assert(r@[j] == name);
            }
        }
        assert(r.deep_view() =~= base.deep_view().push(name@));
    }
    r
}

/// The concatenation of two paths.
pub fn path_concat(a: &Vec<String>, b: &Vec<String>) -> (r: Vec<String>)
    ensures
        r.deep_view() == a.deep_view() + b.deep_view(),
{
    let mut r = clone_strings(a);
    proof {
        assert(r@.len() == r.deep_view().len());
        assert(a@.len() == a.deep_view().len());
    }
    let mut i: usize = 0;
    while i < b.len()
        invariant
            i <= b.len(),
            r@.len() == a@.len() + i,
            r.deep_view() =~= a.deep_view() + b.deep_view().take(i as int),
        decreases b.len() - i,
    {
        let c: String = b[i].clone();
        let ghost prev: Seq<String> = r@;
        let ghost prevdv: Seq<Seq<char>> = r.deep_view();
        r.push(c);
        proof {
            assert forall|j: int| 0 <= j < prev.len() + 1 implies
                r.deep_view()[j] == (a.deep_view() + b.deep_view().take(i + 1 as int))[j] by {
                if j < prev.len() {
                    assert(prevdv[j] == prev[j].deep_view());
                    assert(r.deep_view()[j] == prev[j].deep_view());
                    assert(prevdv[j] == (a.deep_view() + b.deep_view().take(i as int))[j]);
                } else {
                    assert(r@[j] == c);
                }
            }
            assert(r.deep_view() =~= a.deep_view() + b.deep_view().take(i + 1 as int));
        }
        i += 1;
    }
    proof {
        assert(b.deep_view().take(b@.len() as int) =~= b.deep_view());
        assert(r.deep_view() =~= a.deep_view() + b.deep_view());
    }
    r
}

} // verus!
