//! Descent in the hierarchy, and the proof that the depth-first order of a
//! subtree names the descendants of its root and nothing else.

use vstd::prelude::*;
use crate::model::subtree;
use crate::model::subtrees;
use crate::scene::hierarchy;

verus! {

/// Whether `path` leads from node to child, without a gap.
pub open spec fn is_path(children: Seq<Seq<usize>>, path: Seq<usize>) -> bool {
    &&& path.len() > 0
    &&& forall|j: int| 0 <= j < path.len() ==> (#[trigger] path[j]) < children.len()
    &&& forall|j: int|
        0 <= j < path.len() - 1 ==> children[(#[trigger] path[j]) as int].contains(path[j + 1])
}

/// Whether `n` is `root` itself or one of its descendants.
pub open spec fn beneath(children: Seq<Seq<usize>>, root: usize, n: usize) -> bool {
    exists|path: Seq<usize>| #[trigger]
        is_path(children, path) && path[0] == root && path.last() == n
}

/// Whatever lies beneath a node is a node.
pub proof fn lemma_beneath_is_node(children: Seq<Seq<usize>>, root: usize, n: usize)
    requires
        beneath(children, root, n),
    ensures
        root < children.len(),
        n < children.len(),
{
    let path = choose|path: Seq<usize>| #[trigger]
        is_path(children, path) && path[0] == root && path.last() == n;
    assert(path[0] < children.len());
    assert(path[path.len() - 1] < children.len());
}

/// What the first `k` children of `n` contribute stays when more children are
/// taken.
pub proof fn lemma_subtrees_grow(children: Seq<Seq<usize>>, n: usize, k: int, m: int, x: usize)
    requires
        0 <= k <= m,
        subtrees(children, n, k).contains(x),
    ensures
        n < children.len(),
        k <= children[n as int].len(),
        m <= children[n as int].len() ==> subtrees(children, n, m).contains(x),
    decreases m - k,
{
    if k < m && m <= children[n as int].len() {
        lemma_subtrees_grow(children, n, k, m - 1, x);
        let child = children[n as int][m - 1];
        let shorter = subtrees(children, n, m - 1);
        let j = choose|j: int| 0 <= j < shorter.len() && shorter[j] == x;
        if n < child < children.len() {
            assert((shorter + subtree(children, child))[j] == x);
        }
    }
}

/// The subtree of a child lies in the subtree of its parent.
pub proof fn lemma_child_subtree(children: Seq<Seq<usize>>, n: usize, k: int, x: usize)
    requires
        hierarchy(children),
        n < children.len(),
        0 <= k < children[n as int].len(),
        subtree(children, children[n as int][k]).contains(x),
    ensures
        subtree(children, n).contains(x),
{
    let child = children[n as int][k];
    let below = subtree(children, child);
    let upto = subtrees(children, n, k);
    let j = choose|j: int| 0 <= j < below.len() && below[j] == x;
    assert(subtrees(children, n, k + 1) == upto + below);
    assert((upto + below)[upto.len() + j] == x);
    lemma_subtrees_grow(children, n, k + 1, children[n as int].len() as int, x);
    let all = subtrees(children, n, children[n as int].len() as int);
    let i = choose|i: int| 0 <= i < all.len() && all[i] == x;
    assert((seq![n] + all)[1 + i] == x);
}

/// The depth-first order of a subtree names the node at the end of every path
/// that starts at its root.
pub proof fn lemma_path_in_subtree(children: Seq<Seq<usize>>, path: Seq<usize>)
    requires
        hierarchy(children),
        is_path(children, path),
    ensures
        subtree(children, path[0]).contains(path.last()),
    decreases path.len(),
{
    let root = path[0];
    if path.len() == 1 {
        assert(subtree(children, root)[0] == root);
    } else {
        let rest = path.drop_first();
        assert forall|j: int| 0 <= j < rest.len() implies (#[trigger] rest[j]) < children.len() by {
            assert(rest[j] == path[j + 1]);
        }
        assert forall|j: int| 0 <= j < rest.len() - 1 implies children[(#[trigger] rest[j]) as int].contains(
            rest[j + 1],
        ) by {
            assert(rest[j] == path[j + 1]);
            assert(rest[j + 1] == path[j + 2]);
        }
        lemma_path_in_subtree(children, rest);
        assert(rest[0] == path[1]);
        assert(rest.last() == path.last());
        assert(children[root as int].contains(path[1]));
        let k = choose|k: int| 0 <= k < children[root as int].len() && children[root as int][k] == path[1];
        lemma_child_subtree(children, root, k, path.last());
    }
}

/// Every node that the first `k` children of `n` contribute lies beneath `n`.
pub proof fn lemma_subtrees_beneath(children: Seq<Seq<usize>>, n: usize, k: int, x: usize)
    requires
        subtrees(children, n, k).contains(x),
    ensures
        beneath(children, n, x),
    decreases children.len() - n, k,
{
    let child = children[n as int][k - 1];
    let shorter = subtrees(children, n, k - 1);
    if n < child < children.len() {
        let below = subtree(children, child);
        let j = choose|j: int| 0 <= j < (shorter + below).len() && (shorter + below)[j] == x;
        if j < shorter.len() {
            assert(shorter[j] == x);
            lemma_subtrees_beneath(children, n, k - 1, x);
        } else {
            assert(below[j - shorter.len()] == x);
            lemma_subtree_beneath(children, child, x);
            let tail = choose|path: Seq<usize>| #[trigger]
                is_path(children, path) && path[0] == child && path.last() == x;
            let path = seq![n] + tail;
            assert forall|j: int| 0 <= j < path.len() - 1 implies children[(#[trigger] path[j]) as int].contains(
                path[j + 1],
            ) by {
                if j == 0 {
                    assert(children[n as int][k - 1] == path[1]);
                } else {
                    assert(path[j] == tail[j - 1]);
                    assert(path[j + 1] == tail[j]);
                }
            }
            assert(is_path(children, path) && path[0] == n && path.last() == x);
        }
    } else {
        lemma_subtrees_beneath(children, n, k - 1, x);
    }
}

/// Every node that the depth-first order of a subtree names lies beneath its
/// root.
pub proof fn lemma_subtree_beneath(children: Seq<Seq<usize>>, root: usize, x: usize)
    requires
        subtree(children, root).contains(x),
    ensures
        beneath(children, root, x),
    decreases children.len() - root,
        if root < children.len() {
            children[root as int].len() + 1
        } else {
            0
        },
{
    let all = subtrees(children, root, children[root as int].len() as int);
    let j = choose|j: int| 0 <= j < (seq![root] + all).len() && (seq![root] + all)[j] == x;
    if j == 0 {
        let path = seq![root];
        assert(is_path(children, path) && path[0] == root && path.last() == x);
    } else {
        assert(all[j - 1] == x);
        lemma_subtrees_beneath(children, root, children[root as int].len() as int, x);
    }
}

/// In a sound hierarchy the depth-first order of a subtree names exactly the
/// root and its descendants.
pub proof fn lemma_subtree_is_descent(children: Seq<Seq<usize>>, root: usize, x: usize)
    requires
        hierarchy(children),
    ensures
        subtree(children, root).contains(x) <==> beneath(children, root, x),
{
    if subtree(children, root).contains(x) {
        lemma_subtree_beneath(children, root, x);
    }
    if beneath(children, root, x) {
        let path = choose|path: Seq<usize>| #[trigger]
            is_path(children, path) && path[0] == root && path.last() == x;
        lemma_path_in_subtree(children, path);
    }
}

} // verus!
