//! An unbalanced binary search tree of integers, with an in-order walk.
use vstd::prelude::*;

verus! {

pub enum BinaryTree {
    Empty,
    NonEmpty(Box<TreeNode>),
}

pub struct TreeNode {
    pub value: i64,
    pub left: BinaryTree,
    pub right: BinaryTree,
}

/// No element is greater than an element after it.
pub open spec fn sorted(s: Seq<i64>) -> bool {
    forall|i: int, j: int| 0 <= i < j < s.len() ==> s[i] <= s[j]
}

/// `t` is `s` with `e` put at index `p`, after every element of `s` that is
/// at most `e` and before every element that is greater. In a sorted `s`
/// there is exactly one such `p`.
pub open spec fn inserted_in_order(s: Seq<i64>, e: i64, p: int, t: Seq<i64>) -> bool {
    &&& 0 <= p <= s.len()
    &&& t == s.insert(p, e)
    &&& forall|i: int| 0 <= i < p ==> s[i] <= e
    &&& forall|i: int| p <= i < s.len() ==> s[i] > e
}

impl BinaryTree {
    /// The elements in order: left subtree, the node, right subtree.
    pub open spec fn inorder(self) -> Seq<i64>
        decreases self,
    {
        match self {
            BinaryTree::Empty => Seq::empty(),
            BinaryTree::NonEmpty(node) => node.left.inorder() + seq![node.value]
                + node.right.inorder(),
        }
    }

    /// Number of nodes on the longest path from the root.
    pub open spec fn height(self) -> nat
        decreases self,
    {
        match self {
            BinaryTree::Empty => 0,
            BinaryTree::NonEmpty(node) => {
                let l = node.left.height();
                let r = node.right.height();
                1 + if l >= r {
                    l
                } else {
                    r
                }
            },
        }
    }

    /// Adds `element` below the node where a search for it ends: to the left
    /// of nodes holding greater values, to the right of the others. In a
    /// tree whose walk is sorted, the walk gains `element` after the values
    /// at most equal to it and before the greater ones.
    pub fn add(&mut self, element: i64)
        ensures
            exists|p: int|
                0 <= p <= old(self).inorder().len() && final(self).inorder() == old(
                    self,
                ).inorder().insert(p, element),
            sorted(old(self).inorder()) ==> exists|p: int|
                inserted_in_order(old(self).inorder(), element, p, final(self).inorder()),
        decreases old(self).height(),
    {
        let ghost before = *self;
        match self {
            BinaryTree::Empty => {
                *self = BinaryTree::NonEmpty(
                    Box::new(
                        TreeNode { value: element, left: BinaryTree::Empty, right: BinaryTree::Empty },
                    ),
                );
                assert(self.inorder() =~= before.inorder().insert(0, element));
                assert(inserted_in_order(before.inorder(), element, 0, self.inorder()));
            },
            BinaryTree::NonEmpty(existing) => {
                let ghost l = existing.left.inorder();
                let ghost r = existing.right.inorder();
                let ghost v = existing.value;
                assert(before.inorder() == l + seq![v] + r);
                if element < existing.value {
                    existing.left.add(element);
                    let ghost l2 = existing.left.inorder();
                    let ghost q = choose|q: int|
                        0 <= q <= l.len() && l2 == l.insert(q, element);
                    assert(self.inorder() == l2 + seq![v] + r);
                    assert(self.inorder() =~= before.inorder().insert(q, element));
                    proof { if sorted(before.inorder()) {
                        assert(sorted(l)) by {
                            assert forall|i: int, j: int| 0 <= i < j < l.len() implies l[i]
                                <= l[j] by {
                                assert(l[i] == before.inorder()[i]);
                                assert(l[j] == before.inorder()[j]);
                            }
                        }
                        let q2 = choose|q2: int| inserted_in_order(l, element, q2, l2);
                        assert forall|i: int|
                            q2 <= i < before.inorder().len() implies before.inorder()[i]
                            > element by {
                            if i >= l.len() {
                                assert(before.inorder()[l.len() as int] == v);
                                assert(before.inorder()[i] >= v);
                            }
                        }
                        assert(self.inorder() =~= before.inorder().insert(q2, element));
                        assert(inserted_in_order(before.inorder(), element, q2, self.inorder()));
                    } }
                } else {
                    existing.right.add(element);
                    let ghost r2 = existing.right.inorder();
                    let ghost q = choose|q: int|
                        0 <= q <= r.len() && r2 == r.insert(q, element);
                    let ghost off = l.len() + 1;
                    assert(self.inorder() == l + seq![v] + r2);
                    assert(self.inorder() =~= before.inorder().insert(off + q, element));
                    proof { if sorted(before.inorder()) {
                        assert(sorted(r)) by {
                            assert forall|i: int, j: int| 0 <= i < j < r.len() implies r[i]
                                <= r[j] by {
                                assert(r[i] == before.inorder()[off + i]);
                                assert(r[j] == before.inorder()[off + j]);
                            }
                        }
                        let q2 = choose|q2: int| inserted_in_order(r, element, q2, r2);
                        assert forall|i: int| 0 <= i < off + q2 implies before.inorder()[i]
                            <= element by {
                            if i < off {
                                assert(before.inorder()[l.len() as int] == v);
                                assert(before.inorder()[i] <= v);
                            } else {
                                assert(before.inorder()[i] == r[i - off]);
                            }
                        }
                        assert forall|i: int|
                            off + q2 <= i < before.inorder().len() implies before.inorder()[i]
                            > element by {
                            assert(before.inorder()[i] == r[i - off]);
                        }
                        assert(self.inorder() =~= before.inorder().insert(off + q2, element));
                        assert(inserted_in_order(
                            before.inorder(),
                            element,
                            off + q2,
                            self.inorder(),
                        ));
                    } }
                }
            },
        }
    }
}

/// A walk over a tree in order. The stack holds the nodes whose value and
/// right subtree are still to come, the next one on top.
pub struct TreeIter<'a> {
    unvisited: Vec<&'a TreeNode>,
}

/// What the nodes of `stack` have still to give, from the top down.
pub open spec fn pending(stack: Seq<&TreeNode>) -> Seq<i64>
    decreases stack.len(),
{
    if stack.len() == 0 {
        Seq::empty()
    } else {
        let top = stack.last();
        seq![top.value] + top.right.inorder() + pending(stack.drop_last())
    }
}

impl<'a> TreeIter<'a> {
    /// The values that the walk has still to give, in order.
    pub closed spec fn remaining(&self) -> Seq<i64> {
        pending(self.unvisited@)
    }

    /// Puts the nodes of `tree`'s leftmost path on the stack, so that the
    /// values of `tree` come before what was pending.
    pub fn add_candidate(&mut self, tree: &'a BinaryTree)
        ensures
            final(self).remaining() == tree.inorder() + old(self).remaining(),
    {
        let ghost start = self.remaining();
        let mut t = tree;
        loop
            invariant
                t.inorder() + self.remaining() == tree.inorder() + start,
                start == old(self).remaining(),
            ensures
                self.remaining() == tree.inorder() + start,
            decreases t.height(),
        {
            match t {
                BinaryTree::NonEmpty(node) => {
                    let ghost rest = self.remaining();
                    let ghost stack = self.unvisited@;
                    self.unvisited.push(node);
                    assert(self.unvisited@.drop_last() =~= stack);
                    assert(self.remaining() == seq![node.value] + node.right.inorder() + rest);
                    t = &node.left;
                    assert(t.inorder() + self.remaining() =~= tree.inorder() + start);
                },
                BinaryTree::Empty => {
                    assert(self.remaining() =~= tree.inorder() + start);
                    break ;
                },
            }
        }
    }

    /// The next value of the walk, or `None` once every value was given.
    pub fn next(&mut self) -> (r: Option<i64>)
        ensures
            old(self).remaining().len() == 0 ==> r is None && final(self).remaining() == old(
                self,
            ).remaining(),
            old(self).remaining().len() > 0 ==> r == Some(old(self).remaining()[0])
                && final(self).remaining() == old(self).remaining().drop_first(),
    {
        match self.unvisited.pop() {
            None => None,
            Some(node) => {
                let ghost rest = self.remaining();
                self.add_candidate(&node.right);
                assert(old(self).remaining() == seq![node.value] + node.right.inorder() + rest);
                assert(self.remaining() =~= old(self).remaining().drop_first());
                Some(node.value)
            },
        }
    }
}

impl BinaryTree {
    /// A walk over the values of the tree in order.
    pub fn iter(&self) -> (r: TreeIter<'_>)
        ensures
            r.remaining() == self.inorder(),
    {
        let mut iter = TreeIter { unvisited: Vec::new() };
        iter.add_candidate(self);
        assert(iter.remaining() =~= self.inorder());
        iter
    }
}

/// Putting an element at its place in order keeps a sorted walk sorted: a
/// tree built by `add` alone walks in sorted order.
pub proof fn lemma_insert_in_order_keeps_sorted(s: Seq<i64>, e: i64, p: int, t: Seq<i64>)
    requires
        sorted(s),
        inserted_in_order(s, e, p, t),
    ensures
        sorted(t),
{
    assert forall|i: int, j: int| 0 <= i < j < t.len() implies t[i] <= t[j] by {
        if j < p {
        } else if j == p {
        } else if i < p {
            assert(t[j] == s[j - 1]);
        } else if i == p {
            assert(t[j] == s[j - 1]);
        } else {
            assert(t[i] == s[i - 1] && t[j] == s[j - 1]);
        }
    }
}

} // verus!
