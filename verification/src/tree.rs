//! A binary search tree in which every leaf is a node of its own.
use crate::numbers::capped;
use vstd::prelude::*;
use vstd::std_specs::cmp::{PartialOrdIs, PartialOrdSpec};

verus! {

/// A binary tree: a leaf, or a value between a left and a right tree.
#[derive(Debug, PartialEq, Eq)]
pub enum BinaryTree<T> {
    Leaf,
    Node { value: T, left: Box<BinaryTree<T>>, right: Box<BinaryTree<T>> },
}

/// The larger of two numbers.
pub open spec fn larger(a: nat, b: nat) -> nat {
    if a >= b {
        a
    } else {
        b
    }
}

impl<T> BinaryTree<T> {
    /// The number of values in the tree.
    pub open spec fn nodes(&self) -> nat
        decreases self,
    {
        match self {
            BinaryTree::Leaf => 0,
            BinaryTree::Node { value, left, right } => 1 + left.nodes() + right.nodes(),
        }
    }

    /// The number of values on the longest way from the root to a leaf.
    pub open spec fn levels(&self) -> nat
        decreases self,
    {
        match self {
            BinaryTree::Leaf => 0,
            BinaryTree::Node { value, left, right } => 1 + larger(left.levels(), right.levels()),
        }
    }

    /// The number of values in the tree, capped at the largest size that
    /// can be represented.
    pub fn size(&self) -> (n: usize)
        ensures
            n == capped(self.nodes()),
        decreases self,
    {
        match self {
            BinaryTree::Leaf => 0,
            BinaryTree::Node { value, left, right } => {
                let l = left.size();
                let r = right.size();
                l.saturating_add(r).saturating_add(1)
            },
        }
    }

    /// The height of the tree, capped at the largest size that can be
    /// represented.
    pub fn height(&self) -> (n: usize)
        ensures
            n == capped(self.levels()),
        decreases self,
    {
        match self {
            BinaryTree::Leaf => 0,
            BinaryTree::Node { value, left, right } => {
                let l = left.height();
                let r = right.height();
                let deeper = if l >= r {
                    l
                } else {
                    r
                };
                deeper.saturating_add(1)
            },
        }
    }
}

impl<T> BinaryTree<T> {
    /// Whether the two trees have their values at the same places.
    pub open spec fn same_shape(self, other: BinaryTree<T>) -> bool
        decreases self,
    {
        match (self, other) {
            (BinaryTree::Leaf, BinaryTree::Leaf) => true,
            (
                BinaryTree::Node { value: a, left: al, right: ar },
                BinaryTree::Node { value: b, left: bl, right: br },
            ) => al.same_shape(*bl) && ar.same_shape(*br),
            _ => false,
        }
    }

    /// Applies `f` to every value: to the root first, then to the left tree,
    /// then to the right tree.
    fn visit<F: FnMut(&mut T)>(&mut self, f: &mut F)
        requires
            forall|v: &mut T| #[trigger] (*old(f)).requires((v,)),
        ensures
            forall|v: &mut T| #[trigger] (*final(f)).requires((v,)),
            old(self).same_shape(*final(self)),
        decreases old(self).levels(),
    {
        match self {
            BinaryTree::Leaf => {},
            BinaryTree::Node { value, left, right } => {
                f(value);
                left.visit(f);
                right.visit(f);
            },
        }
    }

    /// Applies `f` to every value in the tree.
    pub fn for_each_mut<F: FnMut(&mut T)>(&mut self, f: F)
        requires
            forall|v: &mut T| #[trigger] f.requires((v,)),
        ensures
            old(self).same_shape(*final(self)),
    {
        let mut f = f;
        self.visit(&mut f);
    }
}

impl<T: PartialOrd> BinaryTree<T> {
    /// The tree with `value` in it. A value goes to the left of the values
    /// it is less than and to the right of the values that are less than it;
    /// a value that meets its equal is not put in again.
    pub open spec fn inserted(self, value: T) -> BinaryTree<T>
        decreases self,
    {
        match self {
            BinaryTree::Leaf => BinaryTree::Node {
                value,
                left: Box::new(BinaryTree::Leaf),
                right: Box::new(BinaryTree::Leaf),
            },
            BinaryTree::Node { value: v, left, right } => if value.is_lt(&v) {
                BinaryTree::Node { value: v, left: Box::new(left.inserted(value)), right }
            } else if v.is_lt(&value) {
                BinaryTree::Node { value: v, left, right: Box::new(right.inserted(value)) }
            } else {
                self
            },
        }
    }

    /// Whether `value` is met on the way that a search for it takes.
    pub open spec fn holds(&self, value: T) -> bool
        decreases self,
    {
        match self {
            BinaryTree::Leaf => false,
            BinaryTree::Node { value: v, left, right } => if value.is_lt(v) {
                left.holds(value)
            } else if v.is_lt(&value) {
                right.holds(value)
            } else {
                true
            },
        }
    }

    /// Puts `value` into the tree.
    pub fn insert(self, value: T) -> (tree: BinaryTree<T>)
        ensures
            T::obeys_partial_cmp_spec() ==> tree == self.inserted(value),
        decreases self,
    {
        match self {
            BinaryTree::Leaf => BinaryTree::Node {
                value,
                left: Box::new(BinaryTree::Leaf),
                right: Box::new(BinaryTree::Leaf),
            },
            BinaryTree::Node { value: v, left, right } => {
                if value < v {
                    BinaryTree::Node { value: v, left: Box::new((*left).insert(value)), right }
                } else if v < value {
                    BinaryTree::Node { value: v, left, right: Box::new((*right).insert(value)) }
                } else {
                    BinaryTree::Node { value: v, left, right }
                }
            },
        }
    }

    /// Whether the tree holds `value`.
    pub fn contains(&self, value: &T) -> (found: bool)
        ensures
            T::obeys_partial_cmp_spec() ==> found == self.holds(*value),
        decreases self,
    {
        match self {
            BinaryTree::Leaf => false,
            BinaryTree::Node { value: v, left, right } => {
                if *value < *v {
                    left.contains(value)
                } else if *v < *value {
                    right.contains(value)
                } else {
                    true
                }
            },
        }
    }
}

/// A value is found in the tree it was put into, where no value is less
/// than itself.
pub proof fn lemma_inserted_is_held<T: PartialOrd>(tree: BinaryTree<T>, value: T)
    requires
        !value.is_lt(&value),
    ensures
        tree.inserted(value).holds(value),
    decreases tree,
{
    match tree {
        BinaryTree::Leaf => {},
        BinaryTree::Node { value: v, left, right } => {
            if value.is_lt(&v) {
                lemma_inserted_is_held(*left, value);
            } else if v.is_lt(&value) {
                lemma_inserted_is_held(*right, value);
            }
        },
    }
}

/// Putting a value in adds at most one value to the tree, and none where
/// the value was held already.
pub proof fn lemma_inserted_size<T: PartialOrd>(tree: BinaryTree<T>, value: T)
    ensures
        tree.inserted(value).nodes() == if tree.holds(value) {
            tree.nodes()
        } else {
            tree.nodes() + 1
        },
    decreases tree,
{
    match tree {
        BinaryTree::Leaf => {
            assert(BinaryTree::<T>::Leaf.nodes() == 0);
        },
        BinaryTree::Node { value: v, left, right } => {
            if value.is_lt(&v) {
                lemma_inserted_size(*left, value);
            } else if v.is_lt(&value) {
                lemma_inserted_size(*right, value);
            }
        },
    }
}

} // verus!
