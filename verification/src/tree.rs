//! A binary tree that is built from the root down.

use vstd::prelude::*;

verus! {

/// A node with a key and room for a subtree on either side.
pub struct TreeNode<T> {
    pub left: Option<Box<TreeNode<T>>>,
    pub right: Option<Box<TreeNode<T>>>,
    pub key: T,
}

impl<T> TreeNode<T> {
    /// A node that holds `key` and has no subtrees.
    pub fn new(key: T) -> (node: Self)
        ensures
            node.key == key,
            node.left is None,
            node.right is None,
    {
        TreeNode { left: None, right: None, key }
    }

    /// The same node with `node` as its left subtree, in place of the one it had.
    pub fn left(self, node: TreeNode<T>) -> (parent: Self)
        ensures
            parent.left == Some(Box::new(node)),
            parent.right == self.right,
            parent.key == self.key,
    {
        let mut parent = self;
        parent.left = Some(Box::new(node));
        parent
    }

    /// The same node with `node` as its right subtree, in place of the one it had.
    pub fn right(self, node: TreeNode<T>) -> (parent: Self)
        ensures
            parent.right == Some(Box::new(node)),
            parent.left == self.left,
            parent.key == self.key,
    {
        let mut parent = self;
        parent.right = Some(Box::new(node));
        parent
    }
}

} // verus!
