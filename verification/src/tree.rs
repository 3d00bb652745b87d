use vstd::prelude::*;

verus! {

/// A rose tree: a leaf carrying a value, or a node with any number of
/// children.
#[derive(Debug)]
pub enum Tree<T> {
    Leaf(Box<T>),
    Node(Vec<Tree<T>>),
}

impl<T> Tree<T> {
    /// A node with no children yet.
    pub fn new_node() -> (r: Tree<T>)
        ensures
            r matches Tree::Node(v) && v@ == Seq::<Tree<T>>::empty(),
    {
        let vec: Vec<Tree<T>> = Vec::new();
        Tree::Node(vec)
    }

    /// A leaf holding the given value.
    pub fn new_leaf(v: T) -> (r: Tree<T>)
        ensures
            r matches Tree::Leaf(b) && *b == v,
    {
        Tree::Leaf(Box::new(v))
    }
}

} // verus!
