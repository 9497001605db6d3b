use vstd::prelude::*;

verus! {

/// A value that summarises itself as a measure `V`, such as a bounding box.
pub trait Measured<V> {
    fn measure(&self) -> V;
}

/// A binary tree that caches a measure at every node and leaf.
pub enum MeasuredTree<V, A> {
    Node { measure: V, left: Box<MeasuredTree<V, A>>, right: Box<MeasuredTree<V, A>> },
    Leaf { measure: V, val: A },
    Empty,
}

impl<V: Copy, A> MeasuredTree<V, A> {
    /// The measure cached at the root; an empty tree has none.
    pub fn cached_measure(&self) -> (r: Option<V>)
        ensures
            r == match self {
                MeasuredTree::Node { measure, .. } => Some(*measure),
                MeasuredTree::Leaf { measure, .. } => Some(*measure),
                MeasuredTree::Empty => None,
            },
    {
        match self {
            MeasuredTree::Node { measure, .. } => Some(*measure),
            MeasuredTree::Leaf { measure, .. } => Some(*measure),
            MeasuredTree::Empty => None,
        }
    }
}

} // verus!
