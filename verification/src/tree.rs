//! An arena representation of a parsed markup tree.
//!
//! Nodes live in one vector and refer to each other by index: children point
//! forward (every child index is strictly greater than its parent's), and each
//! node stores its parent's index, so upward searches never mutate the tree.

use vstd::prelude::*;

verus! {

/// One attribute of an element: a name and a string value.
pub struct Attr {
    pub name: String,
    pub value: String,
}

/// What a node is: the closed set of node kinds the extractor distinguishes.
/// Anything that is neither the document root, an element, nor text (such as
/// a markup comment or doctype) is `Misc` and only contributes its children.
pub enum NodeData {
    Document,
    Element { tag: String, attrs: Vec<Attr> },
    Text { contents: String },
    Misc,
}

/// A node: its data, the indices of its children in order, and its parent.
/// The root stores itself as its parent.
pub struct Node {
    pub data: NodeData,
    pub children: Vec<usize>,
    pub parent: usize,
}

/// A whole tree; `nodes[0]` is the root.
pub struct Tree {
    pub nodes: Vec<Node>,
}

impl Tree {
    /// Children point forward and strictly past their parent; parents point
    /// strictly backward. This is what every traversal's termination rests on.
    pub open spec fn node_ok(self, i: int) -> bool {
        &&& forall|j: int|
            0 <= j < self.nodes@[i].children@.len()
                ==> i < #[trigger] self.nodes@[i].children@[j] < self.nodes@.len()
        &&& (i > 0 ==> self.nodes@[i].parent < i)
    }

    /// The tree is well formed: nonempty, rooted at 0, and index-ordered.
    pub open spec fn wf(self) -> bool {
        &&& self.nodes@.len() > 0
        &&& self.nodes@[0].parent == 0
        &&& forall|i: int| 0 <= i < self.nodes@.len() ==> #[trigger] self.node_ok(i)
    }

    /// A tree holding only a document root.
    pub fn new() -> (t: Tree)
        ensures
            t.wf(),
            t.nodes@.len() == 1,
            t.nodes@[0].data is Document,
            t.nodes@[0].children@ == Seq::<usize>::empty(),
    {
        let mut nodes: Vec<Node> = Vec::new();
        nodes.push(Node { data: NodeData::Document, children: Vec::new(), parent: 0 });
        let t = Tree { nodes };
        assert forall|i: int| 0 <= i < t.nodes@.len() implies #[trigger] t.node_ok(i) by {
        }
        t
    }

    /// Appends a new node as the last child of `parent` and returns its index.
    pub fn add_node(&mut self, parent: usize, data: NodeData) -> (idx: usize)
        requires
            old(self).wf(),
            parent < old(self).nodes@.len(),
            old(self).nodes@.len() < usize::MAX,
        ensures
            final(self).wf(),
            idx == old(self).nodes@.len(),
            final(self).nodes@.len() == old(self).nodes@.len() + 1,
            final(self).nodes@[idx as int].data == data,
            final(self).nodes@[idx as int].parent == parent,
            final(self).nodes@[idx as int].children@ == Seq::<usize>::empty(),
            final(self).nodes@[parent as int].children@ == old(self).nodes@[parent as int].children@.push(
                idx,
            ),
            final(self).nodes@[parent as int].data == old(self).nodes@[parent as int].data,
            final(self).nodes@[parent as int].parent == old(self).nodes@[parent as int].parent,
            forall|i: int|
                0 <= i < old(self).nodes@.len() && i != parent
                    ==> final(self).nodes@[i] == old(self).nodes@[i],
    {
        let idx = self.nodes.len();
        self.nodes.push(Node { data, children: Vec::new(), parent });
        self.nodes[parent].children.push(idx);
        proof {
            assert(self.nodes@[parent as int].children@ == old(
                self,
            ).nodes@[parent as int].children@.push(idx));
            assert forall|i: int| 0 <= i < self.nodes@.len() implies #[trigger] self.node_ok(i) by {
                assert(i < old(self).nodes@.len() ==> old(self).node_ok(i));
                if i == idx {
                } else if i == parent {
                    let oldc = old(self).nodes@[parent as int].children@;
                    let newc = self.nodes@[parent as int].children@;
                    assert(forall|j: int|
                        0 <= j < oldc.len() ==> parent < #[trigger] oldc[j] < old(
                            self,
                        ).nodes@.len());
                    assert(forall|j: int| 0 <= j < oldc.len() ==> newc[j] == oldc[j]);
                } else {
                    assert(self.nodes@[i] == old(self).nodes@[i]);
                }
            }
        }
        idx
    }
}

} // verus!
