//! The root normalizer: one root, and that root a plain grouping node.
//!
//! A transform on the root of a graph is ignored when the graph is drawn. To
//! move what the graph shows, its content must hang below a root that carries
//! no transform of its own.
use vstd::prelude::*;
use crate::graph::GraphView;
use crate::link::Link;
use crate::object::{AvObject, AvObjectView, NetObject, Node, NodeView, Object, ObjectView};
use crate::store::{lemma_views_push, SceneGraph};

verus! {

/// What normalization makes of a graph.
impl GraphView {
    /// A fresh node above the roots of the graph: untransformed, without
    /// metadata, with every root as a child, in order.
    pub open spec fn root_parent(self) -> ObjectView {
        ObjectView::Node(
            NodeView {
                av: AvObjectView {
                    net: NetObject { extra_data: Link { slot: None } },
                    adjustments: Seq::empty(),
                },
                children: self.roots,
            },
        )
    }

    /// The graph with a fresh node in a new slot as its only root, and the
    /// former roots as that node's children.
    pub open spec fn wrapped(self) -> GraphView {
        GraphView {
            objects: self.objects.push(self.root_parent()),
            roots: seq![self.fresh_link()],
        }
    }

    /// The graph with a plain grouping node as its root: the graph itself
    /// where its first root is such a node, else the graph wrapped.
    pub open spec fn normalized(self) -> GraphView {
        if self.is_node(self.roots[0]) {
            self
        } else {
            self.wrapped()
        }
    }
}

impl SceneGraph {
    /// Insert a new node above the roots of the graph and make it the only
    /// root. The new node is untransformed and has no metadata; its children
    /// are the former roots, in their order. Returns the link to it.
    pub fn insert_root_parent(&mut self) -> (root: Link)
        requires
            old(self).wf(),
        ensures
            final(self).wf(),
            final(self)@ == old(self)@.wrapped(),
            final(self)@.roots == seq![root],
            final(self)@.is_node(root),
    {
        let mut node = Node {
            av: AvObject { net: NetObject { extra_data: Link::null() }, adjustments: Vec::new() },
            children: Vec::new(),
        };

        // Make all previous roots children of the new node.
        let mut k: usize = 0;
        while k < self.roots.len()
            invariant
                k <= self.roots@.len(),
                node@.children == self.roots@.take(k as int),
                node@.av == old(self)@.root_parent().node().unwrap().av,
            decreases self.roots@.len() - k,
        {
            node.children.push(self.roots[k]);
            assert(self.roots@.take(k + 1) == self.roots@.take(k as int).push(self.roots@[k as int]));
            k += 1;
        }
        assert(self.roots@.take(k as int) == self.roots@);

        // Insert the new node and assign it as the scene root.
        let link = Link::at(self.objects.len());
        proof {
            lemma_views_push(self.objects@, Object::Node(node));
        }
        self.objects.push(Object::Node(node));
        self.roots.clear();
        self.roots.push(link);
        proof {
            assert(self@.roots == seq![link]);
            assert(self.objects@.len() == self.objects.len());
            old(self)@.lemma_wrapped_wf();
        }
        link
    }

    /// Make sure that the root of the graph is a plain grouping node, and
    /// return the link to it. A root that is such a node stays, and nothing
    /// in the graph changes; any other root becomes the only child of a new
    /// root node.
    pub fn normalize(&mut self) -> (root: Link)
        requires
            old(self).wf(),
            old(self)@.roots.len() == 1,
        ensures
            final(self).wf(),
            final(self)@ == old(self)@.normalized(),
            final(self)@.roots == seq![root],
            final(self)@.is_node(root),
    {
        let root = self.roots[0];
        if self.get_node(root).is_some() {
            assert(self@.roots == seq![root]);
            root
        } else {
            self.insert_root_parent()
        }
    }
}

impl GraphView {
    /// Wrapping keeps a graph well formed.
    pub proof fn lemma_wrapped_wf(self)
        requires
            self.wf(),
            self.can_grow(),
        ensures
            self.wrapped().wf(),
    {
        let parent = self.root_parent();
        assert(parent.links_below(self.objects.len() + 1)) by {
            assert forall|i: int| 0 <= i < self.roots.len() implies (#[trigger] self.roots[i]).below(
                self.objects.len() + 1,
            ) by {
                assert(self.roots[i].below(self.objects.len()));
            }
        }
        self.lemma_inserted_wf(parent);
        assert(self.wrapped().objects == self.inserted(parent).objects);
    }

    /// Normalization keeps a graph well formed.
    pub proof fn lemma_normalized_wf(self)
        requires
            self.wf(),
            self.can_grow(),
        ensures
            self.normalized().wf(),
    {
        if !self.is_node(self.roots[0]) {
            self.lemma_wrapped_wf();
        }
    }
}

/// What holds of the root normalizer.
impl GraphView {
    /// After normalization a graph that had one root has one root, and that
    /// root is a plain grouping node.
    pub proof fn normalized_has_single_node_root(self)
        requires
            self.wf(),
            self.roots.len() == 1,
        ensures
            self.normalized().roots.len() == 1,
            self.normalized().is_node(self.normalized().roots[0]),
    {
    }

    /// Normalization leaves a graph alone whose root is a plain grouping
    /// node already: no object is inserted, and nothing changes.
    pub proof fn normalized_keeps_node_root(self)
        requires
            self.roots.len() == 1,
            self.is_node(self.roots[0]),
        ensures
            self.normalized() == self,
    {
    }

    /// Normalization of a graph whose root is no plain grouping node adds
    /// exactly one object: a node whose only child is the former root. That
    /// node is the only root. The objects that were there stay as they were,
    /// and none of them holds a link to the new node, so no cycle arises.
    pub proof fn normalized_wraps_other_root(self)
        requires
            self.wf(),
            self.roots.len() == 1,
            !self.is_node(self.roots[0]),
        ensures
            self.normalized().objects.len() == self.objects.len() + 1,
            self.normalized().objects.subrange(0, self.objects.len() as int) == self.objects,
            self.normalized().roots == seq![self.fresh_link()],
            self.normalized().is_node(self.fresh_link()),
            self.normalized().children_of(self.fresh_link()) == seq![self.roots[0]],
            self.normalized().resolve(self.fresh_link()) == Some(self.root_parent()),
            forall|i: int|
                0 <= i < self.objects.len() ==> (#[trigger] self.normalized().objects[i]).links_below(
                    self.objects.len(),
                ),
    {
        let normal = self.normalized();
        assert(normal.objects.subrange(0, self.objects.len() as int) =~= self.objects);
        assert(self.roots =~= seq![self.roots[0]]);
    }
}

} // verus!
