//! The mathematical model of a scene graph.
use vstd::prelude::*;
use crate::link::Link;
use crate::object::{AvObjectView, MetadataView, NetObject, NodeView, ObjectView};

verus! {

/// A scene graph as a value: the arena, slot by slot, and the root links.
pub struct GraphView {
    pub objects: Seq<ObjectView>,
    pub roots: Seq<Link>,
}

impl GraphView {
    /// Every link in the graph is null or names a slot of the arena, and
    /// every slot of the arena can be named by a link.
    pub open spec fn wf(self) -> bool {
        &&& self.objects.len() <= usize::MAX
        &&& forall|i: int| 0 <= i < self.roots.len() ==> (#[trigger] self.roots[i]).below(self.objects.len())
        &&& forall|i: int|
            0 <= i < self.objects.len() ==> (#[trigger] self.objects[i]).links_below(
                self.objects.len(),
            )
    }

    /// The graph without objects and without roots.
    pub open spec fn empty() -> GraphView {
        GraphView { objects: Seq::empty(), roots: Seq::empty() }
    }

    /// Whether the arena can take one more object.
    pub open spec fn can_grow(self) -> bool {
        self.objects.len() < usize::MAX
    }

    /// The link to the slot that the next inserted object will take.
    pub open spec fn fresh_link(self) -> Link {
        Link { slot: Some(self.objects.len() as usize) }
    }

    /// The graph with `object` in a new slot at the end of the arena.
    pub open spec fn inserted(self, object: ObjectView) -> GraphView {
        GraphView { objects: self.objects.push(object), roots: self.roots }
    }

    /// The graph with `link` as one more root, after those it has.
    pub open spec fn with_root(self, link: Link) -> GraphView {
        GraphView { objects: self.objects, roots: self.roots.push(link) }
    }

    /// Typed lookup: the plain grouping node that `link` leads to.
    pub open spec fn node_at(self, link: Link) -> Option<NodeView> {
        match self.resolve(link) {
            Some(object) => object.node(),
            None => None,
        }
    }

    /// Typed lookup: the string metadata record that `link` leads to.
    pub open spec fn record_at(self, link: Link) -> Option<MetadataView> {
        match self.resolve(link) {
            Some(object) => object.record(),
            None => None,
        }
    }

    /// Typed lookup: the av-object part of the object that `link` leads to.
    pub open spec fn av_at(self, link: Link) -> Option<AvObjectView> {
        match self.resolve(link) {
            Some(object) => object.av(),
            None => None,
        }
    }

    /// Typed lookup: the object-net part of the object that `link` leads to.
    pub open spec fn net_at(self, link: Link) -> Option<NetObject> {
        match self.resolve(link) {
            Some(object) => object.net(),
            None => None,
        }
    }

    /// Whether `link` leads to a plain grouping node.
    pub open spec fn is_node(self, link: Link) -> bool {
        self.node_at(link) is Some
    }

    /// The children of the node that `link` leads to; none where it leads to
    /// no node.
    pub open spec fn children_of(self, link: Link) -> Seq<Link> {
        match self.node_at(link) {
            Some(node) => node.children,
            None => Seq::empty(),
        }
    }

    /// Whether `link` leads to an object that heads a metadata chain.
    pub open spec fn has_net(self, link: Link) -> bool {
        self.net_at(link) is Some
    }

    /// Whether `link` leads to an object with a local transform.
    pub open spec fn has_av(self, link: Link) -> bool {
        self.av_at(link) is Some
    }

    /// The object that `link` leads to, if it leads to one.
    pub open spec fn resolve(self, link: Link) -> Option<ObjectView> {
        match link.slot {
            Some(i) => if i < self.objects.len() {
                Some(self.objects[i as int])
            } else {
                None
            },
            None => None,
        }
    }
}

impl ObjectView {
    /// Links that fit a shorter arena fit a longer one.
    pub proof fn lemma_links_below_longer(self, shorter: nat, longer: nat)
        requires
            self.links_below(shorter),
            shorter <= longer,
        ensures
            self.links_below(longer),
    {
    }
}

impl GraphView {
    /// A well-formed graph that takes an object whose links fit the grown
    /// arena is well formed.
    pub proof fn lemma_inserted_wf(self, object: ObjectView)
        requires
            self.wf(),
            self.can_grow(),
            object.links_below(self.objects.len() + 1),
        ensures
            self.inserted(object).wf(),
    {
        let grown = self.inserted(object);
        assert forall|i: int| 0 <= i < grown.objects.len() implies (#[trigger] grown.objects[i]).links_below(
            grown.objects.len(),
        ) by {
            if i < self.objects.len() {
                self.objects[i].lemma_links_below_longer(self.objects.len(), grown.objects.len());
            }
        }
    }

    /// A well-formed graph that takes a root within its arena is well
    /// formed.
    pub proof fn lemma_with_root_wf(self, link: Link)
        requires
            self.wf(),
            link.below(self.objects.len()),
        ensures
            self.with_root(link).wf(),
    {
        let grown = self.with_root(link);
        assert forall|i: int| 0 <= i < grown.roots.len() implies (#[trigger] grown.roots[i]).below(
            grown.objects.len(),
        ) by {
            if i < self.roots.len() {
                assert(grown.roots[i] == self.roots[i]);
            }
        }
    }
}

} // verus!
