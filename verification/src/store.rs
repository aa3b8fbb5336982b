//! The link store: an arena of objects and a sequence of root links.
use vstd::prelude::*;
use crate::graph::GraphView;
use crate::link::Link;
use crate::object::{AvObject, MetadataRecord, NetObject, Node, Object, ObjectView};

verus! {

/// The views of a sequence of objects, slot by slot.
pub open spec fn views_of(objects: Seq<Object>) -> Seq<ObjectView> {
    Seq::new(objects.len(), |i: int| objects[i]@)
}

pub(crate) proof fn lemma_views_push(objects: Seq<Object>, object: Object)
    ensures
        views_of(objects.push(object)) == views_of(objects).push(object@),
{
    assert(views_of(objects.push(object)) =~= views_of(objects).push(object@));
}

pub(crate) proof fn lemma_views_update(objects: Seq<Object>, i: int, object: Object)
    requires
        0 <= i < objects.len(),
    ensures
        views_of(objects.update(i, object)) == views_of(objects).update(i, object@),
{
    assert(views_of(objects.update(i, object)) =~= views_of(objects).update(i, object@));
}

/// The graph made of `objects` and `roots`, as a value.
pub open spec fn graph_of(objects: Seq<Object>, roots: Seq<Link>) -> GraphView {
    GraphView { objects: views_of(objects), roots }
}

/// A scene graph: objects in an arena, addressed by links, and the links
/// that are its roots.
///
/// A graph is well formed when every link in it is null or names a slot of
/// the arena, and the arena is no longer than links can name. Every graph
/// that this library hands out is well formed.
#[derive(Clone, Debug, PartialEq, Eq)]
pub struct SceneGraph {
    pub(crate) objects: Vec<Object>,
    pub(crate) roots: Vec<Link>,
}

/// Whether `link` is null or names one of the first `len` slots.
fn link_below(link: Link, len: usize) -> (ok: bool)
    ensures
        ok == link.below(len as nat),
{
    match link.slot {
        Some(i) => i < len,
        None => true,
    }
}

/// Whether every link in `links` is null or names one of the first `len`
/// slots.
fn links_below(links: &Vec<Link>, len: usize) -> (ok: bool)
    ensures
        ok == (forall|i: int| 0 <= i < links@.len() ==> (#[trigger] links@[i]).below(len as nat)),
{
    let mut k: usize = 0;
    while k < links.len()
        invariant
            k <= links@.len(),
            forall|i: int| 0 <= i < k ==> (#[trigger] links@[i]).below(len as nat),
        decreases links@.len() - k,
    {
        if !link_below(links[k], len) {
            return false;
        }
        k += 1;
    }
    true
}

/// Whether every link that `object` holds is null or names one of the first
/// `len` slots.
fn object_links_below(object: &Object, len: usize) -> (ok: bool)
    ensures
        ok == object@.links_below(len as nat),
{
    match object {
        Object::Node(node) => {
            if !link_below(node.av.net.extra_data, len) {
                return false;
            }
            let ok = links_below(&node.children, len);
            assert(node@.children == node.children@);
            ok
        },
        Object::AvObject(av) => link_below(av.net.extra_data, len),
        Object::Net(net) => link_below(net.extra_data, len),
        Object::StringMetadata(record) => link_below(record.next, len),
        Object::Other => true,
    }
}

impl SceneGraph {
    pub open(crate) spec fn view(&self) -> GraphView {
        graph_of(self.objects@, self.roots@)
    }

    /// Whether the graph is well formed.
    pub open spec fn wf(&self) -> bool {
        self@.wf()
    }

    /// The empty graph.
    pub fn new() -> (graph: SceneGraph)
        ensures
            graph@ == GraphView::empty(),
            graph.wf(),
    {
        let graph = SceneGraph { objects: Vec::new(), roots: Vec::new() };
        assert(graph@.objects =~= Seq::empty());
        graph
    }

    /// The graph made of `objects`, slot by slot, with `roots` as its root
    /// links; `None` where one of the links leads out of the arena.
    pub fn from_parts(objects: Vec<Object>, roots: Vec<Link>) -> (graph: Option<SceneGraph>)
        ensures
            graph is Some <==> graph_of(objects@, roots@).wf(),
            graph matches Some(g) ==> g@ == graph_of(objects@, roots@) && g.wf(),
    {
        let len = objects.len();
        let ghost graph = graph_of(objects@, roots@);
        assert(graph.objects.len() == len);
        if !links_below(&roots, len) {
            let ghost bad = choose|i: int|
                0 <= i < roots@.len() && !(#[trigger] roots@[i]).below(len as nat);
            assert(!graph.roots[bad].below(graph.objects.len()));
            return None;
        }
        let mut k: usize = 0;
        while k < len
            invariant
                len == objects@.len(),
                k <= len,
                graph == graph_of(objects@, roots@),
                forall|i: int| 0 <= i < k ==> (#[trigger] graph.objects[i]).links_below(len as nat),
            decreases len - k,
        {
            if !object_links_below(&objects[k], len) {
                assert(!graph.objects[k as int].links_below(graph.objects.len()));
                return None;
            }
            k += 1;
        }
        Some(SceneGraph { objects, roots })
    }

    /// The number of slots in the arena.
    pub fn len(&self) -> (len: usize)
        ensures
            len == self@.objects.len(),
    {
        self.objects.len()
    }

    /// The root links, in order.
    pub fn roots(&self) -> (roots: &Vec<Link>)
        ensures
            roots@ == self@.roots,
    {
        &self.roots
    }

    /// Untyped lookup: the object that `link` leads to, if it leads to one.
    pub fn get(&self, link: Link) -> (object: Option<&Object>)
        ensures
            object is Some <==> self@.resolve(link) is Some,
            object matches Some(o) ==> self@.resolve(link) == Some(o@),
    {
        match link.slot {
            Some(i) => if i < self.objects.len() {
                Some(&self.objects[i])
            } else {
                None
            },
            None => None,
        }
    }

    /// Typed lookup: the plain grouping node that `link` leads to.
    pub fn get_node(&self, link: Link) -> (node: Option<&Node>)
        ensures
            node is Some <==> self@.is_node(link),
            node matches Some(found) ==> self@.node_at(link) == Some(found@),
    {
        match self.get(link) {
            Some(object) => object.as_node(),
            None => None,
        }
    }

    /// Typed lookup: the string metadata record that `link` leads to.
    pub fn get_record(&self, link: Link) -> (record: Option<&MetadataRecord>)
        ensures
            record is Some <==> self@.record_at(link) is Some,
            record matches Some(found) ==> self@.record_at(link) == Some(found@),
    {
        match self.get(link) {
            Some(object) => object.as_record(),
            None => None,
        }
    }

    /// Typed lookup: the av-object part of the object that `link` leads to.
    pub fn get_av(&self, link: Link) -> (av: Option<&AvObject>)
        ensures
            av is Some <==> self@.has_av(link),
            av matches Some(found) ==> self@.av_at(link) == Some(found@),
    {
        match self.get(link) {
            Some(object) => object.as_av(),
            None => None,
        }
    }

    /// Typed lookup: the object-net part of the object that `link` leads to.
    pub fn get_net(&self, link: Link) -> (net: Option<&NetObject>)
        ensures
            net is Some <==> self@.has_net(link),
            net matches Some(found) ==> self@.net_at(link) == Some(*found),
    {
        match self.get(link) {
            Some(object) => object.as_net(),
            None => None,
        }
    }

    /// Put `object` into a new slot at the end of the arena and return the
    /// link to it. An object that holds a link out of the grown arena is
    /// turned down, and so is any object once the arena is as long as the
    /// machine allows; the graph then stays as it is.
    pub fn insert(&mut self, object: Object) -> (link: Option<Link>)
        requires
            old(self).wf(),
        ensures
            final(self).wf(),
            link is Some <==> old(self)@.can_grow() && object@.links_below(
                old(self)@.objects.len() + 1,
            ),
            link is Some ==> link == Some(old(self)@.fresh_link()) && final(self)@ == old(
                self,
            )@.inserted(object@),
            link is None ==> final(self)@ == old(self)@,
    {
        let len = self.objects.len();
        if len == usize::MAX || !object_links_below(&object, len + 1) {
            return None;
        }
        proof {
            lemma_views_push(self.objects@, object);
            self@.lemma_inserted_wf(object@);
        }
        self.objects.push(object);
        Some(Link::at(len))
    }

    /// Make `link` one more root of the graph, after those it has. A link
    /// out of the arena is turned down, and the graph stays as it is.
    pub fn add_root(&mut self, link: Link) -> (added: bool)
        requires
            old(self).wf(),
        ensures
            final(self).wf(),
            added == link.below(old(self)@.objects.len()),
            added ==> final(self)@ == old(self)@.with_root(link),
            !added ==> final(self)@ == old(self)@,
    {
        if !link_below(link, self.objects.len()) {
            return false;
        }
        self.roots.push(link);
        proof {
            old(self)@.lemma_with_root_wf(link);
        }
        true
    }
}

} // verus!
