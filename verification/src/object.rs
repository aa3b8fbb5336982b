//! The objects of a scene graph, by capability.
//!
//! Two capabilities matter to the engine. An object with the *object-net*
//! capability heads a chain of metadata records. An object with the
//! *av-object* capability has, in addition, a local transform.
use vstd::prelude::*;
use crate::link::Link;
use crate::policy::{adjustment_for, adjustment_of, Adjustment, Category, TransformConfig};

verus! {

/// What the object-net capability carries: the link to the first record of
/// the object's metadata chain, null where the chain is empty.
#[derive(Clone, Copy, Debug, PartialEq, Eq)]
pub struct NetObject {
    pub extra_data: Link,
}

/// What the av-object capability carries.
///
/// The numeric transform stays with whoever decoded the object. Here the
/// object holds the adjustments made to that transform since, oldest first.
#[derive(Clone, Debug, PartialEq, Eq)]
pub struct AvObject {
    pub net: NetObject,
    pub adjustments: Vec<Adjustment>,
}

/// A plain grouping node: an av-object with an ordered list of child links.
#[derive(Clone, Debug, PartialEq, Eq)]
pub struct Node {
    pub av: AvObject,
    pub children: Vec<Link>,
}

/// A string metadata record: one element of a metadata chain.
#[derive(Clone, Debug, PartialEq, Eq)]
pub struct MetadataRecord {
    pub value: String,
    pub next: Link,
}

/// An object of the arena.
#[derive(Clone, Debug, PartialEq, Eq)]
pub enum Object {
    /// A plain grouping node.
    Node(Node),
    /// Any other object with a local transform.
    AvObject(AvObject),
    /// An object with a metadata chain and no transform.
    Net(NetObject),
    /// A string metadata record.
    StringMetadata(MetadataRecord),
    /// Anything else; the engine neither reads nor changes it.
    Other,
}

/// An av-object as a value.
pub struct AvObjectView {
    pub net: NetObject,
    pub adjustments: Seq<Adjustment>,
}

/// A node as a value.
pub struct NodeView {
    pub av: AvObjectView,
    pub children: Seq<Link>,
}

/// A string metadata record as a value.
pub struct MetadataView {
    pub value: Seq<char>,
    pub next: Link,
}

/// An object of the arena as a value.
pub enum ObjectView {
    Node(NodeView),
    AvObject(AvObjectView),
    Net(NetObject),
    StringMetadata(MetadataView),
    Other,
}

impl View for AvObject {
    type V = AvObjectView;

    open spec fn view(&self) -> AvObjectView {
        AvObjectView { net: self.net, adjustments: self.adjustments@ }
    }
}

impl View for Node {
    type V = NodeView;

    open spec fn view(&self) -> NodeView {
        NodeView { av: self.av@, children: self.children@ }
    }
}

impl View for MetadataRecord {
    type V = MetadataView;

    open spec fn view(&self) -> MetadataView {
        MetadataView { value: self.value@, next: self.next }
    }
}

impl View for Object {
    type V = ObjectView;

    open spec fn view(&self) -> ObjectView {
        match self {
            Object::Node(node) => ObjectView::Node(node@),
            Object::AvObject(av) => ObjectView::AvObject(av@),
            Object::Net(net) => ObjectView::Net(*net),
            Object::StringMetadata(record) => ObjectView::StringMetadata(record@),
            Object::Other => ObjectView::Other,
        }
    }
}

impl AvObjectView {
    /// The av-object after one more adjustment.
    pub open spec fn adjusted(self, adjustment: Adjustment) -> AvObjectView {
        AvObjectView { net: self.net, adjustments: self.adjustments.push(adjustment) }
    }
}

impl ObjectView {
    /// Whether the object has a local transform.
    pub open spec fn is_av(self) -> bool {
        self is Node || self is AvObject
    }

    /// Whether the object heads a metadata chain.
    pub open spec fn is_net(self) -> bool {
        self is Node || self is AvObject || self is Net
    }

    /// The node, if the object is a plain grouping node.
    pub open spec fn node(self) -> Option<NodeView> {
        match self {
            ObjectView::Node(node) => Some(node),
            _ => None,
        }
    }

    /// The record, if the object is a string metadata record.
    pub open spec fn record(self) -> Option<MetadataView> {
        match self {
            ObjectView::StringMetadata(record) => Some(record),
            _ => None,
        }
    }

    /// The object-net part of the object, if it heads a metadata chain.
    pub open spec fn net(self) -> Option<NetObject> {
        match self {
            ObjectView::Node(node) => Some(node.av.net),
            ObjectView::AvObject(av) => Some(av.net),
            ObjectView::Net(net) => Some(net),
            _ => None,
        }
    }

    /// The object with `net` as its object-net part. An object that heads no
    /// metadata chain stays as it is.
    pub open spec fn with_net(self, net: NetObject) -> ObjectView {
        match self {
            ObjectView::Node(node) => ObjectView::Node(
                NodeView {
                    av: AvObjectView { net, adjustments: node.av.adjustments },
                    children: node.children,
                },
            ),
            ObjectView::AvObject(av) => ObjectView::AvObject(
                AvObjectView { net, adjustments: av.adjustments },
            ),
            ObjectView::Net(_) => ObjectView::Net(net),
            _ => self,
        }
    }

    /// The head of the object's metadata chain; null for an object that
    /// heads none.
    pub open spec fn extra_data(self) -> Link {
        match self.net() {
            Some(net) => net.extra_data,
            None => Link { slot: None },
        }
    }

    /// The object with `head` as the head of its metadata chain. An object
    /// that heads no metadata chain stays as it is.
    pub open spec fn with_extra_data(self, head: Link) -> ObjectView {
        self.with_net(NetObject { extra_data: head })
    }

    /// The object with `av` as its av-object part. An object without a local
    /// transform stays as it is.
    pub open spec fn with_av(self, av: AvObjectView) -> ObjectView {
        match self {
            ObjectView::Node(node) => ObjectView::Node(NodeView { av, children: node.children }),
            ObjectView::AvObject(_) => ObjectView::AvObject(av),
            _ => self,
        }
    }

    /// The av-object part of the object, if it has a local transform.
    pub open spec fn av(self) -> Option<AvObjectView> {
        match self {
            ObjectView::Node(node) => Some(node.av),
            ObjectView::AvObject(av) => Some(av),
            _ => None,
        }
    }

    /// The adjustments recorded on the object; none for an object without a
    /// local transform.
    pub open spec fn adjustments(self) -> Seq<Adjustment> {
        match self {
            ObjectView::Node(node) => node.av.adjustments,
            ObjectView::AvObject(av) => av.adjustments,
            _ => Seq::empty(),
        }
    }

    /// The object after one more adjustment. An object without a local
    /// transform stays as it is.
    pub open spec fn adjusted(self, adjustment: Adjustment) -> ObjectView {
        match self.av() {
            Some(av) => self.with_av(av.adjusted(adjustment)),
            None => self,
        }
    }

    /// The object after `times` more adjustments, all of them `adjustment`.
    pub open spec fn adjusted_times(self, adjustment: Adjustment, times: nat) -> ObjectView
        decreases times,
    {
        if times == 0 {
            self
        } else {
            self.adjusted_times(adjustment, (times - 1) as nat).adjusted(adjustment)
        }
    }

    /// Whether every link that the object holds is null or names one of the
    /// first `len` slots.
    pub open spec fn links_below(self, len: nat) -> bool {
        match self {
            ObjectView::Node(node) => {
                &&& node.av.net.extra_data.below(len)
                &&& forall|i: int| 0 <= i < node.children.len() ==> (#[trigger] node.children[i]).below(len)
            },
            ObjectView::AvObject(av) => av.net.extra_data.below(len),
            ObjectView::Net(net) => net.extra_data.below(len),
            ObjectView::StringMetadata(record) => record.next.below(len),
            ObjectView::Other => true,
        }
    }
}

impl ObjectView {
    /// An object with a local transform that is adjusted some times holds
    /// the adjustments that it held, and after them the new one that often.
    pub proof fn lemma_adjusted_times_appends(self, adjustment: Adjustment, times: nat)
        requires
            self.is_av(),
        ensures
            self.adjusted_times(adjustment, times).adjustments() == self.adjustments() + Seq::new(
                times,
                |i: int| adjustment,
            ),
        decreases times,
    {
        if times > 0 {
            let earlier = (times - 1) as nat;
            self.lemma_adjusted_times_appends(adjustment, earlier);
            self.lemma_adjusted_times_keeps_kind(adjustment, earlier);
            assert(Seq::new(times, |i: int| adjustment) =~= Seq::new(earlier, |i: int| adjustment).push(
                adjustment,
            ));
            assert(self.adjusted_times(adjustment, times).adjustments() =~= self.adjusted_times(
                adjustment,
                earlier,
            ).adjustments().push(adjustment));
        } else {
            assert(self.adjustments() + Seq::new(0, |i: int| adjustment) =~= self.adjustments());
        }
    }

    /// Adjustments change neither the kind of an object, nor its links, nor
    /// an object without a local transform.
    pub proof fn lemma_adjusted_times_keeps_kind(self, adjustment: Adjustment, times: nat)
        ensures
            self.adjusted_times(adjustment, times).is_av() == self.is_av(),
            self.adjusted_times(adjustment, times) is Node == self is Node,
            self.adjusted_times(adjustment, times) is StringMetadata == self is StringMetadata,
            self.adjusted_times(adjustment, times).extra_data() == self.extra_data(),
            !self.is_av() ==> self.adjusted_times(adjustment, times) == self,
        decreases times,
    {
        if times > 0 {
            self.lemma_adjusted_times_keeps_kind(adjustment, (times - 1) as nat);
        }
    }
}

/// For arrows: shift the translation by the arrow offset and multiply the
/// scale by the arrow scale. The adjustment is recorded on the object, after
/// those that it holds.
pub fn process_arrow(object: &mut AvObject, config: &TransformConfig)
    ensures
        final(object)@ == old(object)@.adjusted(adjustment_of(Category::Arrow, *config)),
{
    object.adjustments.push(adjustment_for(Category::Arrow, config));
}

/// For bolts: shift the translation by the bolt offset and multiply the
/// scale by the bolt scale. The adjustment is recorded on the object, after
/// those that it holds.
pub fn process_bolt(object: &mut AvObject, config: &TransformConfig)
    ensures
        final(object)@ == old(object)@.adjusted(adjustment_of(Category::Bolt, *config)),
{
    object.adjustments.push(adjustment_for(Category::Bolt, config));
}

/// For throwables: flip the scale, whatever the configuration. The
/// adjustment is recorded on the object, after those that it holds.
pub fn process_throwable(object: &mut AvObject)
    ensures
        final(object)@ == old(object)@.adjusted(Adjustment::Flip),
        forall|config: TransformConfig|
            final(object)@ == old(object)@.adjusted(adjustment_of(Category::Thrown, config)),
{
    object.adjustments.push(Adjustment::Flip);
}

/// Apply the transform policy for `category` to one av-object. Only the
/// object's recorded adjustments change.
pub fn adjust(category: Category, object: &mut AvObject, config: &TransformConfig)
    ensures
        final(object)@ == old(object)@.adjusted(adjustment_of(category, *config)),
{
    match category {
        Category::Arrow => process_arrow(object, config),
        Category::Bolt => process_bolt(object, config),
        Category::Thrown => process_throwable(object),
    }
}

/// Typed views of an object: each is a checked downcast, which gives the
/// part of the object that carries the capability asked for.
impl Object {
    /// The object as a plain grouping node.
    pub fn as_node(&self) -> (node: Option<&Node>)
        ensures
            node is Some <==> self@ is Node,
            node matches Some(found) ==> self@.node() == Some(found@),
    {
        match self {
            Object::Node(node) => Some(node),
            _ => None,
        }
    }

    /// The object as a string metadata record.
    pub fn as_record(&self) -> (record: Option<&MetadataRecord>)
        ensures
            record is Some <==> self@ is StringMetadata,
            record matches Some(found) ==> self@.record() == Some(found@),
    {
        match self {
            Object::StringMetadata(record) => Some(record),
            _ => None,
        }
    }

    /// The av-object capability of the object, to read.
    pub fn as_av(&self) -> (av: Option<&AvObject>)
        ensures
            av is Some <==> self@.is_av(),
            av matches Some(found) ==> self@.av() == Some(found@),
    {
        match self {
            Object::Node(node) => Some(&node.av),
            Object::AvObject(av) => Some(av),
            _ => None,
        }
    }

    /// The av-object capability of the object, to change. What is done to
    /// the part is done to the object, and to nothing else of it.
    pub fn as_av_mut(&mut self) -> (av: Option<&mut AvObject>)
        ensures
            av is Some <==> old(self)@.is_av(),
            av matches Some(found) ==> old(self)@.av() == Some(found@) && final(self)@ == old(
                self,
            )@.with_av(final(found)@),
            av is None ==> final(self)@ == old(self)@,
    {
        match self {
            Object::Node(node) => Some(&mut node.av),
            Object::AvObject(av) => Some(av),
            _ => None,
        }
    }

    /// The object-net capability of the object, to read.
    pub fn as_net(&self) -> (net: Option<&NetObject>)
        ensures
            net is Some <==> self@.is_net(),
            net matches Some(found) ==> self@.net() == Some(*found),
    {
        match self {
            Object::Node(node) => Some(&node.av.net),
            Object::AvObject(av) => Some(&av.net),
            Object::Net(net) => Some(net),
            _ => None,
        }
    }

    /// The object-net capability of the object, to change. What is done to
    /// the part is done to the object, and to nothing else of it.
    pub fn as_net_mut(&mut self) -> (net: Option<&mut NetObject>)
        ensures
            net is Some <==> old(self)@.is_net(),
            net matches Some(found) ==> old(self)@.net() == Some(*found) && final(self)@ == old(
                self,
            )@.with_net(*final(found)),
            net is None ==> final(self)@ == old(self)@,
    {
        match self {
            Object::Node(node) => Some(&mut node.av.net),
            Object::AvObject(av) => Some(&mut av.net),
            Object::Net(net) => Some(net),
            _ => None,
        }
    }
}

} // verus!
