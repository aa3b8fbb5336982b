//! The extra-data splicer: a marker record at the head of a metadata chain.
use vstd::prelude::*;
use crate::error::SurgeryError;
use crate::graph::GraphView;
use crate::link::Link;
use crate::object::{MetadataRecord, MetadataView, Object, ObjectView};
use crate::store::{lemma_views_push, lemma_views_update, SceneGraph};

verus! {

/// The text of the marker that switches collision off for a mesh.
pub const NO_COLLISION_MARKER: &'static str = "NC";

/// The marker text as a value: the two characters `N` and `C`.
pub open spec fn no_collision_text() -> Seq<char> {
    seq!['N', 'C']
}

/// The texts of a sequence of strings, one by one.
pub open spec fn texts_of(values: Seq<String>) -> Seq<Seq<char>> {
    Seq::new(values.len(), |i: int| values[i]@)
}

/// Metadata chains, and what a marker makes of a graph.
impl GraphView {
    /// The values of the metadata records from `head` on, in chain order,
    /// following at most `fuel` links.
    pub open spec fn chain(self, head: Link, fuel: nat) -> Seq<Seq<char>>
        decreases fuel,
    {
        if fuel == 0 {
            Seq::empty()
        } else {
            match self.record_at(head) {
                Some(record) => seq![record.value] + self.chain(record.next, (fuel - 1) as nat),
                None => Seq::empty(),
            }
        }
    }

    /// The values of the metadata chain of the object that `owner` leads to,
    /// head first. A chain passes through no more records than the arena has
    /// slots, so that many links are followed.
    pub open spec fn metadata(self, owner: Link) -> Seq<Seq<char>> {
        match self.resolve(owner) {
            Some(object) => self.chain(object.extra_data(), self.objects.len()),
            None => Seq::empty(),
        }
    }

    /// The graph with a new record holding `text` in a new slot, at the head
    /// of the metadata chain of the object that `owner` leads to. The former
    /// head follows the new record.
    pub open spec fn with_marker(self, owner: Link, text: Seq<char>) -> GraphView
        recommends
            self.has_net(owner),
    {
        let slot = owner.slot.unwrap() as int;
        let record = ObjectView::StringMetadata(
            MetadataView { value: text, next: self.objects[slot].extra_data() },
        );
        GraphView {
            objects: self.objects.push(record).update(
                slot,
                self.objects[slot].with_extra_data(self.fresh_link()),
            ),
            roots: self.roots,
        }
    }
}

impl SceneGraph {
    /// Put a new record holding `text` at the head of the metadata chain of
    /// the object that `owner` leads to. The records that the chain held
    /// follow the new one, in their order.
    ///
    /// Fails, and changes nothing, where `owner` leads to no object that
    /// heads a metadata chain.
    pub fn insert_marker(&mut self, owner: Link, text: &str) -> (result: Result<(), SurgeryError>)
        requires
            old(self).wf(),
        ensures
            final(self).wf(),
            result is Ok <==> old(self)@.has_net(owner),
            result is Ok ==> final(self)@ == old(self)@.with_marker(owner, text@),
            result is Err ==> result == Err::<(), SurgeryError>(SurgeryError::MissingCapability)
                && final(self)@ == old(self)@,
    {
        // Store the previous extra data.
        let next = match self.get_net(owner) {
            Some(net) => net.extra_data,
            None => {
                return Err(SurgeryError::MissingCapability);
            },
        };
        let slot = match owner.slot {
            Some(slot) => slot,
            None => {
                return Err(SurgeryError::MissingCapability);
            },
        };

        // Insert the new extra data, with the previous after it.
        let record = Object::StringMetadata(MetadataRecord { value: text.to_owned(), next });
        let link = Link::at(self.objects.len());
        proof {
            lemma_views_push(self.objects@, record);
        }
        self.objects.push(record);

        // Assign the new extra data.
        let ghost pushed = self.objects@;
        if let Some(net) = self.objects[slot].as_net_mut() {
            net.extra_data = link;
        }
        proof {
            lemma_views_update(pushed, slot as int, self.objects@[slot as int]);
            assert(self.objects@ == pushed.update(slot as int, self.objects@[slot as int]));
            assert(self.objects@.len() == self.objects.len());
            old(self)@.lemma_with_marker_wf(owner, text@);
        }
        Ok(())
    }

    /// Put the no-collision marker at the head of the metadata chain of the
    /// first root.
    ///
    /// Fails, and changes nothing, where the graph has no root, or where its
    /// first root leads to no object that heads a metadata chain.
    pub fn insert_no_collision_tag(&mut self) -> (result: Result<(), SurgeryError>)
        requires
            old(self).wf(),
        ensures
            final(self).wf(),
            result is Ok <==> old(self)@.roots.len() > 0 && old(self)@.has_net(old(self)@.roots[0]),
            result is Ok ==> final(self)@ == old(self)@.with_marker(
                old(self)@.roots[0],
                no_collision_text(),
            ),
            result is Err ==> final(self)@ == old(self)@,
            result is Err ==> result == Err::<(), SurgeryError>(
                if old(self)@.roots.len() == 0 {
                    SurgeryError::InvalidRootCount
                } else {
                    SurgeryError::MissingCapability
                },
            ),
    {
        if self.roots.len() == 0 {
            return Err(SurgeryError::InvalidRootCount);
        }
        let root = self.roots[0];
        proof {
            reveal_strlit("NC");
            assert(NO_COLLISION_MARKER@ == no_collision_text());
        }
        self.insert_marker(root, NO_COLLISION_MARKER)
    }

    /// The values of the metadata chain of the object that `owner` leads to,
    /// head first. A chain that runs in a circle is followed for as many
    /// records as the arena has slots.
    pub fn metadata_values(&self, owner: Link) -> (values: Vec<String>)
        ensures
            texts_of(values@) == self@.metadata(owner),
    {
        let mut values: Vec<String> = Vec::new();
        let mut cursor = match self.get_net(owner) {
            Some(net) => net.extra_data,
            None => Link::null(),
        };
        let mut fuel = self.objects.len();
        let ghost chain = self@.metadata(owner);
        assert(texts_of(values@) + chain == chain);
        while fuel > 0
            invariant
                chain == self@.metadata(owner),
                texts_of(values@) + self@.chain(cursor, fuel as nat) == chain,
            decreases fuel,
        {
            match self.get_record(cursor) {
                Some(record) => {
                    let ghost tail = self@.chain(record.next, (fuel - 1) as nat);
                    let ghost before = values@;
                    values.push(record.value.clone());
                    assert(texts_of(values@) == texts_of(before).push(record.value@));
                    assert(texts_of(values@) + tail == texts_of(before) + (seq![record.value@] + tail));
                    cursor = record.next;
                    fuel -= 1;
                },
                None => {
                    assert(texts_of(values@) + Seq::<Seq<char>>::empty() == texts_of(values@));
                    return values;
                },
            }
        }
        assert(texts_of(values@) + self@.chain(cursor, 0) == texts_of(values@));
        values
    }
}

impl GraphView {
    /// A marker keeps a graph well formed.
    pub proof fn lemma_with_marker_wf(self, owner: Link, text: Seq<char>)
        requires
            self.wf(),
            self.can_grow(),
            self.has_net(owner),
        ensures
            self.with_marker(owner, text).wf(),
    {
        let slot = owner.slot.unwrap() as int;
        let marked = self.with_marker(owner, text);
        assert forall|i: int| 0 <= i < marked.objects.len() implies (#[trigger] marked.objects[i]).links_below(
            marked.objects.len(),
        ) by {
            if i < self.objects.len() {
                self.objects[i].lemma_links_below_longer(self.objects.len(), marked.objects.len());
            } else {
                assert(self.objects[slot].links_below(self.objects.len()));
            }
        }
    }
}

/// What holds of the extra-data splicer.
impl GraphView {
    /// A chain reads the same in two graphs that agree on the metadata
    /// records of the first, as long as it starts within the first.
    pub proof fn lemma_chain_agrees(self, other: GraphView, head: Link, fuel: nat)
        requires
            self.wf(),
            head.below(self.objects.len()),
            self.objects.len() <= other.objects.len(),
            forall|i: int|
                0 <= i < self.objects.len() && ((#[trigger] self.objects[i]) is StringMetadata
                    || other.objects[i] is StringMetadata) ==> other.objects[i] == self.objects[i],
        ensures
            other.chain(head, fuel) == self.chain(head, fuel),
        decreases fuel,
    {
        if fuel > 0 {
            match self.resolve(head) {
                Some(ObjectView::StringMetadata(record)) => {
                    let slot = head.slot.unwrap() as int;
                    assert(self.objects[slot].links_below(self.objects.len()));
                    assert(other.objects[slot] == self.objects[slot]);
                    self.lemma_chain_agrees(other, record.next, (fuel - 1) as nat);
                },
                Some(_) => {
                    let slot = head.slot.unwrap() as int;
                    assert(!(self.objects[slot] is StringMetadata));
                    assert(!(other.objects[slot] is StringMetadata));
                },
                None => {},
            }
        }
    }

    /// After a marker was spliced in, the owner's chain is one longer: its
    /// head holds the marker's text, and the values that the chain held
    /// follow, in their order. No record that was there has changed.
    pub proof fn marker_heads_chain(self, owner: Link, text: Seq<char>)
        requires
            self.wf(),
            self.has_net(owner),
        ensures
            self.with_marker(owner, text).metadata(owner) == seq![text] + self.metadata(owner),
            self.with_marker(owner, text).metadata(owner).len() == self.metadata(owner).len() + 1,
            self.with_marker(owner, text).metadata(owner)[0] == text,
            forall|i: int|
                0 <= i < self.objects.len() && (#[trigger] self.objects[i]) is StringMetadata
                    ==> self.with_marker(owner, text).objects[i] == self.objects[i],
    {
        let marked = self.with_marker(owner, text);
        let slot = owner.slot.unwrap() as int;
        let head = self.objects[slot].extra_data();
        let fuel = self.objects.len();
        assert(self.objects[slot].links_below(self.objects.len()));
        assert(marked.resolve(owner) == Some(self.objects[slot].with_extra_data(self.fresh_link())));
        assert(marked.resolve(owner).unwrap().extra_data() == self.fresh_link());
        assert(marked.resolve(self.fresh_link()) == Some(
            ObjectView::StringMetadata(MetadataView { value: text, next: head }),
        ));
        assert(marked.chain(self.fresh_link(), fuel + 1) == seq![text] + marked.chain(head, fuel));
        self.lemma_chain_agrees(marked, head, fuel);
    }
}

} // verus!
