//! The mesh mutation driver: the whole pipeline for one asset.
use vstd::prelude::*;
use crate::error::SurgeryError;
use crate::graph::GraphView;
use crate::link::Link;
use crate::object::adjust;
use crate::policy::{adjustment_of, Adjustment, Category, TransformConfig};
use crate::splice::no_collision_text;
use crate::store::{lemma_views_update, SceneGraph};

verus! {

/// How often `link` occurs in `links`.
pub open spec fn occurrences(links: Seq<Link>, link: Link) -> nat
    decreases links.len(),
{
    if links.len() == 0 {
        0
    } else {
        occurrences(links.drop_last(), link) + if links.last() == link {
            1nat
        } else {
            0nat
        }
    }
}

/// What the adjustments, and the pipeline as a whole, make of a graph.
impl GraphView {
    /// The graph after `adjustment` was recorded on the object that `link`
    /// leads to. Where `link` leads to no object with a local transform, the
    /// graph stays as it is.
    pub open spec fn adjusted(self, link: Link, adjustment: Adjustment) -> GraphView {
        if self.has_av(link) {
            let slot = link.slot.unwrap() as int;
            GraphView {
                objects: self.objects.update(slot, self.objects[slot].adjusted(adjustment)),
                roots: self.roots,
            }
        } else {
            self
        }
    }

    /// The graph after `adjustment` was recorded once for each of `links`,
    /// in order.
    pub open spec fn adjusted_all(self, links: Seq<Link>, adjustment: Adjustment) -> GraphView
        decreases links.len(),
    {
        if links.len() == 0 {
            self
        } else {
            self.adjusted_all(links.drop_last(), adjustment).adjusted(links.last(), adjustment)
        }
    }

    /// The graph after the whole pipeline for one asset: normalize the root,
    /// record the category's adjustment on each child that the root had at
    /// that moment, and mark the root.
    pub open spec fn processed(self, category: Category, config: TransformConfig) -> GraphView {
        let normal = self.normalized();
        let root = normal.roots[0];
        normal.adjusted_all(normal.children_of(root), adjustment_of(category, config)).with_marker(
            root,
            no_collision_text(),
        )
    }
}

impl SceneGraph {
    /// Apply the transform policy for `category` to the object that `child`
    /// leads to, and say whether there was such an object. A link that leads
    /// nowhere, or to an object without a local transform, is passed over.
    pub fn adjust_child(&mut self, child: Link, category: Category, config: &TransformConfig) -> (done:
        bool)
        requires
            old(self).wf(),
        ensures
            final(self).wf(),
            done == old(self)@.has_av(child),
            final(self)@ == old(self)@.adjusted(child, adjustment_of(category, *config)),
    {
        let slot = match child.slot {
            Some(slot) => slot,
            None => {
                return false;
            },
        };
        if slot >= self.objects.len() {
            return false;
        }
        let ghost before = self.objects@;
        let done = match self.objects[slot].as_av_mut() {
            Some(object) => {
                adjust(category, object, config);
                true
            },
            None => false,
        };
        proof {
            lemma_views_update(before, slot as int, self.objects@[slot as int]);
            assert(self.objects@ == before.update(slot as int, self.objects@[slot as int]));
            if !done {
                assert(self@.objects == old(self)@.objects);
            }
            old(self)@.lemma_adjusted_keeps(child, adjustment_of(category, *config));
        }
        done
    }

    /// Apply the transform policy for `category` to each of `children`, in
    /// order. The list is the caller's: what happens to the graph meanwhile
    /// does not change which links are visited.
    pub fn adjust_children(
        &mut self,
        children: &Vec<Link>,
        category: Category,
        config: &TransformConfig,
    )
        requires
            old(self).wf(),
        ensures
            final(self).wf(),
            final(self)@ == old(self)@.adjusted_all(children@, adjustment_of(category, *config)),
    {
        let mut k: usize = 0;
        while k < children.len()
            invariant
                k <= children@.len(),
                self.wf(),
                self@ == old(self)@.adjusted_all(
                    children@.take(k as int),
                    adjustment_of(category, *config),
                ),
            decreases children@.len() - k,
        {
            assert(children@.take(k + 1).drop_last() == children@.take(k as int));
            self.adjust_child(children[k], category, config);
            k += 1;
        }
        assert(children@.take(k as int) == children@);
    }

    /// The children of the node that `node` leads to, copied out; none where
    /// it leads to no node.
    pub fn children_snapshot(&self, node: Link) -> (children: Vec<Link>)
        ensures
            children@ == self@.children_of(node),
    {
        let mut children: Vec<Link> = Vec::new();
        if let Some(found) = self.get_node(node) {
            let mut k: usize = 0;
            while k < found.children.len()
                invariant
                    k <= found.children@.len(),
                    children@ == found.children@.take(k as int),
                decreases found.children@.len() - k,
            {
                children.push(found.children[k]);
                assert(found.children@.take(k + 1) == found.children@.take(k as int).push(
                    found.children@[k as int],
                ));
                k += 1;
            }
            assert(found.children@.take(k as int) == found.children@);
        }
        children
    }

    /// Run the pipeline on one asset: normalize the root, apply the
    /// transform policy for `category` to each child that the root has at
    /// that moment, and put the no-collision marker on the root.
    ///
    /// An asset that does not have exactly one root is turned down, and
    /// nothing in it changes.
    pub fn process_asset(&mut self, category: Category, config: &TransformConfig) -> (result: Result<
        (),
        SurgeryError,
    >)
        requires
            old(self).wf(),
        ensures
            final(self).wf(),
            result is Ok <==> old(self)@.roots.len() == 1,
            result is Ok ==> final(self)@ == old(self)@.processed(category, *config),
            result is Err ==> result == Err::<(), SurgeryError>(SurgeryError::InvalidRootCount)
                && final(self)@ == old(self)@,
    {
        if self.roots.len() != 1 {
            return Err(SurgeryError::InvalidRootCount);
        }
        let root = self.normalize();
        let ghost normal = self@;

        // The children are copied out before any of them is touched.
        let children = self.children_snapshot(root);
        self.adjust_children(&children, category, config);
        proof {
            normal.lemma_adjusted_all_keeps(children@, adjustment_of(category, *config));
        }
        self.insert_no_collision_tag()
    }
}

impl GraphView {
    /// Recording an adjustment keeps a graph well formed, its roots, the
    /// length of its arena, and the kind and the links of every object.
    pub proof fn lemma_adjusted_keeps(self, link: Link, adjustment: Adjustment)
        requires
            self.wf(),
        ensures
            self.adjusted(link, adjustment).wf(),
            self.adjusted(link, adjustment).roots == self.roots,
            self.adjusted(link, adjustment).objects.len() == self.objects.len(),
            forall|other: Link|
                self.adjusted(link, adjustment).children_of(other) == self.children_of(other),
            forall|other: Link| self.adjusted(link, adjustment).is_node(other) == self.is_node(other),
    {
        let after = self.adjusted(link, adjustment);
        assert forall|i: int| 0 <= i < after.objects.len() implies (#[trigger] after.objects[i]).links_below(
            after.objects.len(),
        ) by {
            assert(self.objects[i].links_below(self.objects.len()));
        }
        assert forall|other: Link| after.children_of(other) == self.children_of(other) by {}
        assert forall|other: Link| after.is_node(other) == self.is_node(other) by {}
    }

    /// Recording adjustments keeps a graph well formed, its roots, the
    /// length of its arena, and the kind and the links of every object.
    pub proof fn lemma_adjusted_all_keeps(self, links: Seq<Link>, adjustment: Adjustment)
        requires
            self.wf(),
        ensures
            self.adjusted_all(links, adjustment).wf(),
            self.adjusted_all(links, adjustment).roots == self.roots,
            self.adjusted_all(links, adjustment).objects.len() == self.objects.len(),
            forall|other: Link|
                self.adjusted_all(links, adjustment).children_of(other) == self.children_of(other),
            forall|other: Link|
                self.adjusted_all(links, adjustment).is_node(other) == self.is_node(other),
        decreases links.len(),
    {
        if links.len() > 0 {
            self.lemma_adjusted_all_keeps(links.drop_last(), adjustment);
            self.adjusted_all(links.drop_last(), adjustment).lemma_adjusted_keeps(
                links.last(),
                adjustment,
            );
        }
    }
}

/// What holds of the per-child adjustments.
impl GraphView {
    /// Adjusting along two lists, one after the other, is adjusting along
    /// their concatenation.
    pub proof fn lemma_adjusted_all_concat(self, first: Seq<Link>, second: Seq<Link>, adjustment: Adjustment)
        ensures
            self.adjusted_all(first + second, adjustment) == self.adjusted_all(
                first,
                adjustment,
            ).adjusted_all(second, adjustment),
        decreases second.len(),
    {
        if second.len() == 0 {
            assert(first + second =~= first);
        } else {
            assert((first + second).drop_last() =~= first + second.drop_last());
            assert((first + second).last() == second.last());
            self.lemma_adjusted_all_concat(first, second.drop_last(), adjustment);
        }
    }

    /// Every object ends up adjusted exactly as often as its link occurs in
    /// the list that was handed in, whatever the adjustments did to the graph
    /// on the way: an object with a local transform holds the adjustments
    /// that it held, and after them the new one that often. An object
    /// without a local transform stays as it was.
    pub proof fn adjusted_all_follows_the_list(self, links: Seq<Link>, adjustment: Adjustment, link: Link)
        requires
            self.resolve(link) is Some,
        ensures
            self.adjusted_all(links, adjustment).resolve(link) == Some(
                self.resolve(link).unwrap().adjusted_times(adjustment, occurrences(links, link)),
            ),
            self.has_av(link) ==> self.adjusted_all(links, adjustment).resolve(
                link,
            ).unwrap().adjustments() == self.resolve(link).unwrap().adjustments() + Seq::new(
                occurrences(links, link),
                |i: int| adjustment,
            ),
            !self.has_av(link) ==> self.adjusted_all(links, adjustment).resolve(link)
                == self.resolve(link),
        decreases links.len(),
    {
        let object = self.resolve(link).unwrap();
        if links.len() > 0 {
            self.adjusted_all_follows_the_list(links.drop_last(), adjustment, link);
            let times = occurrences(links.drop_last(), link);
            object.lemma_adjusted_times_keeps_kind(adjustment, times);
            if links.last() == link {
                assert(object.adjusted_times(adjustment, times + 1) == object.adjusted_times(
                    adjustment,
                    times,
                ).adjusted(adjustment));
            }
        }
        object.lemma_adjusted_times_keeps_kind(adjustment, occurrences(links, link));
        if object.is_av() {
            object.lemma_adjusted_times_appends(adjustment, occurrences(links, link));
        }
    }

    /// A link that leads nowhere, or to an object without a local transform,
    /// is passed over: it changes nothing, and the links after it are
    /// visited as if it had not been there.
    pub proof fn unresolved_child_is_skipped(
        self,
        before: Seq<Link>,
        link: Link,
        after: Seq<Link>,
        adjustment: Adjustment,
    )
        requires
            !self.has_av(link),
        ensures
            self.adjusted_all(before.push(link) + after, adjustment) == self.adjusted_all(
                before + after,
                adjustment,
            ),
    {
        let reached = self.adjusted_all(before, adjustment);
        assert(!reached.has_av(link)) by {
            if self.resolve(link) is Some {
                self.adjusted_all_follows_the_list(before, adjustment, link);
            } else {
                self.lemma_adjusted_all_keeps_length(before, adjustment);
            }
        }
        assert(before.push(link).drop_last() =~= before);
        assert(self.adjusted_all(before.push(link), adjustment) == reached);
        self.lemma_adjusted_all_concat(before.push(link), after, adjustment);
        self.lemma_adjusted_all_concat(before, after, adjustment);
    }

    /// Recording adjustments keeps the length of the arena.
    pub proof fn lemma_adjusted_all_keeps_length(self, links: Seq<Link>, adjustment: Adjustment)
        ensures
            self.adjusted_all(links, adjustment).objects.len() == self.objects.len(),
            self.adjusted_all(links, adjustment).roots == self.roots,
        decreases links.len(),
    {
        if links.len() > 0 {
            self.lemma_adjusted_all_keeps_length(links.drop_last(), adjustment);
        }
    }
}

/// What holds of the pipeline as a whole.
impl GraphView {
    /// After the pipeline the graph has one root, a plain grouping node,
    /// with the children that it had after normalization. The root's
    /// metadata chain is the chain that the normalized root had, with the
    /// no-collision marker before it.
    pub proof fn processed_marks_the_root(self, category: Category, config: TransformConfig)
        requires
            self.wf(),
            self.can_grow(),
            self.roots.len() == 1,
        ensures
            self.processed(category, config).roots == self.normalized().roots,
            self.processed(category, config).roots.len() == 1,
            self.processed(category, config).is_node(self.normalized().roots[0]),
            self.processed(category, config).children_of(self.normalized().roots[0])
                == self.normalized().children_of(self.normalized().roots[0]),
            self.processed(category, config).metadata(self.normalized().roots[0])
                == seq![no_collision_text()] + self.normalized().metadata(
                self.normalized().roots[0],
            ),
    {
        let normal = self.normalized();
        let root = normal.roots[0];
        let adjustment = adjustment_of(category, config);
        let children = normal.children_of(root);
        let reached = normal.adjusted_all(children, adjustment);
        self.normalized_has_single_node_root();
        self.lemma_normalized_wf();
        normal.lemma_adjusted_all_keeps(children, adjustment);
        normal.adjusted_all_follows_the_list(children, adjustment, root);
        normal.resolve(root).unwrap().lemma_adjusted_times_keeps_kind(
            adjustment,
            occurrences(children, root),
        );
        assert forall|i: int|
            0 <= i < normal.objects.len() && ((#[trigger] normal.objects[i]) is StringMetadata
                || reached.objects[i] is StringMetadata) implies reached.objects[i]
            == normal.objects[i] by {
            let link = Link { slot: Some(i as usize) };
            normal.adjusted_all_follows_the_list(children, adjustment, link);
            normal.objects[i].lemma_adjusted_times_keeps_kind(
                adjustment,
                occurrences(children, link),
            );
        }
        let head = normal.resolve(root).unwrap().extra_data();
        assert(normal.objects[root.slot.unwrap() as int].links_below(normal.objects.len()));
        normal.lemma_chain_agrees(reached, head, normal.objects.len());
        reached.marker_heads_chain(root, no_collision_text());
    }

    /// After the pipeline every object that was there after normalization
    /// is adjusted exactly as often as its link occurred among the children
    /// that the root had at that moment; but for the head of the root's
    /// metadata chain, nothing else about it has changed.
    pub proof fn processed_follows_the_snapshot(
        self,
        category: Category,
        config: TransformConfig,
        link: Link,
    )
        requires
            self.wf(),
            self.can_grow(),
            self.roots.len() == 1,
            self.normalized().resolve(link) is Some,
        ensures
            ({
                let normal = self.normalized();
                let root = normal.roots[0];
                let adjusted = normal.resolve(link).unwrap().adjusted_times(
                    adjustment_of(category, config),
                    occurrences(normal.children_of(root), link),
                );
                self.processed(category, config).resolve(link) == Some(
                    if link == root {
                        adjusted.with_extra_data(normal.fresh_link())
                    } else {
                        adjusted
                    },
                )
            }),
    {
        let normal = self.normalized();
        let root = normal.roots[0];
        let adjustment = adjustment_of(category, config);
        let children = normal.children_of(root);
        self.normalized_has_single_node_root();
        self.lemma_normalized_wf();
        normal.lemma_adjusted_all_keeps(children, adjustment);
        normal.adjusted_all_follows_the_list(children, adjustment, link);
    }
}

} // verus!
