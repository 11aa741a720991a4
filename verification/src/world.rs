//! The type-erased registry: one storage bucket per component type that has
//! ever been used, plus the entity allocator.
//!
//! Every operation takes an entity handle and a component type key; the
//! world validates the entity first, then routes the operation to that
//! type's bucket.

use vstd::prelude::*;
use std::collections::HashMap;
use crate::component_storage::ComponentsStorage;
use crate::error::Error;
use crate::id_types::ComponentId;
use crate::id_types::EntityId;

verus! {

broadcast use crate::id_types::lemma_entity_id_view, crate::id_types::lemma_component_id_view;

/// A world abstractly: how many entities have been allocated, and, for each
/// component type tag that has ever been used, the finite map from entity
/// allocation index to that entity's component of the type.
#[verifier::ext_equal]
pub struct WorldView<C> {
    /// Entities allocated so far; the valid ids are exactly those below it.
    pub entity_count: nat,
    /// Component type tag to bucket contents.
    pub buckets: Map<nat, Map<nat, C>>,
}

impl<C> WorldView<C> {
    /// Whether `id` was produced by this world's allocator. Validity, once
    /// granted, is never revoked: ids are handed out in increasing order and
    /// never destroyed, so the valid ids are exactly those below the
    /// allocation counter.
    pub open spec fn entity_is_valid(self, id: nat) -> bool {
        id < self.entity_count
    }

    /// Whether a bucket for tag `tag` has ever been created.
    pub open spec fn has_bucket(self, tag: nat) -> bool {
        self.buckets.contains_key(tag)
    }

    /// Whether entity `id` owns a component of the type tagged `tag`.
    pub open spec fn has_component(self, tag: nat, id: nat) -> bool {
        self.has_bucket(tag) && self.buckets[tag].contains_key(id)
    }

    /// The component of the type tagged `tag` that entity `id` owns.
    pub open spec fn component(self, tag: nat, id: nat) -> C {
        self.buckets[tag][id]
    }

    /// The world after attaching `data` to entity `id` under tag `tag`,
    /// creating the bucket if the tag was never used before.
    pub open spec fn with_component(self, tag: nat, id: nat, data: C) -> WorldView<C> {
        let bucket = if self.has_bucket(tag) {
            self.buckets[tag]
        } else {
            Map::<nat, C>::empty()
        };
        WorldView { buckets: self.buckets.insert(tag, bucket.insert(id, data)), ..self }
    }

    /// The world after detaching entity `id`'s component under tag `tag`.
    /// The bucket stays, even when it becomes empty.
    pub open spec fn without_component(self, tag: nat, id: nat) -> WorldView<C> {
        WorldView { buckets: self.buckets.insert(tag, self.buckets[tag].remove(id)), ..self }
    }

    /// The world after making sure the bucket for tag `tag` exists.
    pub open spec fn with_bucket(self, tag: nat) -> WorldView<C> {
        if self.has_bucket(tag) {
            self
        } else {
            WorldView { buckets: self.buckets.insert(tag, Map::<nat, C>::empty()), ..self }
        }
    }
}

/// The registry: owns one storage bucket per component type that has ever
/// been used, the set of valid entity ids (represented by the allocation
/// counter, since validity is never revoked), and the allocator's next-id
/// counter. All external access to bucket internals goes through the typed
/// operations here.
///
/// `C` is the caller-chosen carrier of component data: typically a tagged
/// union with one variant per component type, so that buckets of different
/// component types coexist in one collection.
pub struct World<C> {
    component_storage_vecs: HashMap<u64, ComponentsStorage<C>>,
    entity_counter: usize,
}

impl<C> View for World<C> {
    type V = WorldView<C>;

    closed spec fn view(&self) -> WorldView<C> {
        WorldView {
            entity_count: self.entity_counter as nat,
            buckets: Map::new(
                |tag: nat| tag <= u64::MAX && self.component_storage_vecs@.contains_key(
                    tag as u64,
                ),
                |tag: nat| self.component_storage_vecs@[tag as u64]@,
            ),
        }
    }
}

impl<C> World<C> {
    /// Every bucket of the registry satisfies its representation invariant.
    pub closed spec fn wf(self) -> bool {
        forall|tag: u64| #[trigger] self.component_storage_vecs@.contains_key(tag)
            ==> self.component_storage_vecs@[tag].wf()
    }

    /// An empty world: no entities, no buckets.
    pub fn new() -> (r: Self)
        ensures
            r.wf(),
            r@.entity_count == 0,
            r@.buckets == Map::<nat, Map<nat, C>>::empty(),
    {
        let r = World { component_storage_vecs: HashMap::new(), entity_counter: 0 };
        proof {
            assert(r@.buckets =~= Map::<nat, Map<nat, C>>::empty());
        }
        r
    }

    /// Allocate a fresh entity id, strictly greater than all previously
    /// returned ids, and record it as valid.
    pub fn create_entity(&mut self) -> (r: EntityId)
        requires
            old(self).wf(),
            old(self)@.entity_count < usize::MAX,
        ensures
            final(self).wf(),
            r@ == old(self)@.entity_count,
            final(self)@.entity_is_valid(r@),
            final(self)@.entity_count == old(self)@.entity_count + 1,
            final(self)@.buckets == old(self)@.buckets,
    {
        let entity_id = EntityId(self.entity_counter);
        self.entity_counter = self.entity_counter + 1;
        proof {
            assert(final(self)@.buckets =~= old(self)@.buckets);
        }
        entity_id
    }

    /// Whether `id` was produced by this world's allocator (and, in a design
    /// with destruction, not yet invalidated; in this one validity is never
    /// revoked).
    pub fn is_entity_valid(&self, id: EntityId) -> (r: bool)
        ensures
            r == self@.entity_is_valid(id@),
    {
        id.0 < self.entity_counter
    }

    /// A reference to the component of the type tagged `component` that
    /// `entity` owns. The entity is validated first; then the bucket must
    /// exist; then the entity must have an entry in it.
    pub fn get_entity_component(&self, component: ComponentId, entity: EntityId) -> (r: Result<
        &C,
        Error,
    >)
        requires
            self.wf(),
        ensures
            !self@.entity_is_valid(entity@) ==> r == Err::<&C, Error>(
                Error::InvalidEntityId(entity),
            ),
            self@.entity_is_valid(entity@) && !self@.has_bucket(component@) ==> r == Err::<
                &C,
                Error,
            >(Error::InvalidWorldComponent(component)),
            self@.entity_is_valid(entity@) && self@.has_bucket(component@)
                && !self@.has_component(component@, entity@) ==> r == Err::<&C, Error>(
                Error::InvalidEntityComponent(component, entity),
            ),
            self@.entity_is_valid(entity@) && self@.has_component(component@, entity@) ==> {
                &&& r.is_ok()
                &&& *r.unwrap() == self@.component(component@, entity@)
            },
    {
        if !self.is_entity_valid(entity) {
            return Err(Error::InvalidEntityId(entity));
        }
        match self.component_storage_vecs.get(&component.0) {
            None => Err(Error::InvalidWorldComponent(component)),
            Some(storage) => storage.get(component, entity),
        }
    }

    /// Attach `data` to `entity` under the type tagged `component`. The
    /// entity is validated first; then the bucket is created if the tag was
    /// never used; then the insertion fails if the entity already has a
    /// component of the type. A failed insertion changes nothing.
    pub fn add_entity_component(&mut self, component: ComponentId, entity: EntityId, data: C) -> (r:
        Result<(), Error>)
        requires
            old(self).wf(),
        ensures
            final(self).wf(),
            !old(self)@.entity_is_valid(entity@) ==> {
                &&& r == Err::<(), Error>(Error::InvalidEntityId(entity))
                &&& final(self)@ == old(self)@
            },
            old(self)@.entity_is_valid(entity@) && old(self)@.has_component(component@, entity@)
                ==> {
                &&& r == Err::<(), Error>(Error::ComponentAlreadyAdded(component, entity))
                &&& final(self)@ == old(self)@
            },
            old(self)@.entity_is_valid(entity@) && !old(self)@.has_component(component@, entity@)
                ==> {
                &&& r == Ok::<(), Error>(())
                &&& final(self)@ == old(self)@.with_component(component@, entity@, data)
            },
    {
        if !self.is_entity_valid(entity) {
            return Err(Error::InvalidEntityId(entity));
        }
        self.ensure_component_registered(component);
        proof {
            assert(self@.has_bucket(component@));
            assert(self.component_storage_vecs@.contains_key(component.0));
            assert(self.component_storage_vecs@[component.0].wf());
        }
        let ghost mid_view = self@;
        let ghost mid_map = self.component_storage_vecs@;
        let mut storage = self.component_storage_vecs.remove(&component.0).unwrap();
        let ghost bucket0 = storage@;
        let result = storage.add(component, entity, data);
        self.component_storage_vecs.insert(component.0, storage);
        proof {
            assert(bucket0 == mid_view.buckets[component@]);
            assert(mid_view == old(self)@.with_bucket(component@));
            assert(final(self).component_storage_vecs@ =~= mid_map.insert(
                component.0,
                final(self).component_storage_vecs@[component.0],
            ));
            assert forall|tag: nat| tag != component@ implies {
                &&& #[trigger] final(self)@.buckets.contains_key(tag)
                    == old(self)@.buckets.contains_key(tag)
                &&& old(self)@.buckets.contains_key(tag)
                    ==> final(self)@.buckets[tag] == old(self)@.buckets[tag]
            } by {
                if tag <= u64::MAX {
                    let t = tag as u64;
                    assert(t != component.0);
                    assert(final(self).component_storage_vecs@.contains_key(t)
                        == mid_map.contains_key(t));
                    assert(mid_map.contains_key(t) == mid_view.buckets.contains_key(tag));
                    assert(mid_view.buckets.contains_key(tag)
                        == old(self)@.buckets.contains_key(tag));
                    if final(self)@.buckets.contains_key(tag) {
                        assert(final(self)@.buckets[tag]
                            == final(self).component_storage_vecs@[t]@);
                        assert(final(self).component_storage_vecs@[t] == mid_map[t]);
                        assert(mid_view.buckets[tag] == mid_map[t]@);
                        assert(mid_view.buckets[tag] == old(self)@.buckets[tag]);
                    }
                }
            }
            if old(self)@.has_component(component@, entity@) {
                assert(bucket0.contains_key(entity@));
                assert(final(self)@.buckets[component@] == bucket0);
                assert(final(self)@ =~~= old(self)@);
            } else {
                assert(!bucket0.contains_key(entity@));
                assert(final(self)@.buckets[component@] == bucket0.insert(entity@, data));
                assert(final(self)@ =~~= old(self)@.with_component(component@, entity@, data));
            }
        }
        result
    }

    /// A mutable reference to the component of the type tagged `component`
    /// that `entity` owns; whatever the caller writes through it becomes the
    /// entity's component, and nothing else changes. The entity is validated
    /// first; then the bucket must exist; then the entity must have an entry
    /// in it. A failed lookup changes nothing.
    pub fn get_entity_component_mut(&mut self, component: ComponentId, entity: EntityId) -> (r:
        Result<&mut C, Error>)
        requires
            old(self).wf(),
        ensures
            final(self).wf(),
            !old(self)@.entity_is_valid(entity@) ==> {
                &&& r == Err::<&mut C, Error>(Error::InvalidEntityId(entity))
                &&& final(self)@ == old(self)@
            },
            old(self)@.entity_is_valid(entity@) && !old(self)@.has_bucket(component@) ==> {
                &&& r == Err::<&mut C, Error>(Error::InvalidWorldComponent(component))
                &&& final(self)@ == old(self)@
            },
            old(self)@.entity_is_valid(entity@) && old(self)@.has_bucket(component@)
                && !old(self)@.has_component(component@, entity@) ==> {
                &&& r == Err::<&mut C, Error>(Error::InvalidEntityComponent(component, entity))
                &&& final(self)@ == old(self)@
            },
            old(self)@.entity_is_valid(entity@) && old(self)@.has_component(component@, entity@)
                ==> {
                &&& r.is_ok()
                &&& *r.unwrap() == old(self)@.component(component@, entity@)
                &&& final(self)@ == old(self)@.with_component(
                    component@,
                    entity@,
                    *final(r.unwrap()),
                )
            },
    {
        if !self.is_entity_valid(entity) {
            return Err(Error::InvalidEntityId(entity));
        }
        match self.component_storage_vecs.entry(component.0) {
            std::collections::hash_map::Entry::Vacant(_) => {
                proof {
                    assert(after_borrow(self)@ =~~= old(self)@);
                }
                Err(Error::InvalidWorldComponent(component))
            },
            std::collections::hash_map::Entry::Occupied(occupied) => {
                let storage = occupied.into_mut();
                let r = storage.get_mut(component, entity);
                proof {
                    let fmap = after_borrow(self).component_storage_vecs@;
                    assert(fmap =~= old(self).component_storage_vecs@.insert(
                        component.0,
                        fmap[component.0],
                    ));
                    assert forall|tag: u64| #[trigger] fmap.contains_key(tag)
                        implies fmap[tag].wf() by {
                        if tag != component.0 {
                            assert(old(self).component_storage_vecs@.contains_key(tag));
                        }
                    }
                    if old(self)@.has_component(component@, entity@) {
                        assert(fmap[component.0]@ == old(self)@.buckets[component@].insert(
                            entity@,
                            *final(r.unwrap()),
                        ));
                        assert(after_borrow(self)@ =~~= old(self)@.with_component(
                            component@,
                            entity@,
                            *final(r.unwrap()),
                        ));
                    } else {
                        assert(fmap[component.0]@ == old(self)@.buckets[component@]);
                        assert(after_borrow(self)@ =~~= old(self)@);
                    }
                }
                r
            },
        }
    }

    /// Detach and return the component of the type tagged `component` that
    /// `entity` owns, by the bucket's swap-remove. The entity is validated
    /// first; then the bucket must exist; then the entity must have an entry
    /// in it. A failed removal changes nothing, so removing the same
    /// component twice fails the second time.
    pub fn remove_entity_component(&mut self, component: ComponentId, entity: EntityId) -> (r:
        Result<C, Error>)
        requires
            old(self).wf(),
        ensures
            final(self).wf(),
            !old(self)@.entity_is_valid(entity@) ==> {
                &&& r == Err::<C, Error>(Error::InvalidEntityId(entity))
                &&& final(self)@ == old(self)@
            },
            old(self)@.entity_is_valid(entity@) && !old(self)@.has_bucket(component@) ==> {
                &&& r == Err::<C, Error>(Error::InvalidWorldComponent(component))
                &&& final(self)@ == old(self)@
            },
            old(self)@.entity_is_valid(entity@) && old(self)@.has_bucket(component@)
                && !old(self)@.has_component(component@, entity@) ==> {
                &&& r == Err::<C, Error>(Error::InvalidEntityComponent(component, entity))
                &&& final(self)@ == old(self)@
            },
            old(self)@.entity_is_valid(entity@) && old(self)@.has_component(component@, entity@)
                ==> {
                &&& r == Ok::<C, Error>(old(self)@.component(component@, entity@))
                &&& final(self)@ == old(self)@.without_component(component@, entity@)
            },
    {
        if !self.is_entity_valid(entity) {
            return Err(Error::InvalidEntityId(entity));
        }
        let mut storage = match self.component_storage_vecs.remove(&component.0) {
            None => {
                proof {
                    assert(final(self)@ =~~= old(self)@);
                }
                return Err(Error::InvalidWorldComponent(component));
            },
            Some(s) => s,
        };
        let result = storage.remove(component, entity);
        self.component_storage_vecs.insert(component.0, storage);
        proof {
            if old(self)@.has_component(component@, entity@) {
                assert(final(self)@ =~~= old(self)@.without_component(component@, entity@));
            } else {
                assert(final(self)@ =~~= old(self)@);
            }
        }
        result
    }

    /// Idempotently create an empty bucket for the component type tagged
    /// `component` if none exists. Returns `true` if a bucket already
    /// existed, `false` if one was just created.
    pub fn ensure_component_registered(&mut self, component: ComponentId) -> (r: bool)
        requires
            old(self).wf(),
        ensures
            final(self).wf(),
            r == old(self)@.has_bucket(component@),
            final(self)@ == old(self)@.with_bucket(component@),
    {
        if self.component_storage_vecs.contains_key(&component.0) {
            proof {
                assert(final(self)@ =~~= old(self)@.with_bucket(component@));
            }
            true
        } else {
            self.component_storage_vecs.insert(component.0, ComponentsStorage::new());
            proof {
                assert(final(self)@ =~~= old(self)@.with_bucket(component@));
            }
            false
        }
    }
}

/// Round trip: after attaching `data` to entity `id` under tag `tag`, the
/// entity owns exactly `data` under that tag, the tag's bucket exists, and
/// the set of allocated entities is unchanged. Together with the contracts
/// of `add_entity_component` and `get_entity_component`, an attachment
/// followed by a lookup of the same pair returns the attached data — and a
/// second attachment of the same pair is refused as `ComponentAlreadyAdded`,
/// leaving the world as it was.
pub proof fn lemma_add_round_trip<C>(w: WorldView<C>, tag: nat, id: nat, data: C)
    ensures
        w.with_component(tag, id, data).has_component(tag, id),
        w.with_component(tag, id, data).component(tag, id) == data,
        w.with_component(tag, id, data).has_bucket(tag),
        w.with_component(tag, id, data).entity_count == w.entity_count,
{
}

/// Attaching a component to one (type, entity) pair touches no other pair:
/// every other pair owns a component afterwards exactly if it did before,
/// with the same data.
pub proof fn lemma_add_preserves_others<C>(
    w: WorldView<C>,
    tag: nat,
    id: nat,
    data: C,
    other_tag: nat,
    other_id: nat,
)
    requires
        other_tag != tag || other_id != id,
    ensures
        w.with_component(tag, id, data).has_component(other_tag, other_id) == w.has_component(
            other_tag,
            other_id,
        ),
        w.has_component(other_tag, other_id) ==> w.with_component(tag, id, data).component(
            other_tag,
            other_id,
        ) == w.component(other_tag, other_id),
{
}

/// The entity gate: an id at or beyond the allocation counter — one the
/// allocator never returned — is invalid, whatever buckets exist; by the
/// contracts of the four component operations, every operation on such an id
/// is refused as `InvalidEntityId` before any bucket is consulted.
pub proof fn lemma_entity_gate<C>(w: WorldView<C>, id: nat)
    requires
        w.entity_count <= id,
    ensures
        !w.entity_is_valid(id),
{
}

/// The type gate: once any entity owns a component of a type, the type's
/// bucket exists, so by the contract of `get_entity_component` a lookup for
/// an entity that lacks the component is refused as
/// `InvalidEntityComponent`, no longer as `InvalidWorldComponent`.
pub proof fn lemma_type_gate<C>(w: WorldView<C>, tag: nat, id: nat, data: C, other_id: nat)
    requires
        other_id != id,
        !w.has_component(tag, other_id),
    ensures
        w.with_component(tag, id, data).has_bucket(tag),
        !w.with_component(tag, id, data).has_component(tag, other_id),
{
}

/// Removal detaches: after a successful removal the entity no longer owns a
/// component of the type, while the type's bucket and the set of allocated
/// entities remain. By the contract of `remove_entity_component`, a second
/// immediate removal — or a lookup — of the same pair is therefore refused
/// as `InvalidEntityComponent`.
pub proof fn lemma_remove_clears<C>(w: WorldView<C>, tag: nat, id: nat)
    requires
        w.has_component(tag, id),
    ensures
        !w.without_component(tag, id).has_component(tag, id),
        w.without_component(tag, id).has_bucket(tag),
        w.without_component(tag, id).entity_count == w.entity_count,
{
}

/// Swap-remove is invisible through the interface: detaching one entity's
/// component touches no other (type, entity) pair, even though the bucket
/// relocates its last dense entry into the vacated slot.
pub proof fn lemma_remove_preserves_others<C>(
    w: WorldView<C>,
    tag: nat,
    id: nat,
    other_tag: nat,
    other_id: nat,
)
    requires
        w.has_component(tag, id),
        other_tag != tag || other_id != id,
    ensures
        w.without_component(tag, id).has_component(other_tag, other_id) == w.has_component(
            other_tag,
            other_id,
        ),
        w.has_component(other_tag, other_id) ==> w.without_component(tag, id).component(
            other_tag,
            other_id,
        ) == w.component(other_tag, other_id),
{
}

} // verus!
