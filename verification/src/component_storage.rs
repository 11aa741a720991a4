//! Per-type component storage: a dense array of (owning entity, data) pairs
//! plus an index from entity to array position, with swap-remove deletion.
//!
//! Abstractly a bucket is a finite map from entity allocation index to
//! component data (`self@`); the dense array and the index map are the
//! representation that gives every operation amortized O(1) cost.

use vstd::prelude::*;
use std::collections::HashMap;
use crate::error::Error;
use crate::id_types::ComponentId;
use crate::id_types::EntityId;

verus! {

broadcast use crate::id_types::lemma_entity_id_view;

/// The storage strategies a world could be built over. Only the sparse-set
/// strategy (dense array plus entity-to-index map) is implemented; the
/// archetype (columnar) layout is declared as the alternative but never
/// selected.
pub enum ComponentStorageType {
    SparseSet,
    Archetypes,
}

/// The storage bucket for one component type: all components of that type,
/// each owned by a distinct entity.
pub struct ComponentsStorage<C> {
    /// The dense array: order is insertion order except where swap-remove
    /// has relocated an entry.
    component_vec: Vec<(EntityId, C)>,
    /// A map between entity ids and their respective component index.
    entity_component_map: HashMap<usize, usize>,
}

impl<C> ComponentsStorage<C> {
    /// The representation invariant tying the dense array to the index map:
    /// every index entry points at the slot owned by its entity, and every
    /// slot's owner has exactly that index entry. Together these give each
    /// entity at most one entry in the bucket.
    pub closed spec fn wf(self) -> bool {
        &&& forall|id: usize| #[trigger] self.entity_component_map@.contains_key(id) ==> {
            &&& self.entity_component_map@[id] < self.component_vec@.len()
            &&& self.component_vec@[self.entity_component_map@[id] as int].0.raw_spec() == id
        }
        &&& forall|i: int| 0 <= i < self.component_vec@.len() ==> {
            &&& #[trigger] self.entity_component_map@.contains_key(
                self.component_vec@[i].0.raw_spec(),
            )
            &&& self.entity_component_map@[self.component_vec@[i].0.raw_spec()] == i
        }
    }
}

impl<C> View for ComponentsStorage<C> {
    type V = Map<nat, C>;

    /// The bucket abstractly: entity allocation index to component data.
    closed spec fn view(&self) -> Map<nat, C> {
        Map::new(
            |id: nat| id <= usize::MAX && self.entity_component_map@.contains_key(id as usize),
            |id: nat|
                self.component_vec@[self.entity_component_map@[id as usize] as int].1,
        )
    }
}

impl<C> ComponentsStorage<C> {
    /// An empty bucket.
    pub fn new() -> (r: Self)
        ensures
            r.wf(),
            r@ == Map::<nat, C>::empty(),
    {
        let r = ComponentsStorage { component_vec: Vec::new(), entity_component_map: HashMap::new() };
        proof {
            assert(r@ =~= Map::<nat, C>::empty());
        }
        r
    }

    /// Attach `data` to `entity`. Fails, changing nothing, if the entity
    /// already has a component of this type.
    pub fn add(&mut self, component: ComponentId, entity: EntityId, data: C) -> (r: Result<
        (),
        Error,
    >)
        requires
            old(self).wf(),
        ensures
            final(self).wf(),
            old(self)@.contains_key(entity@) ==> {
                &&& r == Err::<(), Error>(Error::ComponentAlreadyAdded(component, entity))
                &&& final(self)@ == old(self)@
            },
            !old(self)@.contains_key(entity@) ==> {
                &&& r == Ok::<(), Error>(())
                &&& final(self)@ == old(self)@.insert(entity@, data)
            },
    {
        if self.entity_component_map.contains_key(&entity.0) {
            return Err(Error::ComponentAlreadyAdded(component, entity));
        }
        let component_index = self.component_vec.len();
        self.component_vec.push((entity, data));
        self.entity_component_map.insert(entity.0, component_index);
        proof {
            let prev = old(self);
            assert forall|id: usize| #[trigger] self.entity_component_map@.contains_key(id) implies {
                &&& self.entity_component_map@[id] < self.component_vec@.len()
                &&& self.component_vec@[self.entity_component_map@[id] as int].0.raw_spec() == id
            } by {
                if id != entity.0 {
                    assert(prev.entity_component_map@.contains_key(id));
                }
            }
            assert forall|i: int| 0 <= i < self.component_vec@.len() implies {
                &&& #[trigger] self.entity_component_map@.contains_key(
                    self.component_vec@[i].0.raw_spec(),
                )
                &&& self.entity_component_map@[self.component_vec@[i].0.raw_spec()] == i
            } by {
                if i < component_index {
                    assert(prev.entity_component_map@.contains_key(
                        prev.component_vec@[i].0.raw_spec(),
                    ));
                }
            }
            assert(self@ =~= old(self)@.insert(entity@, data));
        }
        Ok(())
    }

    /// Detach and return the component that `entity` owns in this bucket, by
    /// swap-remove: the last dense entry moves into the vacated slot (unless
    /// the vacated slot was the last), and the relocated entry's index entry
    /// is updated, so no more than one element ever shifts. Fails, changing
    /// nothing, if the entity has no entry here; in particular a second
    /// removal of the same entity fails.
    pub fn remove(&mut self, component: ComponentId, entity: EntityId) -> (r: Result<C, Error>)
        requires
            old(self).wf(),
        ensures
            final(self).wf(),
            !old(self)@.contains_key(entity@) ==> {
                &&& r == Err::<C, Error>(Error::InvalidEntityComponent(component, entity))
                &&& final(self)@ == old(self)@
            },
            old(self)@.contains_key(entity@) ==> {
                &&& r.is_ok()
                &&& r.unwrap() == old(self)@[entity@]
                &&& final(self)@ == old(self)@.remove(entity@)
            },
    {
        let entity_component_index: usize = match self.entity_component_map.get(&entity.0) {
            None => {
                return Err(Error::InvalidEntityComponent(component, entity));
            },
            Some(i) => *i,
        };
        let ghost prev_vec = self.component_vec@;
        let ghost prev_map = self.entity_component_map@;
        let ghost i = entity_component_index as int;
        let ghost n = prev_vec.len() as int;
        proof {
            // Only `entity` owns slot `i`: any id whose index entry is `i`
            // names the slot's owner.
            assert forall|id: usize| prev_map.contains_key(id) && prev_map[id] == i
                implies id == entity.raw_spec() by {
                assert(prev_vec[prev_map[id] as int].0.raw_spec() == id);
            }
            assert(prev_map.contains_key(prev_vec[n - 1].0.raw_spec()));
        }
        let pair = self.component_vec.swap_remove(entity_component_index);
        if entity_component_index < self.component_vec.len() {
            // The popped last entry now sits in the vacated slot; point its
            // owner's index entry at its new position.
            let relocated: EntityId = self.component_vec[entity_component_index].0;
            self.entity_component_map.insert(relocated.0, entity_component_index);
            proof {
                assert(relocated == prev_vec[n - 1].0);
                assert(self.entity_component_map@
                    == prev_map.insert(prev_vec[n - 1].0.raw_spec(), entity_component_index));
            }
        }
        let ghost mid_map = self.entity_component_map@;
        self.entity_component_map.remove(&entity.0);
        proof {
            let rel = prev_vec[n - 1].0.raw_spec();
            assert(prev_map[rel] == n - 1);
            assert(i < n - 1 ==> mid_map == prev_map.insert(rel, entity_component_index));
            assert(i == n - 1 ==> mid_map == prev_map);
            assert(self.component_vec@ == prev_vec.update(i, prev_vec[n - 1]).drop_last());
            assert(self.entity_component_map@ == mid_map.remove(entity.raw_spec()));
            assert forall|id: usize| #[trigger] self.entity_component_map@.contains_key(id)
                implies {
                &&& self.entity_component_map@[id] < self.component_vec@.len()
                &&& self.component_vec@[self.entity_component_map@[id] as int].0.raw_spec() == id
            } by {
                if i < n - 1 && id == rel {
                    assert(self.entity_component_map@[id] == i);
                    assert(self.component_vec@[i].0 == prev_vec[n - 1].0);
                } else {
                    assert(prev_map.contains_key(id));
                    let j = prev_map[id] as int;
                    assert(prev_vec[j].0.raw_spec() == id);
                    assert(j != i);
                    assert(j != n - 1 || (i == n - 1 && id == rel && j == i));
                    assert(self.component_vec@[j] == prev_vec[j]);
                }
            }
            assert forall|k: int| 0 <= k < self.component_vec@.len() implies {
                &&& #[trigger] self.entity_component_map@.contains_key(
                    self.component_vec@[k].0.raw_spec(),
                )
                &&& self.entity_component_map@[self.component_vec@[k].0.raw_spec()] == k
            } by {
                if k == i {
                    assert(self.component_vec@[k].0.raw_spec() == rel);
                    assert(k < n - 1);
                } else {
                    assert(self.component_vec@[k] == prev_vec[k]);
                    let o = prev_vec[k].0.raw_spec();
                    assert(old(self).entity_component_map@.contains_key(
                        old(self).component_vec@[k].0.raw_spec(),
                    ));
                    assert(prev_map.contains_key(o) && prev_map[o] == k);
                    assert(o != entity.raw_spec());
                    assert(o != rel);
                }
            }
            assert(self@ =~= old(self)@.remove(entity@));
        }
        Ok(pair.1)
    }

    /// A reference to the component that `entity` owns in this bucket. Fails
    /// if the entity has no entry here.
    pub fn get(&self, component: ComponentId, entity: EntityId) -> (r: Result<&C, Error>)
        requires
            self.wf(),
        ensures
            !self@.contains_key(entity@) ==> r == Err::<&C, Error>(
                Error::InvalidEntityComponent(component, entity),
            ),
            self@.contains_key(entity@) ==> {
                &&& r.is_ok()
                &&& *r.unwrap() == self@[entity@]
            },
    {
        match self.entity_component_map.get(&entity.0) {
            None => Err(Error::InvalidEntityComponent(component, entity)),
            Some(component_index) => Ok(&self.component_vec[*component_index].1),
        }
    }

    /// A mutable reference to the component that `entity` owns in this
    /// bucket; whatever the caller writes through it becomes the entity's
    /// component, and nothing else changes. Fails if the entity has no entry
    /// here.
    pub fn get_mut(&mut self, component: ComponentId, entity: EntityId) -> (r: Result<
        &mut C,
        Error,
    >)
        requires
            old(self).wf(),
        ensures
            final(self).wf(),
            !old(self)@.contains_key(entity@) ==> {
                &&& r == Err::<&mut C, Error>(Error::InvalidEntityComponent(component, entity))
                &&& final(self)@ == old(self)@
            },
            old(self)@.contains_key(entity@) ==> {
                &&& r.is_ok()
                &&& *r.unwrap() == old(self)@[entity@]
                &&& final(self)@ == old(self)@.insert(entity@, *final(r.unwrap()))
            },
    {
        let entity_component_index: usize = match self.entity_component_map.get(&entity.0) {
            None => {
                return Err(Error::InvalidEntityComponent(component, entity));
            },
            Some(i) => *i,
        };
        let ghost prev_vec = self.component_vec@;
        let ghost prev_map = self.entity_component_map@;
        let ghost i = entity_component_index as int;
        let element = &mut self.component_vec[entity_component_index].1;
        proof {
            assert(after_borrow(self).component_vec@ == prev_vec.update(
                i,
                (prev_vec[i].0, *final(element)),
            ));
            assert(after_borrow(self).entity_component_map@ == prev_map);
            assert forall|id: usize| #[trigger] after_borrow(self).entity_component_map@.contains_key(id)
                implies {
                &&& after_borrow(self).entity_component_map@[id] < after_borrow(self).component_vec@.len()
                &&& after_borrow(self).component_vec@[after_borrow(self).entity_component_map@[id] as int]
                    .0.raw_spec() == id
            } by {
                assert(old(self).entity_component_map@.contains_key(id));
                assert(prev_vec[prev_map[id] as int].0.raw_spec() == id);
            }
            assert forall|k: int| 0 <= k < after_borrow(self).component_vec@.len() implies {
                &&& #[trigger] after_borrow(self).entity_component_map@.contains_key(
                    after_borrow(self).component_vec@[k].0.raw_spec(),
                )
                &&& after_borrow(self).entity_component_map@[after_borrow(self).component_vec@[k].0.raw_spec()]
                    == k
            } by {
                assert(after_borrow(self).component_vec@[k].0 == prev_vec[k].0);
                assert(old(self).entity_component_map@.contains_key(
                    old(self).component_vec@[k].0.raw_spec(),
                ));
            }
            assert(after_borrow(self)@ =~= old(self)@.insert(entity@, *final(element)));
        }
        Ok(element)
    }
}

} // verus!
