//! The opaque identifier types: entity handles and component type keys.

use vstd::prelude::*;

verus! {

/// An opaque handle identifying a logical object; it carries no data itself.
///
/// Wraps an unsigned integer assigned in strictly increasing allocation
/// order, so comparing handles can be useful sometimes:
///
/// - `a > b` means that `a` was allocated after `b`.
/// - `a == b` means that `a` refers to the same underlying entity as `b`.
///
/// The abstract value (`id@`) of a handle is its allocation index.
#[derive(Debug, Copy, Clone, Hash, PartialEq, Eq, Structural, PartialOrd, Ord)]
pub struct EntityId(pub(crate) usize);

impl View for EntityId {
    type V = nat;

    closed spec fn view(&self) -> nat {
        self.0 as nat
    }
}

impl EntityId {
    /// The allocation index as the machine word the handle wraps.
    pub(crate) open spec fn raw_spec(&self) -> usize {
        self.0
    }
}

/// The abstract value of an entity handle is exactly the integer it wraps.
pub(crate) broadcast proof fn lemma_entity_id_view(e: EntityId)
    ensures
        #[trigger] e@ == e.raw_spec() as nat,
{
}

/// A process-stable identifier distinguishing component types, used only to
/// route operations to the correct storage bucket; it carries no data of its
/// own.
///
/// Each component type of a world supplies a distinct, programmer-assigned
/// tag; the world never interprets the tag beyond comparing it for equality.
#[derive(Debug, Copy, Clone, Hash, PartialEq, Eq, Structural)]
pub struct ComponentId(pub(crate) u64);

impl View for ComponentId {
    type V = nat;

    closed spec fn view(&self) -> nat {
        self.0 as nat
    }
}

impl ComponentId {
    /// The tag as the machine word the key wraps.
    pub(crate) open spec fn raw_spec(&self) -> u64 {
        self.0
    }

    /// The type key for the component type that was assigned `tag`.
    pub fn of(tag: u64) -> (r: Self)
        ensures
            r@ == tag as nat,
    {
        ComponentId(tag)
    }
}

/// The abstract value of a component type key is exactly the tag it wraps.
pub(crate) broadcast proof fn lemma_component_id_view(c: ComponentId)
    ensures
        #[trigger] c@ == c.raw_spec() as nat,
{
}

} // verus!
