//! The error taxonomy of the world's operations.
//!
//! Every condition here is a user-recoverable, data-dependent failure; none
//! is process-fatal under correct usage.

use vstd::prelude::*;
use vstd::string::*;
use crate::id_types::ComponentId;
use crate::id_types::EntityId;

verus! {

broadcast use crate::id_types::lemma_entity_id_view, crate::id_types::lemma_component_id_view;

/// The character for one decimal digit.
pub open spec fn spec_digit(d: nat) -> char {
    if d == 0 {
        '0'
    } else if d == 1 {
        '1'
    } else if d == 2 {
        '2'
    } else if d == 3 {
        '3'
    } else if d == 4 {
        '4'
    } else if d == 5 {
        '5'
    } else if d == 6 {
        '6'
    } else if d == 7 {
        '7'
    } else if d == 8 {
        '8'
    } else {
        '9'
    }
}

/// The decimal rendering of `n`: its digits, most significant first, with
/// no leading zeros and no sign.
pub open spec fn spec_decimal(n: nat) -> Seq<char>
    decreases n,
{
    if n < 10 {
        seq![spec_digit(n)]
    } else {
        spec_decimal(n / 10).push(spec_digit(n % 10))
    }
}

/// Why a world operation was refused.
#[derive(Debug, PartialEq, Eq, Structural)]
pub enum Error {
    /// The operation targeted an entity id that is not currently valid.
    InvalidEntityId(EntityId),
    /// The operation targeted a component type with no bucket yet created in
    /// this world.
    InvalidWorldComponent(ComponentId),
    /// The operation targeted a component type whose bucket exists, but the
    /// given entity has no entry in it.
    InvalidEntityComponent(ComponentId, EntityId),
    /// An insertion targeted an (entity, component type) pair that already
    /// has an entry.
    ComponentAlreadyAdded(ComponentId, EntityId),
}

/// Relies on the `format` macro of std: an unsigned integer displays as its
/// decimal digits, most significant first, with no leading zeros and no
/// sign.
#[verifier::external_body]
fn render_decimal(n: u64) -> (r: String)
    ensures
        r@ == spec_decimal(n as nat),
{
    format!("{}", n)
}

impl Error {
    /// The human-readable description of the error.
    pub open spec fn message_view(self) -> Seq<char> {
        match self {
            Error::InvalidEntityId(id) => "Entity "@ + spec_decimal(id@) + " is invalid"@,
            Error::InvalidWorldComponent(c) => "Component "@ + spec_decimal(c@)
                + " was never registered to any entity in the world"@,
            Error::InvalidEntityComponent(c, id) => "Component "@ + spec_decimal(c@)
                + " was never registered to the entity "@ + spec_decimal(id@),
            Error::ComponentAlreadyAdded(c, id) => "Component "@ + spec_decimal(c@)
                + " was already added to entity "@ + spec_decimal(id@),
        }
    }

    /// Render the human-readable description of the error.
    pub fn message(&self) -> (r: String)
        ensures
            r@ == self.message_view(),
    {
        match self {
            Error::InvalidEntityId(id) => String::from_str("Entity ").concat(
                render_decimal(id.0 as u64).as_str(),
            ).concat(" is invalid"),
            Error::InvalidWorldComponent(c) => String::from_str("Component ").concat(
                render_decimal(c.0).as_str(),
            ).concat(" was never registered to any entity in the world"),
            Error::InvalidEntityComponent(c, id) => String::from_str("Component ").concat(
                render_decimal(c.0).as_str(),
            ).concat(" was never registered to the entity ").concat(
                render_decimal(id.0 as u64).as_str(),
            ),
            Error::ComponentAlreadyAdded(c, id) => String::from_str("Component ").concat(
                render_decimal(c.0).as_str(),
            ).concat(" was already added to entity ").concat(
                render_decimal(id.0 as u64).as_str(),
            ),
        }
    }
}

} // verus!
