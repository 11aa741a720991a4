//! An in-memory entity/component storage engine: the data layer beneath an
//! entity-component-system framework.
//!
//! A [`World`] associates typed data ("components") with opaque entity
//! handles. Component types are distinguished by a programmer-assigned
//! [`ComponentId`] tag; the payloads of all component types of one world are
//! carried by a single caller-chosen tagged-union type, so buckets of
//! different component types can coexist in one registry. Each bucket keeps
//! its components in a dense array with an entity-to-index map and deletes by
//! swap-remove, giving amortized O(1) insertion, lookup, and removal.

pub mod component_storage;
pub mod error;
pub mod id_types;
pub mod world;

pub use component_storage::ComponentStorageType;
pub use error::Error;
pub use id_types::ComponentId;
pub use id_types::EntityId;
pub use world::World;
pub use world::WorldView;
