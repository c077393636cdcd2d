//! Dense structure-of-arrays storage for subscriber state, shared by the
//! MME and the AMF: an entity id indexes one slot of every component.

pub mod components;
pub mod registry;
pub mod world;
