//! Images that VMs are made from.
pub mod inspect;
pub mod laws;
pub mod reference;
pub mod registry;
