//! Addresses, interfaces and packet filter rules of a VM.
pub mod backend;
pub mod egress;
pub mod ip;
pub mod ip_laws;
pub mod laws;
pub mod masquerade;
pub mod packets;
pub mod subnet;
pub mod tap;
