//! What an installation records about its VMs.
pub mod db;
pub mod vm;
pub mod vsock;
