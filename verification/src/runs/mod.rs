//! What holds of every run of a piece of work, whatever its phases reply.
pub mod emberd;
pub mod linux;
pub mod macos;
pub mod thin;
pub mod volumes;
pub mod zfs;
