//! Planning: which domains a run replays, the commands it issues and the records it keeps.
pub mod authority;
pub mod command;
pub mod control_plane;
pub mod input;
pub mod validation;
