//! In-memory task-list service core: a store of task records with
//! create/list/update/delete operations and unique identifiers, and the
//! per-connection clock streamer that emits one `HH:MM:SS` frame per tick.

pub mod clock;
pub mod store;
