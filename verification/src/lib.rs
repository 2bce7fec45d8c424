//! Generation-based incremental file backup core: rotation policy,
//! generation naming and lookup, binary delta production and application,
//! chain resolution and replay.
pub mod codec;
pub mod errors;
pub mod external;
pub mod names;
pub mod policy;
pub mod resolver;
pub mod store;
pub mod text;
