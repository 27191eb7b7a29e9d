//! Bump-pointer arena allocators for short-lived, batch-oriented workloads.
//!
//! Two variants share one surface: [`FixedArena`] serves allocations out of a
//! single block of a caller-chosen capacity and never grows, while
//! [`DynamicArena`] works over a large reserved span whose committed prefix
//! grows on demand and can be shrunk back on reset. Both hand out byte regions
//! identified by their offset from the base of the arena, advance a single
//! cursor per allocation, and reclaim everything at once with `reset`.

pub mod errors;
pub mod layout;
pub mod platform;
pub mod fixed_arena;
pub mod dynamic_arena;
pub mod lemmas;

pub use errors::AllocError;
pub use fixed_arena::FixedArena;
pub use dynamic_arena::DynamicArena;
pub use dynamic_arena::DEFAULT_PAGE_SIZE;
pub use platform::Platform;
pub use platform::PlatformFunctions;
