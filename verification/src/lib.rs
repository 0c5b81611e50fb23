//! A generational handle allocator paired with a generation-checked sparse
//! container.
//!
//! [`Allocator`] issues and recycles integer slot numbers, each tagged with a
//! monotonically increasing generation counter, producing opaque [`Index`]
//! handles. [`Arena`] is a growable, sparse mapping from [`Index`] to a value,
//! where a lookup succeeds only if the stored generation at that slot matches
//! the handle's generation, so a stale handle yields absence rather than
//! unrelated data.

pub mod handle;
pub mod allocator;
pub mod arena;
pub mod allocator_laws;
pub mod arena_laws;

pub use handle::Index;
pub use handle::IndexModel;
pub use allocator::Allocator;
pub use allocator::AllocatorModel;
pub use arena::Arena;
pub use arena::ArenaModel;
