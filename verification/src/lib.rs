//! A memory-pooling toolkit: a chunked list used as a growable, optionally
//! capacity-bounded stack, together with a free-block pool that recycles
//! released chunks so that the list can grow and shrink without touching the
//! general allocator in steady state.
//!
//! Chain nodes are kept in an arena owned by each structure, and the
//! `prev`/`next` links of a node hold arena positions instead of machine
//! addresses; the invariants tie the links, the arena and the logical
//! contents together.

mod link;
mod chonk;
mod list;
mod pointer_chonks;
mod local_pointer_chonks;
mod recycling;

pub use link::Link;
pub use chonk::Chonk;
pub use list::{List, ListChonk, Links, SegmentSource, DefaultSegmentSource};
pub use pointer_chonks::{PointerChonks, SpareBlock, PointerChonk, CHONK_SIZE};
pub use local_pointer_chonks::LocalPointerChonks;
pub use recycling::RecyclingList;
