//! Bounce traversal: cursors that walk a finite sequence back and forth
//! forever, reflecting at both ends without repeating an endpoint.
pub mod cells;
pub mod cursor;
pub mod walk;

pub use cells::{collect_reads, rwlockify, unrwlockify, LockError};
pub use cursor::{BounceCursor, BounceIterLockedMut};
pub use walk::BounceState;
