//! Syscall-interception filesystem core.
//!
//! A tracer supervises a child process at each syscall boundary and redirects
//! the five filesystem calls in scope (open, read, write, seek, close) to a
//! substitute backing store: an in-process virtual file table, or a remote
//! store reached over a framed binary protocol with local caching.  This
//! crate holds the verified core: the word-granularity memory packing rules,
//! the virtual file table, the wire framing, the request/response
//! bookkeeping, and the interception state machine's decisions.  Process
//! tracing, sockets and the on-disk cache live with the embedding program.

use vstd::prelude::*;

pub mod bridge;
pub mod errors;
pub mod machine;
pub mod memory;
pub mod protocol;
pub mod vfs;

verus! {

/// Largest byte count the memory layer moves in one transfer.
pub const MAX_BUFFER_SIZE: usize = 1024 * 1024;

} // verus!
