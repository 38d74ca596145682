//! Chunked uploads: naming of stored chunk parts, ordering them for a merge,
//! the merge state machine, and the checks made when a chunk part arrives.
pub mod guard;
pub mod laws;
pub mod merge;
pub mod naming;
pub mod order;
pub mod receive;

pub use guard::{bad_req, not_auth, not_found, too_big, Authorized, FormSizeLimit};
pub use order::order_chunks;
