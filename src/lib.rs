//! A concurrent pool of interned byte strings whose handles compare and hash
//! by the address of their shared buffer.
pub mod borrow;
pub mod buffer;
pub mod interned;
pub mod pool;
pub mod shard;

pub use borrow::BorrowedInterned;
pub use interned::Interned;
pub use pool::Pool;
