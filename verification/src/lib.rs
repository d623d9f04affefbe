//! A bump allocator for early boot: one address range that hands out bytes
//! from its low end and pages from its high end, until a full allocator
//! takes over.

pub mod align;
pub mod early;
pub mod laws;
pub mod region;

pub use early::EarlyAllocator;
pub use region::AllocError;
