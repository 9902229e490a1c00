//! A tamper-evident, hash-linked chain of data blocks.
//!
//! A chain owns an ordered sequence of blocks; each block stores the digest
//! of its own canonical byte rendering and the digest of its predecessor.
//! Validation recomputes digests and checks the links. A proof-of-work
//! variant additionally mines each block's nonce until its digest meets a
//! difficulty target. Tamper and repair operations deliberately break and
//! then restore the linkage invariant.

pub mod block;
pub mod chain;
pub mod clock;
pub mod digest;
pub mod pow;
