//! Indexing core of a block explorer: a reorg-aware header chain index, and
//! address resolution with gap-limit scanning of extended public keys.

pub mod address;
pub mod chain;
pub mod hash;
pub mod meta;
pub mod multi;
