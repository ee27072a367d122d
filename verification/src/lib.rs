//! A registry of intellectual-property listings: each listing has an owner,
//! an IPFS content hash and a Merkle root, and every owner has an index of
//! the listings it holds. The registry hands out sequential listing ids,
//! lets the owner replace the content of a listing and transfer it, and
//! records the events that each change emits.

pub mod error;
pub mod listing;
pub mod events;
pub mod index;
pub mod model;
pub mod ops;
pub mod registry;
pub mod laws;

