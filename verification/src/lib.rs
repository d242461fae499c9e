//! Verified logic of the karma, prayer, meditation, reward, exchange,
//! paymaster, commemoration and share-mining pallets, and of the runtime that
//! composes them.
pub mod commemorate;
pub mod exchange;
pub mod karma;
pub mod meditation;
pub mod paymaster;
pub mod prayer;
pub mod primitives;
pub mod reward;
pub mod runtime;
pub mod share_mining;
pub mod storage;
