//! Inference of ERC-20 balance changes from execution traces: owner recovery
//! from keccak preimages, balance-delta validation and the two correlation
//! algorithms that pair storage writes with `Transfer` events.
pub mod amount;
pub mod hexcodec;
pub mod trace;
pub mod resolver;
pub mod correlate;
pub mod events;
pub mod records;
