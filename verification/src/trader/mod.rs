//! A designated trader: the admin swaps the pair's tokens held by the
//! contract and sends out the proceeds.
pub mod contract;
pub mod error;
pub mod storage;
