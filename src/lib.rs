//! Fair rotation of words: each request serves a batch of the least served
//! rows that no other request holds, and counts each served row exactly once.

pub mod words;
pub mod subscriptions;
pub mod picker;
pub mod store;
pub mod session;
pub mod laws;
