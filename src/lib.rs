//! Mirror of an exchange's limit order book: price levels per side, snapshot
//! and delta merging guarded by a sequence number, a registry of books per
//! market, and the canonical JSON text of a book.

pub mod book;
pub mod decimal;
pub mod folder;
pub mod levels;
pub mod messages;
