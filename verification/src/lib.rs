//! Subscription book-keeping and status debouncing for monitored node endpoints.
//!
//! The crate holds the logic of a node monitor: which chats follow which
//! status endpoint, how a run of probe outcomes turns into a confirmed
//! online/offline state, and what has to be said to whom when that state
//! changes. Transport, polling and message delivery are left to the caller,
//! who feeds [`book_keeping::Message`] values in and carries
//! [`book_keeping::Reply`] values out.

pub mod book_keeping;
pub mod bot;
pub mod notice;
pub mod poll;
pub mod status;
