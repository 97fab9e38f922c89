//! Verified core of a pair of e-mail workers: one sends templated mail for
//! a set of tenants, called hubs, the other watches each hub's inbox and
//! tells replies, unsubscribe requests and bounces apart.
//!
//! The library holds the decisions and the text processing; sockets,
//! sessions and the database stay with the caller. Each function states
//! what it computes, and Verus proves that it does.
//!
//! * [`parser`], [`reply`] and [`bounce`] read an incoming message.
//! * [`classifier`] says what is done with it.
//! * [`monitor`] and [`supervisor`] order the work on an inbox.
//! * [`template`], [`message_builder`] and [`sender`] prepare outgoing mail.
//! * [`domain`] and [`repository`] hold hubs, e-mails and recipients.
//! * [`laws`] and [`reply_laws`] state what holds across these functions.

pub mod bounce;
pub mod classifier;
pub mod decimal;
pub mod domain;
pub mod errors;
pub mod laws;
pub mod message_builder;
pub mod monitor;
mod paragraph_laws;
pub mod parser;
pub mod reply;
pub mod reply_laws;
pub mod repository;
pub mod sender;
pub mod supervisor;
pub mod template;
pub mod text;
