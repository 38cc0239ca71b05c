//! A minimal IMAP mail-retrieval library.
//!
//! The library holds the verified logic of the retrieval workflow: account
//! configuration data, selection of the most recent message identifiers,
//! normalization of parsed messages into summaries, and display rendering
//! with a bounded preview. Network transport and the IMAP session itself
//! are driven by the surrounding application.

pub mod config;
pub mod mail_receiver;
pub mod message;

pub use crate::config::Config;
pub use crate::mail_receiver::MailReceiver;
pub use crate::message::ParsedEmail;
