//! Protocol logic of a WhatsApp multi-device client: inbound stanza parsing,
//! acknowledgements and receipts, JID handling, media descriptors and their
//! storage format, link preview extraction and retry bookkeeping.

pub mod error;
pub mod history;
pub mod inbound;
pub mod jid;
pub mod json;
pub mod key;
pub mod media;
pub mod message;
pub mod mex;
pub mod node;
pub mod recency;
pub mod text;
