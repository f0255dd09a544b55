//! A bounded store of recent chat messages and the feed document made from it.

pub mod atom;
pub mod config;
pub mod feed;
pub mod ingest;
pub mod message;
pub mod store;
pub mod text2html;
