//! Rewrites marketplace links that are shared in chat into links with an affiliate tag.
//!
//! The crate finds the links in a message, parses them, picks the tag and the footer
//! that apply to the guild, and says what is to be presented. It does no input or
//! output itself: what comes from the network, from the settings store and from the
//! messaging side is handed in as plain values.
//!
//! A type that holds texts is written once, over the type of a text: with `String` it
//! is the value that runs, with `Seq<char>` it is that value's view, over which the
//! contracts are stated.

pub mod classifier;
pub mod config;
pub mod extractor;
pub mod grammar;
pub mod messages;
pub mod parser;
pub mod pipeline;
pub mod regions;
pub mod replies;
pub mod routing;
pub mod settings;
pub mod stats;
pub mod tags;
pub mod text;
