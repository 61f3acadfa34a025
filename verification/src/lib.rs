//! Typed records from the XML documents of a board-game catalogue.
//!
//! The catalogue answers in XML. This crate turns such a document into a
//! record ([`BoardGame`], [`Thing`]) or a [`Collection`], and decides what a
//! reply of the service means for the request that brought it: a result, a
//! failure, or a reason to ask again.

pub mod client;
pub mod collection;
pub mod decimal;
pub mod parsers;
pub mod protocol;
pub mod record;
pub mod result;
pub mod scraping;
pub mod thing;
pub mod xml;

pub use collection::{Collection, CollectionType};
pub use parsers::boardgame::BoardGame;
pub use result::Error;
pub use thing::{Link, Thing};
