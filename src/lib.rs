//! Normalizes two chat archive dialects (an HTML session export and an XML
//! export) into a common record type.
//!
//! Both dialects are driven by structural markup events: the caller hands each
//! event to a parser, which updates its path context and session state and
//! hands back a finished record whenever a record boundary closes.
mod text;
mod chrono_glue;
mod location;
pub mod types;
pub mod path;
pub mod xml_parser;
pub mod messenger_plus_parser;

pub use types::{ArchiveDetails, Attribute, Data, Event, FileType, Image, Message, ParseError, Text};
pub use path::PathContext;


pub use text::str_eq;
pub use messenger_plus_parser::{MessengerPlusParser, Step};
pub use xml_parser::XmlParser;
