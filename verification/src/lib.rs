//! Typed-value extraction over a parsed XML element tree.
//!
//! The library models an XML element as [`Node`]: a name, optional text,
//! optional CDATA and ordered children.  On top of that it provides the
//! extraction operations: locate a node by a slash-separated path, and coerce
//! its text content into a typed value, distinguishing "node absent" from
//! "node present but unparsable" from "node present with a value".

pub mod coerce;
pub mod element;
pub mod error;
pub mod lookup;
pub mod num;
pub mod parse;
pub mod text;

pub use coerce::Unmarshaller;
pub use element::{make_cdata_element, make_text_element, make_tree_element, Node};
pub use error::Error;
pub use lookup::ElementExt;
pub use num::render_i64;
pub use parse::parse_node;
pub use text::trimmed_optional;
