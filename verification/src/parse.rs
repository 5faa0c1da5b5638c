//! The boundary to the external XML parser: raw document text in, an
//! element tree of this library out.

use vstd::prelude::*;
use crate::element::Node;
use crate::error::Error;

verus! {

/// `treexml::Element`, the node type of the external parser's tree,
/// declared so that the conversion out of it can be written down.
#[verifier::external_type_specification]
#[verifier::external_body]
pub struct ExElement(treexml::Element);

/// Relies on the public fields of `treexml::Element`: the name, text,
/// CDATA and children of each node are carried over one for one.  The
/// prefix and the attributes, which the extraction operations never read,
/// are left behind.
#[verifier::external_body]
fn from_parsed(e: treexml::Element) -> Node {
    Node {
        name: e.name,
        text: e.text,
        cdata: e.cdata,
        children: e.children.into_iter().map(from_parsed).collect(),
    }
}

/// Relies on `treexml::Document::parse`: it reads an XML document from the
/// given text and yields its root element, if the document has one, or a
/// description of why the text is not well-formed XML, which is passed
/// through unchanged as a `ParseError`.  Nothing is claimed of the
/// resulting tree: every operation of this library states its behaviour
/// for an arbitrary element.
#[verifier::external_body]
pub fn parse_node(s: &str) -> (r: Result<Option<Node>, Error>) {
    match treexml::Document::parse(s.as_bytes()) {
        Ok(doc) => Ok(doc.root.map(from_parsed)),
        Err(e) => Err(Error::ParseError { message: e.to_string() }),
    }
}

} // verus!
