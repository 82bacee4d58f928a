//! XML documents as a flat list of nodes, as the parser hands them over.

use vstd::prelude::*;

verus! {

/// An attribute of an element.
pub struct XmlAttribute {
    /// The namespace URI, for a prefixed attribute.
    pub namespace: Option<String>,
    /// The local name.
    pub name: String,
    pub value: String,
}

/// One node of a document. Nodes are listed root first, then in document
/// order; a node's position in that list is its id.
pub struct XmlNode {
    /// The local tag name of an element; empty for other nodes.
    pub name: String,
    pub attributes: Vec<XmlAttribute>,
    /// The text of the node: for an element, that of its first child when
    /// that child is text.
    pub text: Option<String>,
    /// The ids of the node's children, in order.
    pub children: Vec<usize>,
}

/// The mathematical value of an attribute.
pub struct AttributeView {
    pub namespace: Option<Seq<char>>,
    pub name: Seq<char>,
    pub value: Seq<char>,
}

/// The mathematical value of a node.
pub struct NodeView {
    pub name: Seq<char>,
    pub attributes: Seq<AttributeView>,
    pub text: Option<Seq<char>>,
    pub children: Seq<usize>,
}

impl View for XmlAttribute {
    type V = AttributeView;

    open spec fn view(&self) -> AttributeView {
        AttributeView {
            namespace: match self.namespace {
                Some(n) => Some(n@),
                None => None,
            },
            name: self.name@,
            value: self.value@,
        }
    }
}

impl View for XmlNode {
    type V = NodeView;

    open spec fn view(&self) -> NodeView {
        NodeView {
            name: self.name@,
            attributes: self.attributes@.map_values(|a: XmlAttribute| a@),
            text: match self.text {
                Some(t) => Some(t@),
                None => None,
            },
            children: self.children@,
        }
    }
}

/// The views of a list of nodes.
pub open spec fn node_views(v: Seq<XmlNode>) -> Seq<NodeView> {
    v.map_values(|n: XmlNode| n@)
}

/// The nodes of the document that `text` holds, or `None` when `text` is
/// not a well-formed XML document.
pub uninterp spec fn parsed_xml(text: Seq<char>) -> Option<Seq<NodeView>>;

/// Relies on roxmltree's `Document::parse`, which fails on text that is not
/// well-formed XML, and on its node accessors: the nodes of `descendants()`
/// (the root, then document order, which is the order of `NodeId`s), each
/// with its local tag name (empty for non-elements), attributes, `text()`
/// and the ids of its children.
#[verifier::external_body]
pub(crate) fn parse_xml(text: &str) -> (r: Option<Vec<XmlNode>>)
    ensures
        r is None ==> parsed_xml(text@) is None,
        r matches Some(v) ==> parsed_xml(text@) == Some(node_views(v@)),
{
    let doc = roxmltree::Document::parse(text).ok()?;
    Some(doc.descendants().map(|n| XmlNode {
        name: n.tag_name().name().to_string(),
        attributes: n.attributes().map(|a| XmlAttribute {
            namespace: a.namespace().map(String::from),
            name: a.name().to_string(),
            value: a.value().to_string(),
        }).collect(),
        text: n.text().map(String::from),
        children: n.children().map(|c| c.id().get_usize()).collect(),
    }).collect())
}

} // verus!
