use vstd::prelude::*;

use crate::nesting::{MAX_XML_DEPTH, deepest_nesting};

verus! {

/// An XML node as the feed logic reads it: its local tag name (empty for
/// text, comment and other non-element nodes), its text, and its children.
pub struct XmlNode {
    pub name: String,
    pub text: Option<String>,
    pub children: Vec<XmlNode>,
}

/// The mathematical value of an `XmlNode`.
pub struct XmlTree {
    pub name: Seq<char>,
    pub text: Option<Seq<char>>,
    pub children: Seq<XmlTree>,
}

pub open spec fn opt_str_view(o: Option<String>) -> Option<Seq<char>> {
    match o {
        Some(s) => Some(s@),
        None => None,
    }
}

impl XmlNode {
    pub open spec fn tree(&self) -> XmlTree
        decreases self,
    {
        XmlTree {
            name: self.name@,
            text: opt_str_view(self.text),
            children: Seq::new(
                self.children@.len(),
                |i: int|
                    if 0 <= i < self.children@.len() {
                        self.children@[i].tree()
                    } else {
                        arbitrary()
                    },
            ),
        }
    }
}

impl View for XmlNode {
    type V = XmlTree;

    open spec fn view(&self) -> XmlTree {
        self.tree()
    }
}

#[verifier::external_type_specification]
#[verifier::external_body]
pub struct ExXmlNodeRef<'a, 'input: 'a>(roxmltree::Node<'a, 'input>);

#[verifier::external_type_specification]
#[verifier::external_body]
pub struct ExXmlError(roxmltree::Error);

/// What roxmltree makes of a text: `None` where it refuses the text as XML,
/// otherwise the tree under the root element, down to three levels below the
/// root (the feed logic reads no deeper: root, channel, item, and the item's
/// fields with their text). Nodes at the third level below the root keep
/// their name and text and are given no children, so that no document,
/// however deeply nested, makes the copy recurse without bound. The result
/// depends on the text alone.
pub uninterp spec fn xml_tree_of(text: Seq<char>) -> Option<XmlTree>;

/// Relies on roxmltree's `Node::tag_name().name()` and `Node::text`, to copy
/// a node without its children.
#[verifier::external_body]
fn copy_leaf(node: roxmltree::Node) -> XmlNode {
    XmlNode {
        name: node.tag_name().name().to_string(),
        text: node.text().map(|t| t.to_string()),
        children: Vec::new(),
    }
}

/// Relies on roxmltree's `Node::tag_name().name()`, `Node::text` and
/// `Node::children`, to copy a node and its children, without theirs.
#[verifier::external_body]
fn copy_one_level(node: roxmltree::Node) -> XmlNode {
    XmlNode {
        name: node.tag_name().name().to_string(),
        text: node.text().map(|t| t.to_string()),
        children: node.children().map(copy_leaf).collect(),
    }
}

/// Relies on roxmltree's `Node::tag_name().name()`, `Node::text` and
/// `Node::children`, to copy a node with two levels below it.
#[verifier::external_body]
fn copy_two_levels(node: roxmltree::Node) -> XmlNode {
    XmlNode {
        name: node.tag_name().name().to_string(),
        text: node.text().map(|t| t.to_string()),
        children: node.children().map(copy_one_level).collect(),
    }
}

/// Relies on roxmltree's `Node::tag_name().name()`, `Node::text` and
/// `Node::children`, to copy a node with three levels below it.
#[verifier::external_body]
fn copy_three_levels(node: roxmltree::Node) -> XmlNode {
    XmlNode {
        name: node.tag_name().name().to_string(),
        text: node.text().map(|t| t.to_string()),
        children: node.children().map(copy_two_levels).collect(),
    }
}

/// Relies on roxmltree's `Document::parse` and `Document::root_element`:
/// the tree of the root element, three levels deep, where the text is
/// well-formed XML. roxmltree's tokenizer calls itself once per element
/// level (`parse_element`, `parse_content`) and refuses any DTD before the
/// root element, so a text whose markup never opens more than
/// `MAX_XML_DEPTH` elements at once is parsed within a bounded stack.
#[verifier::external_body]
pub(crate) fn parse_xml(text: &str) -> (r: Result<XmlNode, roxmltree::Error>)
    requires
        deepest_nesting(text@) <= MAX_XML_DEPTH,
    ensures
        xml_tree_of(text@) == match r {
            Ok(n) => Some(n@),
            Err(_) => None::<XmlTree>,
        },
{
    roxmltree::Document::parse(text).map(|doc| copy_three_levels(doc.root_element()))
}

} // verus!
