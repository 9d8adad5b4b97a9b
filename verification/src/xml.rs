//! A parsed XML document as a flat list of nodes in document order, and the
//! searches that the feed parsers run over it.

use crate::text::same_text;
use vstd::prelude::*;

verus! {

/// One attribute of an element: its local name and its value.
#[derive(Debug, Clone, PartialEq, Eq)]
pub struct XmlAttribute {
    pub name: String,
    pub value: String,
}

/// One node of a document. The nodes of a document stand in document order, so
/// that a node is followed at once by its descendants.
#[derive(Debug, Clone, PartialEq, Eq)]
pub struct XmlNode {
    /// The local tag name; empty for anything but an element.
    pub name: String,
    /// For an element the text of its first child, if that is text; for a text
    /// or comment node its own text.
    pub text: Option<String>,
    /// The attributes, in document order.
    pub attributes: Vec<XmlAttribute>,
    /// How many nodes the subtree rooted here holds, this node included.
    pub span: usize,
}

/// An attribute as plain values.
pub struct AttributeView {
    pub name: Seq<char>,
    pub value: Seq<char>,
}

/// A node as plain values.
pub struct NodeView {
    pub name: Seq<char>,
    pub text: Option<Seq<char>>,
    pub attributes: Seq<AttributeView>,
    pub span: nat,
}

impl View for XmlAttribute {
    type V = AttributeView;

    open spec fn view(&self) -> AttributeView {
        AttributeView { name: self.name@, value: self.value@ }
    }
}

impl View for XmlNode {
    type V = NodeView;

    open spec fn view(&self) -> NodeView {
        NodeView {
            name: self.name@,
            text: self.text.deep_view(),
            attributes: self.attributes@.map_values(|a: XmlAttribute| a@),
            span: self.span as nat,
        }
    }
}

/// A document as plain values.
pub open spec fn tree_view(nodes: Seq<XmlNode>) -> Seq<NodeView> {
    nodes.map_values(|n: XmlNode| n@)
}

/// The views of a sequence of names.
pub open spec fn name_views(names: Seq<&'static str>) -> Seq<Seq<char>> {
    names.map_values(|p: &'static str| p@)
}

#[verifier::external_type_specification]
#[verifier::external_body]
pub struct ExXmlError(roxmltree::Error);

/// The nodes of the document that `roxmltree::Document::parse` builds from a
/// text, root first and in document order, each with its local tag name, its
/// text, its attributes and the size of its subtree; `None` where the text is
/// rejected.
pub uninterp spec fn xml_tree(text: Seq<char>) -> Option<Seq<NodeView>>;

/// `roxmltree::Document::parse`, the document then copied out node by node
/// through `descendants`, `tag_name`, `text` and `attributes`.
#[verifier::external_body]
pub(crate) fn parse_tree(text: &str) -> (r: Result<Vec<XmlNode>, roxmltree::Error>)
    ensures
        match r {
            Ok(nodes) => xml_tree(text@) == Some(tree_view(nodes@)),
            Err(_) => xml_tree(text@) is None,
        },
{
    let doc = roxmltree::Document::parse(text)?;
    Ok(doc.descendants().map(|n| XmlNode {
        name: n.tag_name().name().to_string(),
        text: n.text().map(String::from),
        attributes: n.attributes().map(|a| XmlAttribute {
            name: a.name().to_string(),
            value: a.value().to_string(),
        }).collect(),
        span: n.descendants().len(),
    }).collect())
}

/// `Display` of `roxmltree::Error`: the parser's account of what is wrong.
#[verifier::external_body]
pub(crate) fn describe_error(error: &roxmltree::Error) -> (r: String) {
    error.to_string()
}

/// One past the last descendant of the node at `at`: the end of its subtree,
/// never beyond the document.
pub open spec fn subtree_limit(doc: Seq<NodeView>, at: int) -> int {
    if at + doc[at].span <= doc.len() {
        at + doc[at].span
    } else {
        doc.len() as int
    }
}

/// The first index in `from..to` whose node has one of `names`.
pub open spec fn first_named(
    doc: Seq<NodeView>,
    from: int,
    to: int,
    names: Seq<Seq<char>>,
) -> Option<int>
    decreases to - from,
{
    if from < 0 || from >= to || from >= doc.len() {
        None
    } else if names.contains(doc[from].name) {
        Some(from)
    } else {
        first_named(doc, from + 1, to, names)
    }
}

/// The text of the node that a search found.
pub open spec fn text_at(doc: Seq<NodeView>, found: Option<int>) -> Option<Seq<char>> {
    match found {
        Some(at) => doc[at].text,
        None => None,
    }
}

/// The value of the first of `attributes`, from index `from` on, that is
/// called `name`.
pub open spec fn attribute_from(
    attributes: Seq<AttributeView>,
    from: int,
    name: Seq<char>,
) -> Option<Seq<char>>
    decreases attributes.len() - from,
{
    if from < 0 || from >= attributes.len() {
        None
    } else if attributes[from].name == name {
        Some(attributes[from].value)
    } else {
        attribute_from(attributes, from + 1, name)
    }
}

/// The value of the node's first attribute called `name`.
pub open spec fn attribute_value(node: NodeView, name: Seq<char>) -> Option<Seq<char>> {
    attribute_from(node.attributes, 0, name)
}

/// The end of the subtree of the node at `at`.
pub fn subtree_end(nodes: &Vec<XmlNode>, at: usize) -> (end: usize)
    requires
        at < nodes.len(),
    ensures
        end == subtree_limit(tree_view(nodes@), at as int),
        at <= end <= nodes.len(),
{
    let span = nodes[at].span;
    if span <= nodes.len() - at {
        at + span
    } else {
        nodes.len()
    }
}

/// Whether the node has one of `names`.
pub fn has_name(node: &XmlNode, names: &Vec<&'static str>) -> (r: bool)
    ensures
        r == name_views(names@).contains(node@.name),
{
    let mut i: usize = 0;
    while i < names.len()
        invariant
            0 <= i <= names.len(),
            forall|k: int| 0 <= k < i ==> name_views(names@)[k] != node@.name,
        decreases names.len() - i,
    {
        if same_text(node.name.as_str(), names[i]) {
            assert(name_views(names@)[i as int] == node@.name);
            return true;
        }
        i += 1;
    }
    false
}

/// The first node in `from..to`, in document order, that has one of `names`.
pub fn find_named(nodes: &Vec<XmlNode>, from: usize, to: usize, names: &Vec<&'static str>) -> (r:
    Option<usize>)
    ensures
        r matches Some(at) ==> from <= at < to && at < nodes.len(),
        match r {
            Some(at) => first_named(tree_view(nodes@), from as int, to as int, name_views(names@))
                == Some(at as int),
            None => first_named(tree_view(nodes@), from as int, to as int, name_views(names@))
                is None,
        },
{
    let ghost doc = tree_view(nodes@);
    let ghost wanted = name_views(names@);
    let mut at: usize = from;
    while at < to && at < nodes.len()
        invariant
            from <= at,
            doc == tree_view(nodes@),
            wanted == name_views(names@),
            first_named(doc, from as int, to as int, wanted) == first_named(
                doc,
                at as int,
                to as int,
                wanted,
            ),
        decreases nodes.len() - at,
    {
        if has_name(&nodes[at], names) {
            return Some(at);
        }
        at += 1;
    }
    None
}

/// The text of the first node in `from..to` that has one of `names`; `None`
/// where there is no such node or that node has no text.
pub fn text_of_first<'a>(
    nodes: &'a Vec<XmlNode>,
    from: usize,
    to: usize,
    names: &Vec<&'static str>,
) -> (r: Option<&'a String>)
    ensures
        r.deep_view() == text_at(
            tree_view(nodes@),
            first_named(tree_view(nodes@), from as int, to as int, name_views(names@)),
        ),
{
    match find_named(nodes, from, to, names) {
        Some(at) => nodes[at].text.as_ref(),
        None => None,
    }
}

/// The value of the node's first attribute called `name`.
pub fn attribute<'a>(node: &'a XmlNode, name: &str) -> (r: Option<&'a String>)
    ensures
        r.deep_view() == attribute_value(node@, name@),
{
    let mut i: usize = 0;
    while i < node.attributes.len()
        invariant
            0 <= i <= node.attributes.len(),
            attribute_value(node@, name@) == attribute_from(node@.attributes, i as int, name@),
        decreases node.attributes.len() - i,
    {
        if same_text(node.attributes[i].name.as_str(), name) {
            return Some(&node.attributes[i].value);
        }
        i += 1;
    }
    None
}

} // verus!
