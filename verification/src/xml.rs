//! The element tree that a service description is read from.

use crate::ordered::lookup;
use crate::text::str_eq;
use vstd::prelude::*;

verus! {

/// One element of a document: its local name, its attributes by local name
/// in document order, the namespace prefixes in scope with their URIs, and
/// its child nodes in document order.
#[derive(Debug)]
pub struct XmlElement {
    pub name: String,
    pub attributes: Vec<(String, String)>,
    pub namespaces: Vec<(String, String)>,
    pub children: Vec<XmlNode>,
}

/// A child of an element.
#[derive(Debug)]
pub enum XmlNode {
    Element(XmlElement),
    Text(String),
    /// A comment or a processing instruction.
    Other,
}

/// The pairs of `v` as pairs of character sequences.
pub open spec fn pairs(v: Seq<(String, String)>) -> Seq<(Seq<char>, Seq<char>)> {
    v.map_values(|p: (String, String)| (p.0@, p.1@))
}

/// The first element among `nodes[i..]` that is named `name`.
pub open spec fn child_from(nodes: Seq<XmlNode>, name: Seq<char>, i: int) -> Option<XmlElement>
    decreases nodes.len() - i,
{
    if i < 0 || i >= nodes.len() {
        None
    } else {
        match nodes[i] {
            XmlNode::Element(e) if e.name@ == name => Some(e),
            _ => child_from(nodes, name, i + 1),
        }
    }
}

/// The first element among `nodes[i..]`.
pub open spec fn first_element_from(nodes: Seq<XmlNode>, i: int) -> Option<XmlElement>
    decreases nodes.len() - i,
{
    if i < 0 || i >= nodes.len() {
        None
    } else {
        match nodes[i] {
            XmlNode::Element(e) => Some(e),
            _ => first_element_from(nodes, i + 1),
        }
    }
}

fn pair_value<'a>(v: &'a Vec<(String, String)>, key: &str) -> (r: Option<&'a String>)
    ensures
        match r {
            Some(s) => lookup(pairs(v@), key@) == Some(s@),
            None => lookup(pairs(v@), key@) is None,
        },
{
    let mut i: usize = 0;
    while i < v.len()
        invariant
            i <= v.len(),
            lookup(pairs(v@), key@) == crate::ordered::lookup_from(pairs(v@), key@, i as int),
        decreases v.len() - i,
    {
        if str_eq(v[i].0.as_str(), key) {
            return Some(&v[i].1);
        }
        i += 1;
    }
    None
}

impl XmlNode {
    /// The element that this node is, if it is one.
    pub fn as_element(&self) -> (r: Option<&XmlElement>)
        ensures
            match r {
                Some(e) => *self == XmlNode::Element(*e),
                None => !(self is Element),
            },
    {
        match self {
            XmlNode::Element(e) => Some(e),
            _ => None,
        }
    }
}

impl XmlElement {
    /// The value of the attribute named `key`.
    pub open spec fn attr(&self, key: Seq<char>) -> Option<Seq<char>> {
        lookup(pairs(self.attributes@), key)
    }

    /// The URI that the namespace prefix `prefix` stands for.
    pub open spec fn uri(&self, prefix: Seq<char>) -> Option<Seq<char>> {
        lookup(pairs(self.namespaces@), prefix)
    }

    /// The first child element named `name`.
    pub open spec fn child(&self, name: Seq<char>) -> Option<XmlElement> {
        child_from(self.children@, name, 0)
    }

    /// An element named `name` without attributes, namespaces or children.
    pub fn new(name: &str) -> (e: XmlElement)
        ensures
            e.name@ == name@,
            e.attributes@.len() == 0,
            e.namespaces@.len() == 0,
            e.children@.len() == 0,
    {
        XmlElement {
            name: name.to_owned(),
            attributes: Vec::new(),
            namespaces: Vec::new(),
            children: Vec::new(),
        }
    }

    /// The value of the attribute named `key`, if the element has one.
    pub fn attribute(&self, key: &str) -> (r: Option<&String>)
        ensures
            match r {
                Some(s) => self.attr(key@) == Some(s@),
                None => self.attr(key@) is None,
            },
    {
        pair_value(&self.attributes, key)
    }

    /// The URI of the namespace prefix `prefix`, if it is in scope.
    pub fn namespace_uri(&self, prefix: &str) -> (r: Option<&String>)
        ensures
            match r {
                Some(s) => self.uri(prefix@) == Some(s@),
                None => self.uri(prefix@) is None,
            },
    {
        pair_value(&self.namespaces, prefix)
    }

    /// The first child that is an element, if there is one.
    pub fn first_element(&self) -> (r: Option<&XmlElement>)
        ensures
            match r {
                Some(e) => first_element_from(self.children@, 0) == Some(*e),
                None => first_element_from(self.children@, 0) is None,
            },
    {
        let mut i: usize = 0;
        while i < self.children.len()
            invariant
                i <= self.children.len(),
                first_element_from(self.children@, 0) == first_element_from(
                    self.children@,
                    i as int,
                ),
            decreases self.children.len() - i,
        {
            match &self.children[i] {
                XmlNode::Element(e) => {
                    return Some(e);
                },
                _ => {},
            }
            i += 1;
        }
        None
    }

    /// The first child element named `name`, if there is one.
    pub fn get_child(&self, name: &str) -> (r: Option<&XmlElement>)
        ensures
            match r {
                Some(e) => self.child(name@) == Some(*e),
                None => self.child(name@) is None,
            },
    {
        let mut i: usize = 0;
        while i < self.children.len()
            invariant
                i <= self.children.len(),
                self.child(name@) == child_from(self.children@, name@, i as int),
            decreases self.children.len() - i,
        {
            match &self.children[i] {
                XmlNode::Element(e) => {
                    if str_eq(e.name.as_str(), name) {
                        return Some(e);
                    }
                },
                _ => {},
            }
            i += 1;
        }
        None
    }
}

#[verifier::external_type_specification]
#[verifier::external_body]
pub struct ExTree(xmltree::Element);

#[verifier::external_type_specification]
#[verifier::external_body]
pub struct ExParseError(xmltree::ParseError);

/// The root element of the document that `bytes` holds, where they hold a
/// well-formed one: what `xmltree::Element::parse` reads from them.
pub uninterp spec fn document_tree(bytes: Seq<u8>) -> Option<XmlElement>;

/// Copies an element that `xmltree::Element::parse` built into the
/// library's model, field by field: the local name, the attributes in
/// document order, the prefixes in scope in the order of the prefixes, and
/// the children in document order. Character data stays text; comments and
/// processing instructions become `XmlNode::Other`.
#[verifier::external_body]
fn element_of(e: &xmltree::Element) -> XmlElement {
    let pair = |(k, v): (&String, &String)| (k.clone(), v.clone());
    XmlElement {
        name: e.name.clone(),
        attributes: e.attributes.iter().map(pair).collect(),
        namespaces: e.namespaces.iter().flat_map(|ns| ns.0.iter()).map(pair).collect(),
        children: e.children.iter().map(|n| match n {
            xmltree::XMLNode::Element(c) => XmlNode::Element(element_of(c)),
            xmltree::XMLNode::Text(t) | xmltree::XMLNode::CData(t) => XmlNode::Text(t.clone()),
            _ => XmlNode::Other,
        }).collect(),
    }
}

/// `xmltree::Element::parse`: reads the bytes as one XML document and hands
/// back its root element, copied into the library's model, or the error
/// that the reader met. The outcome depends on the bytes alone.
#[verifier::external_body]
pub(crate) fn read_document(bytes: &[u8]) -> (r: Result<XmlElement, xmltree::ParseError>)
    ensures
        match r {
            Ok(e) => document_tree(bytes@) == Some(e),
            Err(_) => document_tree(bytes@) is None,
        },
{
    match xmltree::Element::parse(bytes) {
        Ok(e) => Ok(element_of(&e)),
        Err(e) => Err(e),
    }
}

/// The text of the document whose root element is `e`, where it can be
/// written: what `xmltree::Element::write` writes for it.
pub uninterp spec fn document_text(e: XmlElement) -> Option<Seq<char>>;

/// Copies an element of the library's model into one of `xmltree`, field by
/// field, for `xmltree::Element::write`. The element gets no prefix and no
/// namespace of its own; `XmlNode::Other` becomes an empty comment.
#[verifier::external_body]
fn tree_of(e: &XmlElement) -> xmltree::Element {
    let mut tree = xmltree::Element::new(&e.name);
    tree.attributes = e.attributes.iter().cloned().collect();
    tree.namespaces = Some(xmltree::Namespace(e.namespaces.iter().cloned().collect()));
    tree.children = e.children.iter().map(|n| match n {
        XmlNode::Element(c) => xmltree::XMLNode::Element(tree_of(c)),
        XmlNode::Text(t) => xmltree::XMLNode::Text(t.clone()),
        XmlNode::Other => xmltree::XMLNode::Comment(String::new()),
    }).collect();
    tree
}

/// `xmltree::Element::write`: writes the element as the root of a new XML
/// document, after the XML declaration, and hands back the text, or
/// nothing where the writer refuses the element. The outcome depends on
/// the element alone.
#[verifier::external_body]
pub(crate) fn write_document(e: &XmlElement) -> (r: Option<String>)
    ensures
        match r {
            Some(text) => document_text(*e) == Some(text@),
            None => document_text(*e) is None,
        },
{
    let mut out = Vec::new();
    match tree_of(e).write(&mut out) {
        Ok(()) => String::from_utf8(out).ok(),
        Err(_) => None,
    }
}

} // verus!
