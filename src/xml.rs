//! A flat view of an XML document: its nodes in document order, each with
//! its local name, attributes and first text child, and queries for the
//! first element that matches.
use vstd::prelude::*;
use crate::mime::opt_view;

verus! {

/// An attribute: local name and value.
pub struct XmlAttribute {
    pub name: String,
    pub value: String,
}

impl View for XmlAttribute {
    type V = (Seq<char>, Seq<char>);

    open spec fn view(&self) -> (Seq<char>, Seq<char>) {
        (self.name@, self.value@)
    }
}

/// A node of a parsed document. Only elements have a non-empty name and
/// attributes; `text` is the node's own text, or for an element the text
/// of its first child when that child is text.
pub struct XmlNode {
    pub is_element: bool,
    pub name: String,
    pub attributes: Vec<XmlAttribute>,
    pub text: Option<String>,
}

/// The mathematical value of an `XmlNode`.
pub struct NodeView {
    pub is_element: bool,
    pub name: Seq<char>,
    pub attributes: Seq<(Seq<char>, Seq<char>)>,
    pub text: Option<Seq<char>>,
}

impl View for XmlNode {
    type V = NodeView;

    open spec fn view(&self) -> NodeView {
        NodeView {
            is_element: self.is_element,
            name: self.name@,
            attributes: self.attributes@.map_values(|a: XmlAttribute| a@),
            text: opt_view(self.text),
        }
    }
}

/// The views of a sequence of nodes.
pub open spec fn nodes_view(v: Seq<XmlNode>) -> Seq<NodeView> {
    v.map_values(|n: XmlNode| n@)
}

/// The nodes of the document `s` in document order, or `None` when `s` is
/// not well-formed XML.
pub uninterp spec fn xml_document(s: Seq<char>) -> Option<Seq<NodeView>>;

/// Relies on `roxmltree::Document::parse` and on the nodes that
/// `Document::descendants` yields (root first, then document order), with
/// `Node::is_element`, `Node::tag_name`, `Node::attributes` and `Node::text`.
/// What comes back depends on the text alone.
#[verifier::external_body]
pub(crate) fn parse_xml(s: &str) -> (r: Option<Vec<XmlNode>>)
    ensures
        match r {
            Some(v) => xml_document(s@) == Some(nodes_view(v@)),
            None => xml_document(s@) is None,
        },
{
    let doc = roxmltree::Document::parse(s).ok()?;
    Some(doc.descendants().map(|n| XmlNode {
        is_element: n.is_element(),
        name: n.tag_name().name().to_string(),
        attributes: n.attributes().map(|a| XmlAttribute {
            name: a.name().to_string(),
            value: a.value().to_string(),
        }).collect(),
        text: n.text().map(|t| t.to_string()),
    }).collect())
}

/// The value of the first attribute named `key`.
pub open spec fn attr_of(attrs: Seq<(Seq<char>, Seq<char>)>, key: Seq<char>) -> Option<Seq<char>>
    decreases attrs.len(),
{
    if attrs.len() == 0 {
        None
    } else if attrs[0].0 == key {
        Some(attrs[0].1)
    } else {
        attr_of(attrs.drop_first(), key)
    }
}

/// Whether `n` is an element called `name` and, when `value` is given,
/// has attribute `key` equal to it.
pub open spec fn node_matches(n: NodeView, name: Seq<char>, key: Seq<char>, value: Option<Seq<char>>) -> bool {
    &&& n.is_element
    &&& n.name == name
    &&& (value is None || attr_of(n.attributes, key) == value)
}

/// The index of the first node at or after `i` that matches.
pub open spec fn first_match(nodes: Seq<NodeView>, name: Seq<char>, key: Seq<char>, value: Option<Seq<char>>, i: int) -> Option<int>
    decreases nodes.len() - i,
{
    if i < 0 || i >= nodes.len() {
        None
    } else if node_matches(nodes[i], name, key, value) {
        Some(i)
    } else {
        first_match(nodes, name, key, value, i + 1)
    }
}

pub proof fn lemma_first_match_in_range(nodes: Seq<NodeView>, name: Seq<char>, key: Seq<char>, value: Option<Seq<char>>, i: int)
    ensures
        first_match(nodes, name, key, value, i) matches Some(k) ==> i <= k < nodes.len()
            && node_matches(nodes[k], name, key, value),
    decreases nodes.len() - i,
{
    if 0 <= i < nodes.len() && !node_matches(nodes[i], name, key, value) {
        lemma_first_match_in_range(nodes, name, key, value, i + 1);
    }
}

/// The first element called `name`.
pub open spec fn first_named(nodes: Seq<NodeView>, name: Seq<char>) -> Option<int> {
    first_match(nodes, name, Seq::empty(), None, 0)
}

/// The text of the first element called `name`, as it stands.
pub open spec fn first_text(nodes: Seq<NodeView>, name: Seq<char>) -> Option<Seq<char>> {
    match first_named(nodes, name) {
        Some(i) => nodes[i].text,
        None => None,
    }
}

/// Attribute `key` of the first element called `name`.
pub open spec fn first_attr(nodes: Seq<NodeView>, name: Seq<char>, key: Seq<char>) -> Option<Seq<char>> {
    match first_named(nodes, name) {
        Some(i) => attr_of(nodes[i].attributes, key),
        None => None,
    }
}

pub open spec fn opt_str_view(o: Option<&str>) -> Option<Seq<char>> {
    match o {
        Some(s) => Some(s@),
        None => None,
    }
}

pub open spec fn opt_index(o: Option<usize>) -> Option<int> {
    match o {
        Some(i) => Some(i as int),
        None => None,
    }
}

/// Whether `a` holds the same text as `b`.
pub fn same_text(a: &String, b: &str) -> (r: bool)
    ensures
        r == (a@ == b@),
{
    let t = String::from_str(b);
    a.eq(&t)
}

/// The value of `node`'s first attribute called `key`.
pub fn attribute(node: &XmlNode, key: &str) -> (r: Option<String>)
    ensures
        opt_view(r) == attr_of(node@.attributes, key@),
{
    let ghost all = node@.attributes;
    let n = node.attributes.len();
    let mut i: usize = 0;
    assert(all.subrange(0, n as int) =~= all);
    while i < n
        invariant
            n == node.attributes@.len(),
            all == node@.attributes,
            i <= n,
            attr_of(all, key@) == attr_of(all.subrange(i as int, n as int), key@),
        decreases n - i,
    {
        let a = &node.attributes[i];
        assert(all.subrange(i as int, n as int)[0] == a@);
        if same_text(&a.name, key) {
            return Some(a.value.clone());
        }
        assert(all.subrange(i as int, n as int).drop_first() =~= all.subrange(i + 1, n as int));
        i = i + 1;
    }
    None
}

/// The index of the first element called `name` that, when `value` is
/// given, has attribute `key` equal to it.
pub fn find_element(nodes: &Vec<XmlNode>, name: &str, key: &str, value: Option<&str>) -> (r: Option<usize>)
    ensures
        opt_index(r) == first_match(nodes_view(nodes@), name@, key@, opt_str_view(value), 0),
        r matches Some(i) ==> i < nodes@.len(),
{
    proof {
        lemma_first_match_in_range(nodes_view(nodes@), name@, key@, opt_str_view(value), 0);
    }
    let ghost nv = nodes_view(nodes@);
    let ghost want = opt_str_view(value);
    let mut i: usize = 0;
    while i < nodes.len()
        invariant
            nv == nodes_view(nodes@),
            nv.len() == nodes@.len(),
            want == opt_str_view(value),
            i <= nodes@.len(),
            first_match(nv, name@, key@, want, 0) == first_match(nv, name@, key@, want, i as int),
        decreases nodes@.len() - i,
    {
        let node = &nodes[i];
        assert(nv[i as int] == node@);
        let mut ok = node.is_element && same_text(&node.name, name);
        assert(ok == (nv[i as int].is_element && nv[i as int].name == name@));
        if ok {
            match value {
                Some(v) => {
                    let a = attribute(node, key);
                    ok = match a {
                        Some(s) => same_text(&s, v),
                        None => false,
                    };
                    assert(ok == (attr_of(node@.attributes, key@) == Some(v@)));
                },
                None => {},
            }
        }
        assert(ok == node_matches(nv[i as int], name@, key@, want));
        if ok {
            return Some(i);
        }
        i = i + 1;
    }
    None
}

} // verus!
