//! A plain-value view of an XML document, read through `roxmltree`.
use vstd::prelude::*;
use crate::text::str_eq;

verus! {

/// One attribute of an element: its local name, whether it is namespace-qualified, and its
/// (entity-resolved) value.
#[derive(Debug, Clone)]
pub struct XmlAttr {
    pub name: String,
    pub namespaced: bool,
    pub value: String,
}

/// One node of the document in document order: the element's local tag name (empty for
/// non-element nodes), its attributes, and the node's text as `roxmltree::Node::text` gives it.
#[derive(Debug, Clone)]
pub struct XmlNode {
    pub tag: String,
    pub attrs: Vec<XmlAttr>,
    pub text: Option<String>,
}

pub struct XmlAttrView {
    pub name: Seq<char>,
    pub namespaced: bool,
    pub value: Seq<char>,
}

pub struct XmlNodeView {
    pub tag: Seq<char>,
    pub attrs: Seq<XmlAttrView>,
    pub text: Option<Seq<char>>,
}

impl View for XmlAttr {
    type V = XmlAttrView;

    open spec fn view(&self) -> XmlAttrView {
        XmlAttrView { name: self.name@, namespaced: self.namespaced, value: self.value@ }
    }
}

impl View for XmlNode {
    type V = XmlNodeView;

    open spec fn view(&self) -> XmlNodeView {
        XmlNodeView {
            tag: self.tag@,
            attrs: self.attrs@.map_values(|a: XmlAttr| a@),
            text: match self.text {
                Some(t) => Some(t@),
                None => None,
            },
        }
    }
}

pub open spec fn nodes_view(v: Seq<XmlNode>) -> Seq<XmlNodeView> {
    v.map_values(|n: XmlNode| n@)
}

/// The descendants (root first, document order) of the document `xml` as `roxmltree` parses
/// it, or `None` when `roxmltree` rejects the text.
pub uninterp spec fn xml_document_nodes(xml: Seq<char>) -> Option<Seq<XmlNodeView>>;

/// Parses `xml` with `roxmltree::Document::parse` and lists `Document::descendants`, each node
/// as its local tag name (`tag_name().name()`), its attributes (`name()`, whether
/// `namespace()` is set, `value()`) and `text()`. The contract only names the result: it is
/// fixed by the text alone, and `None` exactly when parsing fails.
#[verifier::external_body]
pub(crate) fn parse_xml_nodes(xml: &str) -> (r: Option<Vec<XmlNode>>)
    ensures
        r matches Some(v) ==> xml_document_nodes(xml@) == Some(nodes_view(v@)),
        r is None ==> xml_document_nodes(xml@) is None,
{
    let doc = roxmltree::Document::parse(xml).ok()?;
    Some(doc.descendants().map(|n| XmlNode {
        tag: n.tag_name().name().to_string(),
        attrs: n.attributes().map(|a| XmlAttr {
            name: a.name().to_string(),
            namespaced: a.namespace().is_some(),
            value: a.value().to_string(),
        }).collect(),
        text: n.text().map(String::from),
    }).collect())
}

/// The value of the first attribute named `name`; with `any_ns` false only an attribute
/// without a namespace counts (as `roxmltree::Node::attribute("...")` looks it up), with
/// `any_ns` true the local name alone decides.
pub open spec fn attr_lookup(attrs: Seq<XmlAttrView>, name: Seq<char>, any_ns: bool) -> Option<Seq<char>>
    decreases attrs.len(),
{
    if attrs.len() == 0 {
        None
    } else if attrs[0].name == name && (any_ns || !attrs[0].namespaced) {
        Some(attrs[0].value)
    } else {
        attr_lookup(attrs.drop_first(), name, any_ns)
    }
}

/// Executable [`attr_lookup`].
pub fn find_attr<'a>(node: &'a XmlNode, name: &str, any_ns: bool) -> (r: Option<&'a str>)
    ensures
        r matches Some(v) ==> attr_lookup(node@.attrs, name@, any_ns) == Some(v@),
        r is None ==> attr_lookup(node@.attrs, name@, any_ns) is None,
{
    let ghost all = node@.attrs;
    assert(all.skip(0) =~= all);
    let mut i: usize = 0;
    while i < node.attrs.len()
        invariant
            all == node@.attrs,
            i <= node.attrs@.len(),
            attr_lookup(all, name@, any_ns) == attr_lookup(all.skip(i as int), name@, any_ns),
        decreases node.attrs@.len() - i,
    {
        let a = &node.attrs[i];
        assert(all.skip(i as int)[0] == a@);
        assert(all.skip(i as int).drop_first() =~= all.skip(i + 1));
        if str_eq(a.name.as_str(), name) && (any_ns || !a.namespaced) {
            return Some(a.value.as_str());
        }
        i = i + 1;
    }
    None
}

} // verus!
