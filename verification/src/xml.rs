//! The XML element tree that every parser in this crate works on.
//!
//! The tokenizer itself is an outside collaborator: `roxmltree` turns
//! document text into a tree, and a pair of trusted wrappers converts that
//! tree into [`XmlElement`], a plain recursive value.  Everything that
//! *reads* the tree — root discovery, child and attribute lookup — is
//! verified here against specification functions over the element tree.

use vstd::prelude::*;

use crate::error::Error;
use crate::strutil::{seq_ieq, str_eq, str_ieq};

verus! {

/// One XML element: its local tag name, its attributes in document order,
/// the text directly under it (if its first child is a text node), and its
/// element children in document order.
#[derive(Debug)]
pub struct XmlElement {
    pub name: String,
    pub attributes: Vec<(String, String)>,
    pub text: Option<String>,
    pub children: Vec<XmlElement>,
}

#[verifier::external_type_specification]
#[verifier::external_body]
pub struct ExXmlNode<'a, 'input: 'a>(roxmltree::Node<'a, 'input>);

/// Relies on roxmltree's node accessors — `tag_name().name()` (the local
/// tag name), `text()` (the text of the element's first child, when that
/// child is a text node), `attributes()` and `children()` (both in
/// document order) — to copy one element node, and recursively its
/// element children, into a plain owned tree.
#[verifier::external_body]
fn element_of_node(node: roxmltree::Node<'_, '_>) -> XmlElement {
    XmlElement {
        name: node.tag_name().name().to_string(),
        attributes: node
            .attributes()
            .map(|a| (a.name().to_string(), a.value().to_string()))
            .collect(),
        text: node.text().map(|t| t.to_string()),
        children: node
            .children()
            .filter(roxmltree::Node::is_element)
            .map(element_of_node)
            .collect(),
    }
}

/// The element tree that parsing a given document text yields, or `None`
/// for text that is not a well-formed XML document.  The result depends on
/// the text alone.
pub uninterp spec fn xml_tree_of(text: Seq<char>) -> Option<XmlElement>;

/// Relies on `roxmltree::Document::parse`: a well-formed document parses
/// into a tree whose root element this wrapper hands back (converted by
/// [`element_of_node`]), a malformed one yields an error.  The outcome is
/// a function of the document text alone.
#[verifier::external_body]
pub fn parse_xml(text: &str) -> (r: Option<XmlElement>)
    ensures
        r == xml_tree_of(text@),
{
    match roxmltree::Document::parse(text) {
        Ok(doc) => Some(element_of_node(doc.root_element())),
        Err(_) => None,
    }
}

/// The last child of `s` carrying exactly the given tag name.
///
/// Field extraction keeps the *last* occurrence of a repeated tag, as a
/// single forward pass that overwrites earlier matches does.
pub open spec fn last_child_named(s: Seq<XmlElement>, name: Seq<char>) -> Option<XmlElement>
    decreases s.len(),
{
    if s.len() == 0 {
        None
    } else if s.last().name@ == name {
        Some(s.last())
    } else {
        last_child_named(s.drop_last(), name)
    }
}

/// Finds the last child element of `e` with exactly the given tag name.
pub fn find_child<'a>(e: &'a XmlElement, name: &str) -> (r: Option<&'a XmlElement>)
    ensures
        match r {
            Some(x) => last_child_named(e.children@, name@) == Some(*x),
            None => last_child_named(e.children@, name@) is None,
        },
{
    let mut i: usize = e.children.len();
    proof {
        assert(e.children@.subrange(0, e.children@.len() as int) =~= e.children@);
    }
    while i > 0
        invariant
            0 <= i <= e.children.len(),
            last_child_named(e.children@, name@)
                == last_child_named(e.children@.subrange(0, i as int), name@),
        decreases i,
    {
        i = i - 1;
        let ghost pre = e.children@.subrange(0, i + 1);
        if str_eq(e.children[i].name.as_str(), name) {
            proof {
                assert(pre.last() == e.children@[i as int]);
            }
            return Some(&e.children[i]);
        }
        proof {
            assert(pre.drop_last() =~= e.children@.subrange(0, i as int));
        }
    }
    proof {
        assert(e.children@.subrange(0, 0) =~= Seq::<XmlElement>::empty());
    }
    None
}

/// The first element in the subtree of `e`, pre-order, whose tag name
/// matches `name` up to ASCII case.
pub open spec fn find_named(e: XmlElement, name: Seq<char>) -> Option<XmlElement>
    decreases e,
{
    if seq_ieq(e.name@, name) {
        Some(e)
    } else {
        find_named_in(e.children@, name)
    }
}

/// The first match of [`find_named`] over a sequence of subtrees.
pub open spec fn find_named_in(s: Seq<XmlElement>, name: Seq<char>) -> Option<XmlElement>
    decreases s,
{
    if s.len() == 0 {
        None
    } else {
        match find_named(s[0], name) {
            Some(r) => Some(r),
            None => find_named_in(s.drop_first(), name),
        }
    }
}

fn find_named_elem<'a>(e: &'a XmlElement, name: &str) -> (r: Option<&'a XmlElement>)
    ensures
        match r {
            Some(x) => find_named(*e, name@) == Some(*x),
            None => find_named(*e, name@) is None,
        },
    decreases *e,
{
    if str_ieq(e.name.as_str(), name) {
        return Some(e);
    }
    let mut i: usize = 0;
    proof {
        assert(e.children@.subrange(0, e.children@.len() as int) =~= e.children@);
    }
    while i < e.children.len()
        invariant
            0 <= i <= e.children.len(),
            !seq_ieq(e.name@, name@),
            find_named_in(e.children@, name@)
                == find_named_in(e.children@.subrange(i as int, e.children@.len() as int), name@),
        decreases e.children@.len() - i,
    {
        let ghost rest = e.children@.subrange(i as int, e.children@.len() as int);
        proof {
            assert(rest[0] == e.children@[i as int]);
            assert(rest.drop_first() =~= e.children@.subrange(i + 1, e.children@.len() as int));
            assert(decreases_to!(*e => e.children@[i as int]));
        }
        match find_named_elem(&e.children[i], name) {
            Some(x) => {
                return Some(x);
            },
            None => {},
        }
        i = i + 1;
    }
    proof {
        assert(e.children@.subrange(e.children@.len() as int, e.children@.len() as int)
            =~= Seq::<XmlElement>::empty());
    }
    None
}

/// Locates the element that roots a document's schema — `device` in a
/// device description, `scpd` in a service description — by the first
/// pre-order, ASCII-case-insensitive tag match, as the historical UPnP
/// stacks expect.  A miss is a structural error naming the document and
/// the element.
pub fn find_root<'a>(root: &'a XmlElement, element: &str, docname: &str) -> (r: Result<
    &'a XmlElement,
    Error,
>)
    ensures
        match r {
            Ok(x) => find_named(*root, element@) == Some(*x),
            Err(e) => find_named(*root, element@) is None && e.is_missing_element(
                docname@,
                element@,
            ),
        },
{
    match find_named_elem(root, element) {
        Some(x) => Ok(x),
        None => Err(
            Error::XmlMissingElement(String::from_str(docname), String::from_str(element)),
        ),
    }
}

/// The value of the first attribute of `s` whose name matches up to ASCII case.
pub open spec fn first_attr_named(s: Seq<(String, String)>, name: Seq<char>) -> Option<String>
    decreases s.len(),
{
    if s.len() == 0 {
        None
    } else if seq_ieq(s[0].0@, name) {
        Some(s[0].1)
    } else {
        first_attr_named(s.drop_first(), name)
    }
}

/// Finds an attribute of `e` by ASCII-case-insensitive name.
pub fn find_node_attribute<'a>(e: &'a XmlElement, attr: &str) -> (r: Option<&'a str>)
    ensures
        match r {
            Some(v) => first_attr_named(e.attributes@, attr@) matches Some(w) && w@ == v@,
            None => first_attr_named(e.attributes@, attr@) is None,
        },
{
    let mut i: usize = 0;
    proof {
        assert(e.attributes@.subrange(0, e.attributes@.len() as int) =~= e.attributes@);
    }
    while i < e.attributes.len()
        invariant
            0 <= i <= e.attributes.len(),
            first_attr_named(e.attributes@, attr@)
                == first_attr_named(
                    e.attributes@.subrange(i as int, e.attributes@.len() as int),
                    attr@,
                ),
        decreases e.attributes@.len() - i,
    {
        let ghost rest = e.attributes@.subrange(i as int, e.attributes@.len() as int);
        proof {
            assert(rest[0] == e.attributes@[i as int]);
            assert(rest.drop_first() =~= e.attributes@.subrange(i + 1, e.attributes@.len() as int));
        }
        if str_ieq(e.attributes[i].0.as_str(), attr) {
            return Some(e.attributes[i].1.as_str());
        }
        i = i + 1;
    }
    proof {
        assert(e.attributes@.subrange(e.attributes@.len() as int, e.attributes@.len() as int)
            =~= Seq::<(String, String)>::empty());
    }
    None
}

/// The text directly under an element, with a missing text node read as
/// the empty string, as every scalar field of the UPnP schema is read.
pub open spec fn text_of(e: XmlElement) -> Seq<char> {
    match e.text {
        Some(t) => t@,
        None => Seq::empty(),
    }
}

/// Reads the text directly under `e`, or the empty string if there is none.
pub fn node_text<'a>(e: &'a XmlElement) -> (r: &'a str)
    ensures
        r@ == text_of(*e),
{
    match &e.text {
        Some(t) => t.as_str(),
        None => {
            let r = "";
            proof {
                reveal_strlit("");
                assert(r@ =~= text_of(*e));
            }
            r
        },
    }
}

} // verus!
