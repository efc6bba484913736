//! The parsed markup of a page: an ordered tree of named nodes, read from
//! XML.
//!
//! The tree stays in the form in which the XML parser built it. The library
//! reads it through the few functions at the end of this file, and states
//! what it reads over `MarkupTree`, which is what an element holds.

use vstd::prelude::*;

verus! {

/// What an element of the markup holds: its tag, the text directly inside
/// it, if any, and the nodes directly inside it, in document order. A node
/// that is an element is given by its tree; text, comments and the like
/// are `None`.
pub ghost struct MarkupTree {
    pub tag: Seq<char>,
    pub text: Option<Seq<char>>,
    pub nodes: Seq<Option<MarkupTree>>,
}

/// The position of the first of `nodes` that is an element tagged `tag`,
/// counted from position `from`, or the number of nodes if there is none.
pub open spec fn first_tagged(nodes: Seq<Option<MarkupTree>>, tag: Seq<char>, from: int) -> int
    decreases nodes.len() - from,
{
    if from < 0 || from >= nodes.len() {
        nodes.len() as int
    } else if nodes[from] matches Some(node) && node.tag == tag {
        from
    } else {
        first_tagged(nodes, tag, from + 1)
    }
}

impl MarkupTree {
    /// The first element directly inside this one that is tagged `tag`.
    pub open spec fn child(self, tag: Seq<char>) -> Option<MarkupTree> {
        let i = first_tagged(self.nodes, tag, 0);
        if i < self.nodes.len() {
            self.nodes[i]
        } else {
            None
        }
    }
}

/// The first element tagged `tag` stands at a position of the nodes, or
/// there is none; no element before it bears the tag.
pub proof fn lemma_first_tagged(nodes: Seq<Option<MarkupTree>>, tag: Seq<char>, from: int)
    requires
        0 <= from <= nodes.len(),
    ensures
        from <= first_tagged(nodes, tag, from) <= nodes.len(),
        first_tagged(nodes, tag, from) < nodes.len() ==> nodes[first_tagged(nodes, tag, from)]
            is Some && nodes[first_tagged(nodes, tag, from)].unwrap().tag == tag,
        forall|k: int|
            from <= k < first_tagged(nodes, tag, from) ==> (#[trigger] nodes[k]) is None
                || nodes[k].unwrap().tag != tag,
    decreases nodes.len() - from,
{
    if from < nodes.len() && (nodes[from] is None || nodes[from].unwrap().tag != tag) {
        lemma_first_tagged(nodes, tag, from + 1);
    }
}

/// An element of a parsed XML document.
#[verifier::external_type_specification]
#[verifier::external_body]
pub struct ExElement(xmltree::Element);

/// The error of the XML parser.
#[verifier::external_type_specification]
#[verifier::external_body]
pub struct ExParseError(xmltree::ParseError);

/// What an XML element holds: its local name as the tag; the text and
/// character data directly inside it, joined in document order, or no text
/// where it has none; and its child nodes, in order.
pub uninterp spec fn element_tree(e: xmltree::Element) -> MarkupTree;

/// The text that describes an error of the XML parser.
pub uninterp spec fn parse_error_text(e: xmltree::ParseError) -> Seq<char>;

/// What reading `text` as an XML document gives: what its root element
/// holds, or the description of the parser's error.
pub uninterp spec fn xml_reading(text: Seq<char>) -> Result<MarkupTree, Seq<char>>;

/// Calls `xmltree::Element::parse` on the bytes of `text`. The outcome
/// depends on the text alone; the contract gives it the name `xml_reading`,
/// through what the root element holds or what describes the error.
#[verifier::external_body]
fn xml_root(text: &str) -> (r: Result<xmltree::Element, xmltree::ParseError>)
    ensures
        match r {
            Ok(e) => xml_reading(text@) == Ok::<MarkupTree, Seq<char>>(element_tree(e)),
            Err(err) => xml_reading(text@) == Err::<MarkupTree, Seq<char>>(parse_error_text(err)),
        },
{
    xmltree::Element::parse(text.as_bytes())
}

/// Formats an error of the XML parser with `Debug`; the contract gives the
/// text its name.
#[verifier::external_body]
fn parse_error_message(e: &xmltree::ParseError) -> (s: String)
    ensures
        s@ == parse_error_text(*e),
{
    format!("{:?}", e)
}

/// Copies the field `name` of an element: its tag.
#[verifier::external_body]
pub(crate) fn xml_tag(e: &xmltree::Element) -> (tag: String)
    ensures
        tag@ == element_tree(*e).tag,
{
    e.name.clone()
}

/// Calls `xmltree::Element::get_child` with a tag name, which finds the
/// first child element of that name.
#[verifier::external_body]
pub(crate) fn xml_child<'a>(e: &'a xmltree::Element, tag: &str) -> (r: Option<
    &'a xmltree::Element,
>)
    ensures
        match r {
            Some(child) => element_tree(*e).child(tag@) == Some(element_tree(*child)),
            None => element_tree(*e).child(tag@) is None,
        },
{
    e.get_child(tag)
}

/// Calls `xmltree::Element::get_text`, which joins the text and character
/// data directly inside the element and gives nothing where there is none.
#[verifier::external_body]
pub(crate) fn xml_text(e: &xmltree::Element) -> (r: Option<String>)
    ensures
        r is Some <==> element_tree(*e).text is Some,
        r matches Some(text) ==> Some(text@) == element_tree(*e).text,
{
    e.get_text().map(|text| text.into_owned())
}

/// The length of the field `children` of an element: the number of its
/// child nodes.
#[verifier::external_body]
pub(crate) fn xml_node_count(e: &xmltree::Element) -> (n: usize)
    ensures
        n == element_tree(*e).nodes.len(),
{
    e.children.len()
}

/// Calls `xmltree::XMLNode::as_element` on the child node at position `i`,
/// which gives the element where the node is one.
#[verifier::external_body]
pub(crate) fn xml_node(e: &xmltree::Element, i: usize) -> (r: Option<&xmltree::Element>)
    requires
        i < element_tree(*e).nodes.len(),
    ensures
        match r {
            Some(child) => element_tree(*e).nodes[i as int] == Some(element_tree(*child)),
            None => element_tree(*e).nodes[i as int] is None,
        },
{
    e.children[i].as_element()
}

/// Reads `text` as an XML document and gives its root element, or the
/// description of the parser's error.
pub fn parse_markup(text: &str) -> (r: Result<xmltree::Element, String>)
    ensures
        match r {
            Ok(root) => xml_reading(text@) == Ok::<MarkupTree, Seq<char>>(element_tree(root)),
            Err(message) => xml_reading(text@) == Err::<MarkupTree, Seq<char>>(message@),
        },
{
    match xml_root(text) {
        Ok(root) => Ok(root),
        Err(err) => Err(parse_error_message(&err)),
    }
}

} // verus!
