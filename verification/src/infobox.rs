//! Extraction of an equipment record from the markup tree of a page.
//!
//! The record is the first template invocation directly under the root of
//! the tree. Its title names the template; its parameters, in document
//! order, give the fields of the record.

use vstd::prelude::*;
use crate::fields::FieldMap;
use crate::markup::{
    element_tree, xml_child, xml_node, xml_node_count, xml_tag, xml_text, MarkupTree,
};
use crate::text::{same_text, trim, trimmed};

verus! {

/// What extraction found on a page.
pub enum Extraction {
    /// The page holds no invocation of the template that was asked for.
    Absent,
    /// The invocation is there, but its parameters are not of the expected
    /// shape; the text says why.
    Malformed(String),
    /// The fields of the record.
    Found(FieldMap),
}

/// What an `Extraction` stands for.
pub ghost enum ExtractionView {
    Absent,
    Malformed(Seq<char>),
    Found(Map<Seq<char>, Seq<char>>),
}

impl View for Extraction {
    type V = ExtractionView;

    open spec fn view(&self) -> ExtractionView {
        match self {
            Extraction::Absent => ExtractionView::Absent,
            Extraction::Malformed(reason) => ExtractionView::Malformed(reason@),
            Extraction::Found(fields) => ExtractionView::Found(fields@),
        }
    }
}

/// The reason given for a parameter without a readable name.
pub open spec fn unnamed_parameter() -> Seq<char> {
    "a parameter of the record has no readable name"@
}

/// The title of a template invocation, trimmed, if it has one.
pub open spec fn invocation_title(invocation: MarkupTree) -> Option<Seq<char>> {
    match invocation.child("title"@) {
        Some(title) => match title.text {
            Some(text) => Some(trimmed(text)),
            None => None,
        },
        None => None,
    }
}

/// The name of a parameter as written, if it has a readable one.
pub open spec fn parameter_name(part: MarkupTree) -> Option<Seq<char>> {
    match part.child("name"@) {
        Some(name) => name.text,
        None => None,
    }
}

/// The value of a parameter as written; a parameter without a value, or
/// with a value without text, has the empty value.
pub open spec fn parameter_value(part: MarkupTree) -> Seq<char> {
    match part.child("value"@) {
        Some(value) => match value.text {
            Some(text) => text,
            None => Seq::empty(),
        },
        None => Seq::empty(),
    }
}

/// The fields given by the first `n` nodes inside an invocation, or `None`
/// if one of them is a parameter without a readable name. Each parameter
/// stores its trimmed value under its trimmed name, so of two parameters of
/// one name the later one counts.
pub open spec fn parameters(nodes: Seq<Option<MarkupTree>>, n: int) -> Option<
    Map<Seq<char>, Seq<char>>,
>
    decreases n,
{
    if n <= 0 {
        Some(Map::empty())
    } else {
        match parameters(nodes, n - 1) {
            None => None,
            Some(fields) => match nodes[n - 1] {
                Some(node) => {
                    if node.tag != "part"@ {
                        Some(fields)
                    } else {
                        match parameter_name(node) {
                            None => None,
                            Some(name) => Some(
                                fields.insert(trimmed(name), trimmed(parameter_value(node))),
                            ),
                        }
                    }
                },
                None => Some(fields),
            },
        }
    }
}

/// What extraction of the template called `target` finds in the tree under
/// `root`.
pub open spec fn extraction(root: MarkupTree, target: Seq<char>) -> ExtractionView {
    match root.child("template"@) {
        None => ExtractionView::Absent,
        Some(invocation) => {
            if invocation_title(invocation) == Some(target) {
                match parameters(invocation.nodes, invocation.nodes.len() as int) {
                    Some(fields) => ExtractionView::Found(fields),
                    None => ExtractionView::Malformed(unnamed_parameter()),
                }
            } else {
                ExtractionView::Absent
            }
        },
    }
}

/// Tests whether the title of `invocation`, trimmed, is `target`.
fn title_is(invocation: &xmltree::Element, target: &str) -> (b: bool)
    ensures
        b == (invocation_title(element_tree(*invocation)) == Some(target@)),
{
    match xml_child(invocation, "title") {
        Some(title) => match xml_text(title) {
            Some(text) => {
                let t = trim(text.as_str());
                same_text(t.as_str(), target)
            },
            None => false,
        },
        None => false,
    }
}

/// The trimmed name and the trimmed value of the parameter `part`, or
/// `None` if it has no readable name.
fn read_parameter(part: &xmltree::Element) -> (r: Option<(String, String)>)
    ensures
        r is Some <==> parameter_name(element_tree(*part)) is Some,
        r matches Some(pair) ==> pair.0@ == trimmed(parameter_name(element_tree(*part)).unwrap())
            && pair.1@ == trimmed(parameter_value(element_tree(*part))),
{
    let name = match xml_child(part, "name") {
        Some(node) => match xml_text(node) {
            Some(text) => trim(text.as_str()),
            None => {
                return None;
            },
        },
        None => {
            return None;
        },
    };
    let value = match xml_child(part, "value") {
        Some(node) => match xml_text(node) {
            Some(text) => trim(text.as_str()),
            None => trim(""),
        },
        None => trim(""),
    };
    proof {
        assert(""@ == Seq::<char>::empty()) by {
            reveal_strlit("");
            assert(""@.len() == 0);
        }
    }
    Some((name, value))
}

/// Extracts the record of the template called `target` from the tree under
/// `root`.
///
/// The record is looked for in the first `template` element directly under
/// the root. A page without such an element, or whose invocation has
/// another title, holds no record: the result is `Absent`. Otherwise each
/// `part` element of the invocation gives one field; a part without a
/// readable name makes the whole record `Malformed`.
pub fn extract_infobox(root: &xmltree::Element, target: &str) -> (r: Extraction)
    ensures
        r@ == extraction(element_tree(*root), target@),
{
    let invocation = match xml_child(root, "template") {
        Some(node) => node,
        None => {
            return Extraction::Absent;
        },
    };
    if !title_is(invocation, target) {
        return Extraction::Absent;
    }
    let ghost nodes = element_tree(*invocation).nodes;
    let count = xml_node_count(invocation);
    let mut fields = FieldMap::new();
    let mut i: usize = 0;
    while i < count
        invariant
            i <= count,
            count == nodes.len(),
            nodes == element_tree(*invocation).nodes,
            element_tree(*root).child("template"@) == Some(element_tree(*invocation)),
            invocation_title(element_tree(*invocation)) == Some(target@),
            parameters(nodes, i as int) == Some(fields@),
        decreases count - i,
    {
        match xml_node(invocation, i) {
            Some(node) => {
                let tag = xml_tag(node);
                if same_text(tag.as_str(), "part") {
                    match read_parameter(node) {
                        Some(pair) => {
                            fields.insert(pair.0, pair.1);
                        },
                        None => {
                            proof {
                                lemma_parameters_stay_malformed(nodes, i + 1, nodes.len() as int);
                            }
                            return Extraction::Malformed(
                                "a parameter of the record has no readable name".to_owned(),
                            );
                        },
                    }
                }
            },
            None => {},
        }
        i += 1;
    }
    Extraction::Found(fields)
}

/// Once a parameter without a readable name has been met, the nodes after
/// it do not mend the record.
pub proof fn lemma_parameters_stay_malformed(nodes: Seq<Option<MarkupTree>>, n: int, m: int)
    requires
        n <= m,
        parameters(nodes, n) is None,
    ensures
        parameters(nodes, m) is None,
    decreases m - n,
{
    if n < m {
        lemma_parameters_stay_malformed(nodes, n, m - 1);
    }
}

/// A page whose first template invocation has another title than the one
/// asked for holds no record: the result is `Absent`, whatever the
/// invocation holds, and never `Malformed`.
pub proof fn lemma_other_title_is_absent(root: MarkupTree, target: Seq<char>)
    requires
        root.child("template"@) is Some,
        invocation_title(root.child("template"@).unwrap()) != Some(target),
    ensures
        extraction(root, target) == ExtractionView::Absent,
{
}

/// A page without a template invocation directly under its root holds no
/// record.
pub proof fn lemma_no_template_is_absent(root: MarkupTree, target: Seq<char>)
    requires
        root.child("template"@) is None,
    ensures
        extraction(root, target) == ExtractionView::Absent,
{
}

/// Whether the node is a parameter whose trimmed name is `name`.
pub open spec fn is_parameter_named(node: Option<MarkupTree>, name: Seq<char>) -> bool {
    &&& node matches Some(part)
    &&& part.tag == "part"@
    &&& parameter_name(part) matches Some(written)
    &&& trimmed(written) == name
}

/// Of the parameters of one name the last counts: where the first `n`
/// nodes give fields, the field called `name` holds the trimmed value of
/// the last parameter of that name among them.
pub proof fn lemma_last_parameter_counts(
    nodes: Seq<Option<MarkupTree>>,
    n: int,
    i: int,
    name: Seq<char>,
)
    requires
        0 <= i < n <= nodes.len(),
        parameters(nodes, n) is Some,
        is_parameter_named(nodes[i], name),
        forall|j: int| i < j < n ==> !is_parameter_named(nodes[j], name),
    ensures
        parameters(nodes, n).unwrap().contains_key(name),
        parameters(nodes, n).unwrap()[name] == trimmed(parameter_value(nodes[i].unwrap())),
    decreases n,
{
    if i < n - 1 {
        assert(!is_parameter_named(nodes[n - 1], name));
        lemma_last_parameter_counts(nodes, n - 1, i, name);
    }
}

/// A name that no parameter bears is no field of the record.
pub proof fn lemma_only_parameters_give_fields(
    nodes: Seq<Option<MarkupTree>>,
    n: int,
    name: Seq<char>,
)
    requires
        0 <= n <= nodes.len(),
        parameters(nodes, n) is Some,
        forall|j: int| 0 <= j < n ==> !is_parameter_named(nodes[j], name),
    ensures
        !parameters(nodes, n).unwrap().contains_key(name),
    decreases n,
{
    if n > 0 {
        assert(!is_parameter_named(nodes[n - 1], name));
        lemma_only_parameters_give_fields(nodes, n - 1, name);
    }
}

} // verus!
