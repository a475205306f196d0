//! An HTML page as the sequence of its nodes in document order.
//!
//! Parsing and the queries on the parsed page are the work of the `select`
//! crate. This module states what they return over a model of the page, one
//! [`NodeView`] for each node, and offers them as methods of [`Page`].

use vstd::prelude::*;

verus! {

/// The page type of the `select` crate. Nothing inside it is read here: what
/// it holds is told by `dom_nodes`.
#[verifier::external_type_specification]
#[verifier::external_body]
pub struct ExDocument(select::document::Document);

/// What the queries see of one node of a page.
pub struct NodeView {
    /// The tag name of an element; `None` for text and comments.
    pub tag: Option<Seq<char>>,
    /// The classes that the node's `class` attribute lists.
    pub classes: Set<Seq<char>>,
    /// The position of the node's first child, if it has children.
    pub first_child: Option<int>,
    /// The position of the next node with the same parent, if there is one.
    pub next_sibling: Option<int>,
    /// The text of the node and of everything below it, in document order.
    pub text: Seq<char>,
}

/// The first child of a node and its next sibling, where it has them, are
/// nodes of the page that stand after the node itself. So it is on every
/// page that was parsed: a walk along these links stays on the page and ends.
pub open spec fn links_forward(nodes: Seq<NodeView>) -> bool {
    forall|i: int|
        0 <= i < nodes.len() ==> {
            &&& (#[trigger] nodes[i]).first_child matches Some(child) ==> i < child < nodes.len()
            &&& nodes[i].next_sibling matches Some(next) ==> i < next < nodes.len()
        }
}

/// How elements are picked: by tag name or by class.
pub enum Selector {
    Tag(Seq<char>),
    Class(Seq<char>),
}

/// Whether `selector` picks `node`.
pub open spec fn selects(selector: Selector, node: NodeView) -> bool {
    match selector {
        Selector::Tag(name) => node.tag == Some(name),
        Selector::Class(class) => node.classes.contains(class),
    }
}

/// The positions of the nodes that `selector` picks, in document order.
pub open spec fn matching(nodes: Seq<NodeView>, selector: Selector) -> Seq<int>
    decreases nodes.len(),
{
    if nodes.len() == 0 {
        Seq::empty()
    } else {
        let before = matching(nodes.drop_last(), selector);
        if selects(selector, nodes.last()) {
            before.push(nodes.len() - 1)
        } else {
            before
        }
    }
}

/// `matching` lists exactly the positions of the nodes that `selector` picks,
/// each once and in rising order.
pub proof fn lemma_matching(nodes: Seq<NodeView>, selector: Selector)
    ensures
        forall|k: int|
            0 <= k < matching(nodes, selector).len() ==> {
                &&& 0 <= #[trigger] matching(nodes, selector)[k] < nodes.len()
                &&& selects(selector, nodes[matching(nodes, selector)[k]])
            },
        forall|j: int, k: int|
            0 <= j < k < matching(nodes, selector).len() ==> #[trigger] matching(nodes, selector)[j]
                < #[trigger] matching(nodes, selector)[k],
        forall|i: int|
            0 <= i < nodes.len() && selects(selector, #[trigger] nodes[i]) ==> matching(
                nodes,
                selector,
            ).contains(i),
    decreases nodes.len(),
{
    if nodes.len() > 0 {
        let front = nodes.drop_last();
        let before = matching(front, selector);
        let all = matching(nodes, selector);
        lemma_matching(front, selector);
        assert forall|i: int|
            0 <= i < nodes.len() && selects(selector, #[trigger] nodes[i]) implies all.contains(
            i,
        ) by {
            if i < front.len() {
                assert(front[i] == nodes[i]);
                let k = choose|k: int| 0 <= k < before.len() && before[k] == i;
                assert(all[k] == i);
            } else {
                assert(all[all.len() - 1] == i);
            }
        }
    }
}

/// Positions as mathematical integers.
pub open spec fn positions(found: Seq<usize>) -> Seq<int> {
    found.map_values(|position: usize| position as int)
}

/// A position, if there is one, as a mathematical integer.
pub open spec fn position(found: Option<usize>) -> Option<int> {
    match found {
        Some(position) => Some(position as int),
        None => None,
    }
}

/// The longest text, in bytes, that is handed to the parser: three times as
/// many bytes still fit a buffer of the parser, which holds 2^31 at most.
pub const MAX_HTML_BYTES: usize = 0x2000_0000;

/// The nodes of a page, in document order.
pub uninterp spec fn dom_nodes(dom: select::document::Document) -> Seq<NodeView>;

/// The nodes of the page that the parser makes of `html`, in document order.
pub uninterp spec fn parsed_nodes(html: Seq<char>) -> Seq<NodeView>;

/// `select::document::Document::from` for `&str`. The parser takes any text
/// and always answers with a page; the same text gives the same page. It
/// appends node after node and links a node to its first child and to its next
/// sibling when these are appended, so these links lead forward.
///
/// The parser gathers the text of a node, the value of an attribute, a name or
/// a comment in one buffer each. A buffer grows to the next power of two and
/// panics where it would have to hold more than 2^31 bytes. What is gathered
/// may be longer than what was read, at most three bytes for one (U+FFFD for a
/// NUL), so the buffers of a text of at most `MAX_HTML_BYTES` bytes reach at most
/// three quarters of that.
///
/// The copy of the tree goes one call deeper for each level of nesting. The
/// stack is taken to hold that, as memory is taken to hold the page.
#[verifier::external_body]
fn parse_html(html: &str) -> (dom: select::document::Document)
    requires
        html.len() <= MAX_HTML_BYTES,
    ensures
        dom_nodes(dom) == parsed_nodes(html@),
        links_forward(dom_nodes(dom)),
{
    select::document::Document::from(html)
}

/// The length of the public field `nodes` of `select::document::Document`,
/// a `Vec` with one entry for each node.
#[verifier::external_body]
fn node_count(dom: &select::document::Document) -> (count: usize)
    ensures
        count == dom_nodes(*dom).len(),
{
    dom.nodes.len()
}

/// `select::document::Document::find` with the predicate `Name`: it walks the
/// nodes in document order and yields the elements whose tag name is `name`.
/// Each node is handed out as its position, `select::node::Node::index`.
#[verifier::external_body]
fn find_by_name(dom: &select::document::Document, name: &str) -> (found: Vec<usize>)
    ensures
        positions(found@) == matching(dom_nodes(*dom), Selector::Tag(name@)),
{
    dom.find(select::predicate::Name(name)).map(|node| node.index()).collect()
}

/// `select::document::Document::find` with the predicate `Class`: it walks the
/// nodes in document order and yields the elements whose `class` attribute
/// lists `class`. Each node is handed out as its position.
#[verifier::external_body]
fn find_by_class(dom: &select::document::Document, class: &str) -> (found: Vec<usize>)
    ensures
        positions(found@) == matching(dom_nodes(*dom), Selector::Class(class@)),
{
    dom.find(select::predicate::Class(class)).map(|node| node.index()).collect()
}

/// `select::node::Node::first_child`, on the node at position `node`. Where
/// the link of that node led off the page, the call would panic.
#[verifier::external_body]
fn first_child_of(dom: &select::document::Document, node: usize) -> (child: Option<usize>)
    requires
        links_forward(dom_nodes(*dom)),
        node < dom_nodes(*dom).len(),
    ensures
        position(child) == dom_nodes(*dom)[node as int].first_child,
{
    dom.nth(node).unwrap().first_child().map(|child| child.index())
}

/// `select::node::Node::text`, on the node at position `node`: the text of the
/// node and of all its descendants, in document order. The call walks from the
/// node along the links to first children and next siblings, one call deeper
/// for each level of nesting; where a link led off the page or back, it would
/// not return.
#[verifier::external_body]
fn text_of(dom: &select::document::Document, node: usize) -> (text: String)
    requires
        links_forward(dom_nodes(*dom)),
        node < dom_nodes(*dom).len(),
    ensures
        text@ == dom_nodes(*dom)[node as int].text,
{
    dom.nth(node).unwrap().text()
}

/// A parsed HTML page. Its view is the sequence of its nodes in document order.
pub struct Page {
    dom: select::document::Document,
}

impl View for Page {
    type V = Seq<NodeView>;

    closed spec fn view(&self) -> Seq<NodeView> {
        dom_nodes(self.dom)
    }
}

impl Page {
    #[verifier::type_invariant]
    spec fn links_lead_forward(self) -> bool {
        links_forward(dom_nodes(self.dom))
    }

    /// Parses `html`. Every text of at most `MAX_HTML_BYTES` bytes is accepted,
    /// well-formed or not; a longer one may overrun a buffer of the parser.
    ///
    /// Parsing goes one call deeper for each level of nesting of the elements.
    /// It is taken for granted that the stack holds that, as it is that memory
    /// holds the page: a text of very many opening tags, one inside the other,
    /// is within the bound and may still exhaust the stack.
    pub fn parse(html: &str) -> (page: Page)
        requires
            html.len() <= MAX_HTML_BYTES,
        ensures
            page@ == parsed_nodes(html@),
            links_forward(page@),
    {
        let dom = parse_html(html);
        Page { dom }
    }

    /// The number of nodes of the page. The positions of its nodes are the
    /// numbers below it.
    pub fn len(&self) -> (count: usize)
        ensures
            count == self@.len(),
    {
        node_count(&self.dom)
    }

    /// The positions of the elements with tag name `name`, in document order.
    pub fn find_name(&self, name: &str) -> (found: Vec<usize>)
        ensures
            positions(found@) == matching(self@, Selector::Tag(name@)),
    {
        find_by_name(&self.dom, name)
    }

    /// The positions of the elements of class `class`, in document order.
    pub fn find_class(&self, class: &str) -> (found: Vec<usize>)
        ensures
            positions(found@) == matching(self@, Selector::Class(class@)),
    {
        find_by_class(&self.dom, class)
    }

    /// The position of the first child of the node at `node`. It is a node of
    /// the page and stands after `node`.
    pub fn first_child(&self, node: usize) -> (child: Option<usize>)
        requires
            node < self@.len(),
        ensures
            position(child) == self@[node as int].first_child,
            child matches Some(c) ==> node < c < self@.len(),
    {
        proof {
            use_type_invariant(self);
        }
        first_child_of(&self.dom, node)
    }

    /// The text of the node at `node` and of everything below it. Collecting
    /// it goes one call deeper for each level of nesting below the node; the
    /// stack is taken to hold that.
    pub fn text(&self, node: usize) -> (text: String)
        requires
            node < self@.len(),
        ensures
            text@ == self@[node as int].text,
    {
        proof {
            use_type_invariant(self);
        }
        text_of(&self.dom, node)
    }
}

} // verus!
