use vstd::prelude::*;
use select::document::Document;
use select::node::Node;
use select::predicate::Class;

verus! {

#[verifier::external_type_specification]
#[verifier::external_body]
pub struct ExDocument(Document);

/// The number of nodes that `select` builds for the HTML text `html`
/// (the length of `Document::nodes`).
pub uninterp spec fn html_node_count(html: Seq<char>) -> nat;

/// The indices of the nodes, in document order, that
/// `Document::find(Class(class))` yields on the document parsed from `html`.
pub uninterp spec fn html_class_nodes(html: Seq<char>, class: Seq<char>) -> Seq<usize>;

/// The index of the first descendant of node `node` with class `class`, as
/// `Node::find(Class(class)).next()` gives it on the document parsed from `html`.
pub uninterp spec fn html_class_below(html: Seq<char>, node: usize, class: Seq<char>) -> Option<usize>;

/// The text of node `node` (`Node::text`) in the document parsed from `html`.
pub uninterp spec fn html_text(html: Seq<char>, node: usize) -> Seq<char>;

/// The index of the last child of node `node` (`Node::last_child`) in the
/// document parsed from `html`.
pub uninterp spec fn html_last_child(html: Seq<char>, node: usize) -> Option<usize>;

/// An HTML document parsed by `select`, together with the text it was parsed
/// from. Its view is that text; the only constructor is `HtmlPage::parse`,
/// whose trusted contract pairs the document with the text it parsed.
pub struct HtmlPage {
    doc: Document,
    source: Ghost<Seq<char>>,
}

impl View for HtmlPage {
    type V = Seq<char>;

    closed spec fn view(&self) -> Seq<char> {
        self.source@
    }
}

impl HtmlPage {
    /// `Document::from(&str)`: parses `html` and keeps the document with
    /// the text it was parsed from, which is the page's view.
    #[verifier::external_body]
    pub(crate) fn parse(html: &str) -> (p: HtmlPage)
        ensures
            p@ == html@,
    {
        HtmlPage { doc: Document::from(html), source: Ghost(html@) }
    }

    /// `Document::find(Class(class))`: the indices of the nodes whose `class`
    /// attribute lists `class`, in document order. Every index names a node of
    /// the document, as `Node::new` only builds such nodes.
    #[verifier::external_body]
    pub(crate) fn nodes_with_class(&self, class: &str) -> (r: Vec<usize>)
        ensures
            r@ == html_class_nodes(self@, class@),
            forall|k: int| 0 <= k < r@.len() ==> r@[k] < html_node_count(self@),
    {
        self.doc.find(Class(class)).map(|n| n.index()).collect()
    }

    /// `Node::find(Class(class)).next()` on node `node`: the first descendant
    /// whose `class` attribute lists `class`; it is a node of the document.
    #[verifier::external_body]
    pub(crate) fn first_below(&self, node: usize, class: &str) -> (r: Option<usize>)
        requires
            node < html_node_count(self@),
        ensures
            r == html_class_below(self@, node, class@),
            r matches Some(m) ==> m < html_node_count(self@),
    {
        Node::new(&self.doc, node).unwrap().find(Class(class)).next().map(|m| m.index())
    }

    /// `Node::text` on node `node`: the text of the node and its descendants.
    #[verifier::external_body]
    pub(crate) fn text_of(&self, node: usize) -> (r: String)
        requires
            node < html_node_count(self@),
        ensures
            r@ == html_text(self@, node),
    {
        Node::new(&self.doc, node).unwrap().text()
    }

    /// `Node::last_child` on node `node`; the child is a node of the document.
    #[verifier::external_body]
    pub(crate) fn last_child_of(&self, node: usize) -> (r: Option<usize>)
        requires
            node < html_node_count(self@),
        ensures
            r == html_last_child(self@, node),
            r matches Some(m) ==> m < html_node_count(self@),
    {
        Node::new(&self.doc, node).unwrap().last_child().map(|m| m.index())
    }
}

} // verus!
