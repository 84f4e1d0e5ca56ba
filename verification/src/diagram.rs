//! The vocabulary of railroad diagram nodes, and the calls that have the
//! `railroad` crate build, measure and draw them.

use vstd::prelude::*;
use vstd::string::StringExecFns;

verus! {

/// A node of a railroad diagram: the plain description of what is to be drawn.
#[derive(Debug)]
pub enum DiagramNode {
    /// The children one after another on one rail.
    Sequence(Vec<DiagramNode>),
    /// One of the children.
    Choice(Vec<DiagramNode>),
    /// The children one after another, each on a line of its own.
    Stack(Vec<DiagramNode>),
    /// The children in a column, without rails between them.
    VerticalGrid(Vec<DiagramNode>),
    /// The child, or nothing.
    Optional(Box<DiagramNode>),
    /// The child once or more, with `repeat` on the way back.
    Repeat { inner: Box<DiagramNode>, repeat: Box<DiagramNode> },
    /// The child in a box with a caption.
    LabeledBox { inner: Box<DiagramNode>, label: Box<DiagramNode> },
    /// Any character but the excluded operand: `inner` stands for the
    /// character, `label` is what is excluded.
    Except { inner: Box<DiagramNode>, label: Box<DiagramNode> },
    /// The child as a link to `uri`.
    Link { inner: Box<DiagramNode>, uri: String },
    /// A literal.
    Terminal(String),
    /// A reference to a production.
    NonTerminal(String),
    /// A caption.
    Comment(String),
    /// Nothing at all.
    Empty,
    /// The glyph that starts a diagram.
    SimpleStart,
    /// The glyph that ends a diagram.
    SimpleEnd,
}

/// Model of a [`DiagramNode`].
pub enum DiagramNodeView {
    Sequence(Seq<DiagramNodeView>),
    Choice(Seq<DiagramNodeView>),
    Stack(Seq<DiagramNodeView>),
    VerticalGrid(Seq<DiagramNodeView>),
    Optional(Box<DiagramNodeView>),
    Repeat { inner: Box<DiagramNodeView>, repeat: Box<DiagramNodeView> },
    LabeledBox { inner: Box<DiagramNodeView>, label: Box<DiagramNodeView> },
    /// A labeled box with an extra `class` attribute.
    StyledBox { inner: Box<DiagramNodeView>, label: Box<DiagramNodeView>, class: Seq<char> },
    Link { inner: Box<DiagramNodeView>, uri: Seq<char> },
    Terminal(Seq<char>),
    NonTerminal(Seq<char>),
    Comment(Seq<char>),
    Empty,
    SimpleStart,
    SimpleEnd,
}

/// The caption above the excluded operand of an [`DiagramNode::Except`] node.
pub open spec fn except_caption() -> Seq<char> {
    "⚠️ with the exception of"@
}

/// The class that marks the box of an [`DiagramNode::Except`] node.
pub open spec fn except_class() -> Seq<char> {
    " exceptbox"@
}

/// The models of a list of nodes, in order.
pub open spec fn nodes_view(ns: Seq<DiagramNode>) -> Seq<DiagramNodeView>
    decreases ns,
{
    Seq::new(ns.len(), |i: int| if 0 <= i < ns.len() { node_view(ns[i]) } else { arbitrary() })
}

/// The model of a node. An `Except` node is a styled box around `inner` whose
/// caption is a column of the fixed caption text and the excluded operand.
pub open spec fn node_view(n: DiagramNode) -> DiagramNodeView
    decreases n,
{
    match n {
        DiagramNode::Sequence(ns) => DiagramNodeView::Sequence(nodes_view(ns@)),
        DiagramNode::Choice(ns) => DiagramNodeView::Choice(nodes_view(ns@)),
        DiagramNode::Stack(ns) => DiagramNodeView::Stack(nodes_view(ns@)),
        DiagramNode::VerticalGrid(ns) => DiagramNodeView::VerticalGrid(nodes_view(ns@)),
        DiagramNode::Optional(inner) => DiagramNodeView::Optional(Box::new(node_view(*inner))),
        DiagramNode::Repeat { inner, repeat } => DiagramNodeView::Repeat {
            inner: Box::new(node_view(*inner)),
            repeat: Box::new(node_view(*repeat)),
        },
        DiagramNode::LabeledBox { inner, label } => DiagramNodeView::LabeledBox {
            inner: Box::new(node_view(*inner)),
            label: Box::new(node_view(*label)),
        },
        DiagramNode::Except { inner, label } => DiagramNodeView::StyledBox {
            inner: Box::new(node_view(*inner)),
            label: Box::new(
                DiagramNodeView::VerticalGrid(
                    seq![DiagramNodeView::Comment(except_caption()), node_view(*label)],
                ),
            ),
            class: except_class(),
        },
        DiagramNode::Link { inner, uri } => DiagramNodeView::Link {
            inner: Box::new(node_view(*inner)),
            uri: uri@,
        },
        DiagramNode::Terminal(text) => DiagramNodeView::Terminal(text@),
        DiagramNode::NonTerminal(name) => DiagramNodeView::NonTerminal(name@),
        DiagramNode::Comment(text) => DiagramNodeView::Comment(text@),
        DiagramNode::Empty => DiagramNodeView::Empty,
        DiagramNode::SimpleStart => DiagramNodeView::SimpleStart,
        DiagramNode::SimpleEnd => DiagramNodeView::SimpleEnd,
    }
}

impl View for DiagramNode {
    type V = DiagramNodeView;

    open spec fn view(&self) -> DiagramNodeView {
        node_view(*self)
    }
}

/// A node that the `railroad` crate has built: a `Box<dyn railroad::Node>`.
/// Nothing of it is seen from here: what it stands for is [`shape_of`].
#[verifier::external_body]
pub struct RailroadNode {
    node: Box<dyn railroad::Node>,
}

/// What the `railroad` node was built from: the constructor calls that made
/// it, as a tree.
pub uninterp spec fn shape_of(node: RailroadNode) -> DiagramNodeView;

/// The width that `railroad` computes for a whole diagram around this root.
pub uninterp spec fn diagram_width(root: DiagramNodeView) -> i64;

/// The SVG document that `railroad` writes for a whole diagram around this root.
pub uninterp spec fn diagram_svg(root: DiagramNodeView) -> Seq<char>;

/// The SVG element that `railroad` draws for this node alone, at the origin
/// and from left to right.
pub uninterp spec fn node_svg(node: DiagramNodeView) -> Seq<char>;

/// The shapes of a list of built nodes, in order.
pub open spec fn shapes_of(ns: Seq<RailroadNode>) -> Seq<DiagramNodeView> {
    Seq::new(ns.len(), |i: int| shape_of(ns[i]))
}

/// `railroad::Terminal::new`: the node is a terminal with this label.
#[verifier::external_body]
fn new_terminal(label: String) -> (r: RailroadNode)
    ensures
        shape_of(r) == DiagramNodeView::Terminal(label@),
{
    RailroadNode { node: Box::new(railroad::Terminal::new(label)) }
}

/// `railroad::NonTerminal::new`: the node is a non-terminal with this label.
#[verifier::external_body]
fn new_non_terminal(label: String) -> (r: RailroadNode)
    ensures
        shape_of(r) == DiagramNodeView::NonTerminal(label@),
{
    RailroadNode { node: Box::new(railroad::NonTerminal::new(label)) }
}

/// `railroad::Comment::new`: the node is a caption with this text.
#[verifier::external_body]
fn new_comment(text: String) -> (r: RailroadNode)
    ensures
        shape_of(r) == DiagramNodeView::Comment(text@),
{
    RailroadNode { node: Box::new(railroad::Comment::new(text)) }
}

/// `railroad::Empty`: the node that draws nothing.
#[verifier::external_body]
fn new_empty() -> (r: RailroadNode)
    ensures
        shape_of(r) == DiagramNodeView::Empty,
{
    RailroadNode { node: Box::new(railroad::Empty) }
}

/// `railroad::SimpleStart`: the glyph that starts a diagram.
#[verifier::external_body]
fn new_simple_start() -> (r: RailroadNode)
    ensures
        shape_of(r) == DiagramNodeView::SimpleStart,
{
    RailroadNode { node: Box::new(railroad::SimpleStart) }
}

/// `railroad::SimpleEnd`: the glyph that ends a diagram.
#[verifier::external_body]
fn new_simple_end() -> (r: RailroadNode)
    ensures
        shape_of(r) == DiagramNodeView::SimpleEnd,
{
    RailroadNode { node: Box::new(railroad::SimpleEnd) }
}

/// `railroad::Sequence::new`: the node is a sequence of these children, in order.
#[verifier::external_body]
fn new_sequence(children: Vec<RailroadNode>) -> (r: RailroadNode)
    ensures
        shape_of(r) == DiagramNodeView::Sequence(shapes_of(children@)),
{
    let nodes: Vec<Box<dyn railroad::Node>> = children.into_iter().map(|c| c.node).collect();
    RailroadNode { node: Box::new(railroad::Sequence::new(nodes)) }
}

/// `railroad::Choice::new`: the node is a choice between these children, in order.
#[verifier::external_body]
fn new_choice(children: Vec<RailroadNode>) -> (r: RailroadNode)
    ensures
        shape_of(r) == DiagramNodeView::Choice(shapes_of(children@)),
{
    let nodes: Vec<Box<dyn railroad::Node>> = children.into_iter().map(|c| c.node).collect();
    RailroadNode { node: Box::new(railroad::Choice::new(nodes)) }
}

/// `railroad::Stack::new`: the node is a stack of these children, in order.
#[verifier::external_body]
fn new_stack(children: Vec<RailroadNode>) -> (r: RailroadNode)
    ensures
        shape_of(r) == DiagramNodeView::Stack(shapes_of(children@)),
{
    let nodes: Vec<Box<dyn railroad::Node>> = children.into_iter().map(|c| c.node).collect();
    RailroadNode { node: Box::new(railroad::Stack::new(nodes)) }
}

/// `railroad::VerticalGrid::new`: the node is a column of these children, in order.
#[verifier::external_body]
fn new_vertical_grid(children: Vec<RailroadNode>) -> (r: RailroadNode)
    ensures
        shape_of(r) == DiagramNodeView::VerticalGrid(shapes_of(children@)),
{
    let nodes: Vec<Box<dyn railroad::Node>> = children.into_iter().map(|c| c.node).collect();
    RailroadNode { node: Box::new(railroad::VerticalGrid::new(nodes)) }
}

/// `railroad::Optional::new`: the node is the child made optional.
#[verifier::external_body]
fn new_optional(inner: RailroadNode) -> (r: RailroadNode)
    ensures
        shape_of(r) == DiagramNodeView::Optional(Box::new(shape_of(inner))),
{
    RailroadNode { node: Box::new(railroad::Optional::new(inner.node)) }
}

/// `railroad::Repeat::new`: the node repeats `inner`, with `repeat` on the way back.
#[verifier::external_body]
fn new_repeat(inner: RailroadNode, repeat: RailroadNode) -> (r: RailroadNode)
    ensures
        shape_of(r) == (DiagramNodeView::Repeat {
            inner: Box::new(shape_of(inner)),
            repeat: Box::new(shape_of(repeat)),
        }),
{
    RailroadNode { node: Box::new(railroad::Repeat::new(inner.node, repeat.node)) }
}

/// `railroad::LabeledBox::new`: the node is a box around `inner` with `label` as caption.
#[verifier::external_body]
fn new_labeled_box(inner: RailroadNode, label: RailroadNode) -> (r: RailroadNode)
    ensures
        shape_of(r) == (DiagramNodeView::LabeledBox {
            inner: Box::new(shape_of(inner)),
            label: Box::new(shape_of(label)),
        }),
{
    RailroadNode { node: Box::new(railroad::LabeledBox::new(inner.node, label.node)) }
}

/// `railroad::LabeledBox::new`, then `LabeledBox::attr` to append `class` to
/// the box's `class` attribute: the node is that box with that class.
#[verifier::external_body]
fn new_styled_box(inner: RailroadNode, label: RailroadNode, class: &str) -> (r: RailroadNode)
    ensures
        shape_of(r) == (DiagramNodeView::StyledBox {
            inner: Box::new(shape_of(inner)),
            label: Box::new(shape_of(label)),
            class: class@,
        }),
{
    let mut labeled = railroad::LabeledBox::new(inner.node, label.node);
    labeled.attr("class".to_owned()).or_default().push_str(class);
    RailroadNode { node: Box::new(labeled) }
}

/// `railroad::Link::new`: the node is `inner` as a link to `uri`.
#[verifier::external_body]
fn new_link(inner: RailroadNode, uri: String) -> (r: RailroadNode)
    ensures
        shape_of(r) == (DiagramNodeView::Link { inner: Box::new(shape_of(inner)), uri: uri@ }),
{
    RailroadNode { node: Box::new(railroad::Link::new(inner.node, uri)) }
}

/// `railroad::Diagram::new` around the node, then `Node::width` of the
/// diagram: a function of the node's shape alone. The crate adds up widths
/// in `i64`, eight units for a column of text: far more than the texts that
/// fit in memory come to.
#[verifier::external_body]
fn measure_diagram(root: &RailroadNode) -> (w: i64)
    ensures
        w == diagram_width(shape_of(*root)),
{
    railroad::Node::width(&railroad::Diagram::new(&root.node))
}

/// `railroad::Diagram::new` around the node, then the diagram's `Display`:
/// the SVG document, a function of the node's shape alone.
#[verifier::external_body]
fn draw_diagram(root: &RailroadNode) -> (svg: String)
    ensures
        svg@ == diagram_svg(shape_of(*root)),
{
    railroad::Diagram::new(&root.node).to_string()
}

/// `railroad::Node::draw` at the origin, from left to right, then the
/// element's `Display`: the SVG element, a function of the node's shape alone.
#[verifier::external_body]
fn draw_node(node: &RailroadNode) -> (svg: String)
    ensures
        svg@ == node_svg(shape_of(*node)),
{
    railroad::Node::draw(&node.node, 0, 0, railroad::svg::HDir::LTR).to_string()
}

/// Has `railroad` build each node of the list.
fn to_railroad_all(nodes: &Vec<DiagramNode>) -> (r: Vec<RailroadNode>)
    ensures
        shapes_of(r@) =~= nodes_view(nodes@),
    decreases nodes, 0nat,
{
    let mut built: Vec<RailroadNode> = Vec::new();
    let mut i: usize = 0;
    while i < nodes.len()
        invariant
            i <= nodes.len(),
            built.len() == i,
            forall|j: int| 0 <= j < i ==> shape_of(#[trigger] built[j]) == nodes[j]@,
        decreases nodes.len() - i,
    {
        built.push(to_railroad(&nodes[i]));
        i = i + 1;
    }
    built
}

/// Has `railroad` build the node that the description stands for.
pub fn to_railroad(node: &DiagramNode) -> (r: RailroadNode)
    ensures
        shape_of(r) == node@,
    decreases node, 1nat,
{
    match node {
        DiagramNode::Sequence(ns) => new_sequence(to_railroad_all(ns)),
        DiagramNode::Choice(ns) => new_choice(to_railroad_all(ns)),
        DiagramNode::Stack(ns) => new_stack(to_railroad_all(ns)),
        DiagramNode::VerticalGrid(ns) => new_vertical_grid(to_railroad_all(ns)),
        DiagramNode::Optional(inner) => new_optional(to_railroad(inner)),
        DiagramNode::Repeat { inner, repeat } => new_repeat(to_railroad(inner), to_railroad(repeat)),
        DiagramNode::LabeledBox { inner, label } => new_labeled_box(
            to_railroad(inner),
            to_railroad(label),
        ),
        DiagramNode::Except { inner, label } => {
            let mut column: Vec<RailroadNode> = Vec::new();
            column.push(new_comment(String::from_str("⚠️ with the exception of")));
            column.push(to_railroad(label));
            let caption = new_vertical_grid(column);
            assert(shapes_of(column@) =~= seq![
                DiagramNodeView::Comment(except_caption()),
                node_view(**label),
            ]);
            new_styled_box(to_railroad(inner), caption, " exceptbox")
        },
        DiagramNode::Link { inner, uri } => new_link(to_railroad(inner), uri.clone()),
        DiagramNode::Terminal(text) => new_terminal(text.clone()),
        DiagramNode::NonTerminal(name) => new_non_terminal(name.clone()),
        DiagramNode::Comment(text) => new_comment(text.clone()),
        DiagramNode::Empty => new_empty(),
        DiagramNode::SimpleStart => new_simple_start(),
        DiagramNode::SimpleEnd => new_simple_end(),
    }
}

/// The SVG element of the node alone, drawn at the origin from left to right.
pub fn node_to_svg(node: &DiagramNode) -> (svg: String)
    ensures
        svg@ == node_svg(node@),
{
    let built = to_railroad(node);
    draw_node(&built)
}

/// The width and the SVG document of a whole diagram around the node.
pub fn diagram_of_root(root: &DiagramNode) -> (r: (i64, String))
    ensures
        r.0 == diagram_width(root@),
        r.1@ == diagram_svg(root@),
{
    let built = to_railroad(root);
    (measure_diagram(&built), draw_diagram(&built))
}

/// The width of a whole diagram around the node.
pub fn width_of_root(root: &DiagramNode) -> (w: i64)
    ensures
        w == diagram_width(root@),
{
    let built = to_railroad(root);
    measure_diagram(&built)
}

} // verus!
