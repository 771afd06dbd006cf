//! The nested form of a document: what the paired tags of the flat element
//! sequence mean once each start has found its end.

use crate::formatter::format_element::tag::Tag;
use crate::formatter::format_element::LineMode;
use vstd::prelude::*;

verus! {

/// A document as a tree. A region holds what stands between a start tag and
/// its end tag; interned content stands where it is referred to.
pub enum Layout {
    Space,
    HardSpace,
    Line(LineMode),
    ExpandParent,
    Text(Seq<char>),
    LineSuffixBoundary,
    /// The variants of a best fitting element, most flat first.
    BestFitting(Seq<Seq<Layout>>),
    /// A region, with the tag that starts it.
    Region(Tag, Seq<Layout>),
}

/// Whether `layout` is guaranteed to be printed over more than one line:
/// whether it is or holds a hard or empty line, a text with a line feed, a
/// marker that expands its parent, or a group that was built expanded. Of a
/// best fitting element only the most flat variant is looked at.
pub open spec fn layout_breaks(layout: Layout) -> bool
    decreases layout, 0nat,
{
    match layout {
        Layout::Line(mode) => mode is Hard || mode is Empty,
        Layout::ExpandParent => true,
        Layout::Text(text) => text.contains('\n'),
        Layout::BestFitting(variants) => variants.len() > 0 && layouts_break(variants[0]),
        Layout::Region(tag, children) => match tag {
            Tag::StartGroup(group) => !group.mode.is_flat() || layouts_break(children),
            _ => layouts_break(children),
        },
        _ => false,
    }
}

/// Whether one of `layouts` is guaranteed to break.
pub open spec fn layouts_break(layouts: Seq<Layout>) -> bool
    decreases layouts, 1nat,
{
    exists|i: int| 0 <= i < layouts.len() && layout_breaks(#[trigger] layouts[i])
}

/// Whether `layout` is one that the printer can walk: each region starts
/// with a start tag, and each best fitting element has at least two variants.
pub open spec fn layout_wf(layout: Layout) -> bool
    decreases layout, 0nat,
{
    match layout {
        Layout::BestFitting(variants) => {
            &&& variants.len() >= 2
            &&& forall|i: int| 0 <= i < variants.len() ==> layouts_wf(#[trigger] variants[i])
        },
        Layout::Region(tag, children) => tag.is_start() && layouts_wf(children),
        _ => true,
    }
}

/// Whether each of `layouts` is one that the printer can walk.
pub open spec fn layouts_wf(layouts: Seq<Layout>) -> bool
    decreases layouts, 1nat,
{
    forall|i: int| 0 <= i < layouts.len() ==> layout_wf(#[trigger] layouts[i])
}

/// The tree that the printer walks. Beside the layout it stands for, a node
/// keeps what the printer would otherwise compute again and again.
pub enum Node<'a> {
    Space,
    HardSpace,
    Line(LineMode),
    ExpandParent,
    Text {
        text: &'a str,
        /// The number of characters of `text`, held at the column limit.
        width: u32,
        /// Whether `text` holds a line feed.
        multiline: bool,
    },
    LineSuffixBoundary,
    BestFitting {
        variants: Vec<Vec<Node<'a>>>,
        /// Whether the most flat variant breaks.
        breaks: bool,
    },
    Region {
        tag: Tag,
        children: Vec<Node<'a>>,
        /// Whether the region breaks.
        breaks: bool,
    },
}

/// The layout that `node` stands for.
pub open spec fn node_layout(node: Node) -> Layout
    decreases node, 0nat,
{
    match node {
        Node::Space => Layout::Space,
        Node::HardSpace => Layout::HardSpace,
        Node::Line(mode) => Layout::Line(mode),
        Node::ExpandParent => Layout::ExpandParent,
        Node::Text { text, .. } => Layout::Text(text@),
        Node::LineSuffixBoundary => Layout::LineSuffixBoundary,
        Node::BestFitting { variants, .. } => Layout::BestFitting(variants_layout(variants@)),
        Node::Region { tag, children, .. } => Layout::Region(tag, nodes_layout(children@)),
    }
}

/// The layouts that `nodes` stand for.
pub open spec fn nodes_layout(nodes: Seq<Node>) -> Seq<Layout>
    decreases nodes, 1nat,
{
    Seq::new(
        nodes.len(),
        |i: int|
            if 0 <= i < nodes.len() {
                node_layout(nodes[i])
            } else {
                Layout::Space
            },
    )
}

/// The layouts that the variants of a best fitting element stand for.
pub open spec fn variants_layout(variants: Seq<Vec<Node>>) -> Seq<Seq<Layout>>
    decreases variants, 1nat,
{
    Seq::new(
        variants.len(),
        |i: int|
            if 0 <= i < variants.len() {
                nodes_layout(variants[i]@)
            } else {
                Seq::empty()
            },
    )
}

/// Whether what `node` keeps beside its layout is right, and whether it is
/// a layout that the printer can walk: each region starts with a start tag,
/// and each best fitting element has at least two variants.
pub open spec fn node_wf(node: Node) -> bool
    decreases node, 0nat,
{
    match node {
        Node::Text { text, width, multiline } => {
            &&& width as int == crate::formatter::text::clamp_add(0, text@.len() as int)
            &&& multiline == text@.contains('\n')
        },
        Node::BestFitting { variants, breaks } => {
            &&& variants@.len() >= 2
            &&& forall|i: int| 0 <= i < variants@.len() ==> nodes_wf(#[trigger] variants@[i]@)
            &&& breaks == layout_breaks(node_layout(node))
        },
        Node::Region { tag, children, breaks } => {
            &&& tag.is_start()
            &&& nodes_wf(children@)
            &&& breaks == layout_breaks(node_layout(node))
        },
        _ => true,
    }
}

/// Whether each of `nodes` is well formed.
pub open spec fn nodes_wf(nodes: Seq<Node>) -> bool
    decreases nodes, 1nat,
{
    forall|i: int| 0 <= i < nodes.len() ==> node_wf(#[trigger] nodes[i])
}

impl<'a> Node<'a> {
    /// Whether the node is guaranteed to be printed over more than one line.
    pub fn breaks(&self) -> (r: bool)
        requires
            node_wf(*self),
        ensures
            r == layout_breaks(node_layout(*self)),
    {
        match self {
            Node::Line(mode) => matches!(mode, LineMode::Hard | LineMode::Empty),
            Node::ExpandParent => true,
            Node::Text { multiline, .. } => *multiline,
            Node::BestFitting { breaks, .. } => *breaks,
            Node::Region { breaks, .. } => *breaks,
            _ => false,
        }
    }
}

/// Whether one of `nodes` is guaranteed to break.
pub fn nodes_break<'a>(nodes: &[Node<'a>]) -> (r: bool)
    requires
        nodes_wf(nodes@),
    ensures
        r == layouts_break(nodes_layout(nodes@)),
{
    let mut i: usize = 0;
    while i < nodes.len()
        invariant
            i <= nodes.len(),
            nodes_wf(nodes@),
            forall|j: int| 0 <= j < i ==> !layout_breaks(#[trigger] nodes_layout(nodes@)[j]),
        decreases nodes.len() - i,
    {
        if nodes[i].breaks() {
            assert(layout_breaks(nodes_layout(nodes@)[i as int]));
            return true;
        }
        i += 1;
    }
    false
}

} // verus!
