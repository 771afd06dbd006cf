//! Tag tracking: the stack machine that reads the paired tags of a flat
//! element sequence as nested regions.

use super::error::{PrintError, StructuralIntegrityError};
use super::layout::{
    node_layout, node_wf, nodes_break, nodes_layout, nodes_wf, variants_layout, Layout, Node,
};
use crate::formatter::format_element::tag::Tag;
use crate::formatter::format_element::{FormatElement, MalformedBestFittingError};
use crate::formatter::text::{contains_newline, text_width};
use vstd::prelude::*;

verus! {

/// A region whose start tag was read and whose end tag was not.
pub struct OpenRegion {
    /// The tag that starts the region.
    pub tag: Tag,
    /// What stands before the region, in the region that encloses it.
    pub before: Seq<Layout>,
}

/// The state of the stack machine.
pub struct Tracking {
    /// The open regions, innermost last.
    pub open: Seq<OpenRegion>,
    /// What was read of the innermost open region.
    pub current: Seq<Layout>,
}

impl Tracking {
    /// The state before anything is read.
    pub open spec fn start() -> Tracking {
        Tracking { open: Seq::empty(), current: Seq::empty() }
    }

    /// The state after one more layout is read.
    pub open spec fn add(self, layout: Layout) -> Tracking {
        Tracking { open: self.open, current: self.current.push(layout) }
    }
}

/// The state of the stack machine after it has read `element`. A start tag
/// opens a region; an end tag closes the innermost open region, which must
/// be of its kind. Interned content is read as if it stood in place of the
/// reference to it; it, and each variant of a best fitting element, must
/// nest by itself.
pub open spec fn track_element(tracking: Tracking, element: FormatElement) -> Result<
    Tracking,
    PrintError,
>
    decreases element, 0nat,
{
    match element {
        FormatElement::Space => Ok(tracking.add(Layout::Space)),
        FormatElement::HardSpace => Ok(tracking.add(Layout::HardSpace)),
        FormatElement::Line(mode) => Ok(tracking.add(Layout::Line(mode))),
        FormatElement::ExpandParent => Ok(tracking.add(Layout::ExpandParent)),
        FormatElement::StaticText { text } => Ok(tracking.add(Layout::Text(text@))),
        FormatElement::DynamicText { text } => Ok(tracking.add(Layout::Text(text@))),
        FormatElement::LocatedTokenText { slice, .. } => Ok(
            tracking.add(Layout::Text(slice.text@)),
        ),
        FormatElement::LineSuffixBoundary => Ok(tracking.add(Layout::LineSuffixBoundary)),
        FormatElement::Interned(interned) => match layout_of(interned.0@) {
            Ok(layouts) => Ok(
                Tracking { open: tracking.open, current: tracking.current + layouts },
            ),
            Err(error) => Err(error),
        },
        FormatElement::BestFitting(best_fitting) => if best_fitting.variants@.len() < 2 {
            Err(
                PrintError::MalformedBestFitting(
                    MalformedBestFittingError { variants: best_fitting.variants@.len() as usize },
                ),
            )
        } else {
            match variant_layouts(best_fitting.variants@, best_fitting.variants@.len() as int) {
                Ok(variants) => Ok(tracking.add(Layout::BestFitting(variants))),
                Err(error) => Err(error),
            }
        },
        FormatElement::Tag(tag) => if tag.is_start() {
            Ok(
                Tracking {
                    open: tracking.open.push(OpenRegion { tag, before: tracking.current }),
                    current: Seq::empty(),
                },
            )
        } else if tracking.open.len() == 0 {
            Err(
                PrintError::StructuralIntegrity(
                    StructuralIntegrityError::StartTagMissing { kind: tag.kind() },
                ),
            )
        } else if tracking.open.last().tag.kind() != tag.kind() {
            Err(
                PrintError::StructuralIntegrity(
                    StructuralIntegrityError::StartEndTagMismatch {
                        start_kind: tracking.open.last().tag.kind(),
                        end_kind: tag.kind(),
                    },
                ),
            )
        } else {
            Ok(
                Tracking {
                    open: tracking.open.drop_last(),
                    current: tracking.open.last().before.push(
                        Layout::Region(tracking.open.last().tag, tracking.current),
                    ),
                },
            )
        },
    }
}

/// The state of the stack machine after it has read the first `n` of
/// `elements`, or the first error on the way.
pub open spec fn track_elements(elements: Seq<FormatElement>, n: int, tracking: Tracking) -> Result<
    Tracking,
    PrintError,
>
    decreases elements, n,
{
    if n <= 0 || n > elements.len() {
        Ok(tracking)
    } else {
        match track_elements(elements, n - 1, tracking) {
            Ok(before) => track_element(before, elements[n - 1]),
            Err(error) => Err(error),
        }
    }
}

/// The nested form of `elements`: what the stack machine has read when it
/// reaches the end with no region left open.
pub open spec fn layout_of(elements: Seq<FormatElement>) -> Result<Seq<Layout>, PrintError>
    decreases elements, elements.len() + 1,
{
    match track_elements(elements, elements.len() as int, Tracking::start()) {
        Ok(tracking) => if tracking.open.len() == 0 {
            Ok(tracking.current)
        } else {
            Err(
                PrintError::StructuralIntegrity(
                    StructuralIntegrityError::UnclosedRegion {
                        kind: tracking.open.last().tag.kind(),
                    },
                ),
            )
        },
        Err(error) => Err(error),
    }
}

/// The nested forms of the first `n` variants of a best fitting element.
pub open spec fn variant_layouts(variants: Seq<Vec<FormatElement>>, n: int) -> Result<
    Seq<Seq<Layout>>,
    PrintError,
>
    decreases variants, n,
{
    if n <= 0 || n > variants.len() {
        Ok(Seq::empty())
    } else {
        match variant_layouts(variants, n - 1) {
            Ok(before) => match layout_of(variants[n - 1]@) {
                Ok(layouts) => Ok(before.push(layouts)),
                Err(error) => Err(error),
            },
            Err(error) => Err(error),
        }
    }
}

/// A region whose start tag was read and whose end tag was not.
pub struct OpenNode<'a> {
    pub tag: Tag,
    pub before: Vec<Node<'a>>,
}

/// The open regions as contracts see them.
pub open spec fn open_regions(open: Seq<OpenNode>) -> Seq<OpenRegion> {
    Seq::new(
        open.len(),
        |i: int| OpenRegion { tag: open[i].tag, before: nodes_layout(open[i].before@) },
    )
}

/// Whether the nodes that stand before each open region are well formed,
/// and each open region starts with a start tag.
pub open spec fn open_wf(open: Seq<OpenNode>) -> bool {
    forall|i: int|
        0 <= i < open.len() ==> (#[trigger] open[i]).tag.is_start() && nodes_wf(open[i].before@)
}

fn text_node<'a>(text: &'a str) -> (node: Node<'a>)
    ensures
        node_wf(node),
        node_layout(node) == Layout::Text(text@),
{
    Node::Text { text, width: text_width(text), multiline: contains_newline(text) }
}

fn region_node<'a>(tag: Tag, children: Vec<Node<'a>>) -> (node: Node<'a>)
    requires
        tag.is_start(),
        nodes_wf(children@),
    ensures
        node_wf(node),
        node_layout(node) == Layout::Region(tag, nodes_layout(children@)),
{
    let breaks = match tag {
        Tag::StartGroup(group) => !group.mode().is_flat() || nodes_break(children.as_slice()),
        _ => nodes_break(children.as_slice()),
    };
    Node::Region { tag, children, breaks }
}

/// Reads the variants of a best fitting element.
fn build_variants<'a, 'b>(variants: &'b Vec<Vec<FormatElement<'a>>>) -> (r: Result<
    Vec<Vec<Node<'b>>>,
    PrintError,
>)
    ensures
        match r {
            Ok(built) => {
                &&& built@.len() == variants@.len()
                &&& forall|i: int| 0 <= i < built@.len() ==> nodes_wf(#[trigger] built@[i]@)
                &&& variant_layouts(variants@, variants@.len() as int) == Ok::<_, PrintError>(
                    variants_layout(built@),
                )
            },
            Err(error) => variant_layouts(variants@, variants@.len() as int) == Err::<
                Seq<Seq<Layout>>,
                _,
            >(error),
        },
    decreases variants, 0nat,
{
    let mut built: Vec<Vec<Node<'b>>> = Vec::new();
    let mut i: usize = 0;
    proof {
        assert(variants_layout(built@) =~= Seq::empty());
    }
    while i < variants.len()
        invariant
            i <= variants.len(),
            built@.len() == i,
            forall|j: int| 0 <= j < built@.len() ==> nodes_wf(#[trigger] built@[j]@),
            variant_layouts(variants@, i as int) == Ok::<_, PrintError>(variants_layout(built@)),
        decreases variants.len() - i,
    {
        let ghost before = built@;
        match build_nodes(variants[i].as_slice()) {
            Ok(nodes) => {
                built.push(nodes);
                proof {
                    assert(variants_layout(built@) =~= variants_layout(before).push(
                        nodes_layout(nodes@),
                    ));
                }
            },
            Err(error) => {
                proof {
                    lemma_variant_error(variants@, i + 1, variants@.len() as int);
                }
                return Err(error);
            },
        }
        i += 1;
    }
    Ok(built)
}

/// The first error among the variants is the error of all of them.
pub proof fn lemma_variant_error(variants: Seq<Vec<FormatElement>>, i: int, n: int)
    requires
        0 <= i <= n <= variants.len(),
        variant_layouts(variants, i) is Err,
    ensures
        variant_layouts(variants, n) == variant_layouts(variants, i),
    decreases n - i,
{
    if i < n {
        lemma_variant_error(variants, i, n - 1);
    }
}

/// The first error among the elements is the error of all of them.
pub proof fn lemma_track_error(elements: Seq<FormatElement>, i: int, n: int, tracking: Tracking)
    requires
        0 <= i <= n <= elements.len(),
        track_elements(elements, i, tracking) is Err,
    ensures
        track_elements(elements, n, tracking) == track_elements(elements, i, tracking),
    decreases n - i,
{
    if i < n {
        lemma_track_error(elements, i, n - 1, tracking);
    }
}

/// The state of the stack machine as contracts see it.
pub open spec fn tracking_of(open: Seq<OpenNode>, current: Seq<Node>) -> Tracking {
    Tracking { open: open_regions(open), current: nodes_layout(current) }
}

fn add_node<'a>(current: Vec<Node<'a>>, node: Node<'a>) -> (nodes: Vec<Node<'a>>)
    requires
        nodes_wf(current@),
        node_wf(node),
    ensures
        nodes_wf(nodes@),
        nodes_layout(nodes@) == nodes_layout(current@).push(node_layout(node)),
{
    let mut nodes = current;
    nodes.push(node);
    proof {
        assert(nodes_layout(nodes@) =~= nodes_layout(current@).push(node_layout(node)));
    }
    nodes
}

fn add_nodes<'a>(current: Vec<Node<'a>>, more: Vec<Node<'a>>) -> (nodes: Vec<Node<'a>>)
    requires
        nodes_wf(current@),
        nodes_wf(more@),
    ensures
        nodes_wf(nodes@),
        nodes_layout(nodes@) == nodes_layout(current@) + nodes_layout(more@),
{
    let mut nodes = current;
    let mut rest = more;
    nodes.append(&mut rest);
    proof {
        assert(nodes_layout(nodes@) =~= nodes_layout(current@) + nodes_layout(more@));
    }
    nodes
}

/// Reads a tag: opens a region, or closes the innermost open one.
fn track_tag<'a>(open: Vec<OpenNode<'a>>, current: Vec<Node<'a>>, tag: Tag) -> (r: Result<
    (Vec<OpenNode<'a>>, Vec<Node<'a>>),
    PrintError,
>)
    requires
        open_wf(open@),
        nodes_wf(current@),
    ensures
        match r {
            Ok((open_after, current_after)) => {
                &&& open_wf(open_after@)
                &&& nodes_wf(current_after@)
                &&& track_element(tracking_of(open@, current@), FormatElement::Tag(tag)) == Ok::<
                    _,
                    PrintError,
                >(tracking_of(open_after@, current_after@))
            },
            Err(error) => track_element(tracking_of(open@, current@), FormatElement::Tag(tag))
                == Err::<Tracking, _>(error),
        },
{
    let mut open_after = open;
    if tag.is_start() {
        open_after.push(OpenNode { tag, before: current });
        let current_after: Vec<Node<'a>> = Vec::new();
        proof {
            assert(nodes_layout(current_after@) =~= Seq::empty());
            assert(open_regions(open_after@) =~= open_regions(open@).push(
                OpenRegion { tag, before: nodes_layout(current@) },
            ));
        }
        Ok((open_after, current_after))
    } else {
        match open_after.pop() {
            None => Err(
                PrintError::StructuralIntegrity(
                    StructuralIntegrityError::StartTagMissing { kind: tag.kind() },
                ),
            ),
            Some(region) => {
                proof {
                    assert(region == open@.last());
                    assert(open_regions(open@).last() == OpenRegion {
                        tag: region.tag,
                        before: nodes_layout(region.before@),
                    });
                    assert(open_regions(open_after@) =~= open_regions(open@).drop_last());
                }
                if region.tag.kind() != tag.kind() {
                    Err(
                        PrintError::StructuralIntegrity(
                            StructuralIntegrityError::StartEndTagMismatch {
                                start_kind: region.tag.kind(),
                                end_kind: tag.kind(),
                            },
                        ),
                    )
                } else {
                    let node = region_node(region.tag, current);
                    let current_after = add_node(region.before, node);
                    Ok((open_after, current_after))
                }
            },
        }
    }
}

/// Reads one element.
fn track_step<'a, 'b>(
    open: Vec<OpenNode<'b>>,
    current: Vec<Node<'b>>,
    element: &'b FormatElement<'a>,
) -> (r: Result<(Vec<OpenNode<'b>>, Vec<Node<'b>>), PrintError>)
    requires
        open_wf(open@),
        nodes_wf(current@),
    ensures
        match r {
            Ok((open_after, current_after)) => {
                &&& open_wf(open_after@)
                &&& nodes_wf(current_after@)
                &&& track_element(tracking_of(open@, current@), *element) == Ok::<_, PrintError>(
                    tracking_of(open_after@, current_after@),
                )
            },
            Err(error) => track_element(tracking_of(open@, current@), *element) == Err::<
                Tracking,
                _,
            >(error),
        },
    decreases element, 0nat,
{
    match element {
        FormatElement::Space => Ok((open, add_node(current, Node::Space))),
        FormatElement::HardSpace => Ok((open, add_node(current, Node::HardSpace))),
        FormatElement::Line(mode) => Ok((open, add_node(current, Node::Line(*mode)))),
        FormatElement::ExpandParent => Ok((open, add_node(current, Node::ExpandParent))),
        FormatElement::StaticText { text } => Ok((open, add_node(current, text_node(text)))),
        FormatElement::DynamicText { text } => Ok((open, add_node(current, text_node(text)))),
        FormatElement::LocatedTokenText { slice, .. } => Ok(
            (open, add_node(current, text_node(slice.as_str()))),
        ),
        FormatElement::LineSuffixBoundary => Ok(
            (open, add_node(current, Node::LineSuffixBoundary)),
        ),
        FormatElement::Interned(interned) => match build_nodes(interned.as_slice()) {
            Ok(nodes) => Ok((open, add_nodes(current, nodes))),
            Err(error) => Err(error),
        },
        FormatElement::BestFitting(best_fitting) => {
            if best_fitting.variants.len() < 2 {
                Err(
                    PrintError::MalformedBestFitting(
                        MalformedBestFittingError { variants: best_fitting.variants.len() },
                    ),
                )
            } else {
                match build_variants(&best_fitting.variants) {
                    Ok(variants) => {
                        let breaks = nodes_break(variants[0].as_slice());
                        assert(variants_layout(variants@)[0] == nodes_layout(variants@[0]@));
                        Ok((open, add_node(current, Node::BestFitting { variants, breaks })))
                    },
                    Err(error) => Err(error),
                }
            }
        },
        FormatElement::Tag(tag) => track_tag(open, current, *tag),
    }
}

/// Reads `elements` into their nested form.
pub fn build_nodes<'a, 'b>(elements: &'b [FormatElement<'a>]) -> (r: Result<
    Vec<Node<'b>>,
    PrintError,
>)
    ensures
        match r {
            Ok(nodes) => nodes_wf(nodes@) && layout_of(elements@) == Ok::<_, PrintError>(
                nodes_layout(nodes@),
            ),
            Err(error) => layout_of(elements@) == Err::<Seq<Layout>, _>(error),
        },
    decreases elements@, 1nat,
{
    let mut open: Vec<OpenNode<'b>> = Vec::new();
    let mut current: Vec<Node<'b>> = Vec::new();
    let mut i: usize = 0;
    proof {
        assert(open_regions(open@) =~= Seq::empty());
        assert(nodes_layout(current@) =~= Seq::empty());
    }
    while i < elements.len()
        invariant
            i <= elements.len(),
            open_wf(open@),
            nodes_wf(current@),
            track_elements(elements@, i as int, Tracking::start()) == Ok::<_, PrintError>(
                tracking_of(open@, current@),
            ),
        decreases elements.len() - i,
    {
        match track_step(open, current, &elements[i]) {
            Ok((open_after, current_after)) => {
                open = open_after;
                current = current_after;
            },
            Err(error) => {
                proof {
                    lemma_track_error(
                        elements@,
                        i + 1,
                        elements@.len() as int,
                        Tracking::start(),
                    );
                }
                return Err(error);
            },
        }
        i += 1;
    }
    if open.len() == 0 {
        Ok(current)
    } else {
        Err(
            PrintError::StructuralIntegrity(
                StructuralIntegrityError::UnclosedRegion { kind: open[open.len() - 1].tag.kind() },
            ),
        )
    }
}

} // verus!
