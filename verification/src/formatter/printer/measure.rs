//! How wide content is when it is printed on one line, and whether it fits.

use super::layout::{layouts_break, node_layout, nodes_break, nodes_layout, nodes_wf, Layout, Node};
use super::options::PrinterOptions;
use super::state::{PrintState, PrinterState};
use crate::formatter::format_element::tag::Tag;
use crate::formatter::format_element::LineMode;
use vstd::prelude::*;

verus! {

/// The number of columns that `layout` takes when it is printed flat. A
/// line suffix takes none, because it is printed later; content that is
/// only printed in an expanded group takes none; of a best fitting element
/// the most flat variant counts.
pub open spec fn flat_width(layout: Layout) -> nat
    decreases layout, 0nat,
{
    match layout {
        Layout::Space => 1,
        Layout::HardSpace => 1,
        Layout::Line(mode) => if mode is SoftOrSpace {
            1
        } else {
            0
        },
        Layout::Text(text) => text.len(),
        Layout::BestFitting(variants) => if variants.len() > 0 {
            flat_widths(variants[0], variants[0].len() as int)
        } else {
            0
        },
        Layout::Region(tag, children) => match tag {
            Tag::StartLineSuffix => 0,
            Tag::StartConditionalContent(condition) => if condition.mode is Flat {
                flat_widths(children, children.len() as int)
            } else {
                0
            },
            _ => flat_widths(children, children.len() as int),
        },
        _ => 0,
    }
}

/// The number of columns that the first `n` of `layouts` take when they are
/// printed flat.
pub open spec fn flat_widths(layouts: Seq<Layout>, n: int) -> nat
    decreases layouts, n,
{
    if n <= 0 || n > layouts.len() {
        0
    } else {
        flat_widths(layouts, n - 1) + flat_width(layouts[n - 1])
    }
}

/// Whether line suffixes may wait once `layout` is printed flat, given
/// whether they may before; `None` if printing `layout` flat could print a
/// line suffix, which its width does not account for.
pub open spec fn suffix_after(layout: Layout, pending: bool) -> Option<bool>
    decreases layout, 0nat,
{
    match layout {
        Layout::LineSuffixBoundary => if pending {
            None
        } else {
            Some(false)
        },
        Layout::BestFitting(variants) => if variants.len() > 0 {
            suffixes_after(variants[0], variants[0].len() as int, pending)
        } else {
            Some(pending)
        },
        Layout::Region(tag, children) => match tag {
            Tag::StartLineSuffix => Some(true),
            Tag::StartConditionalContent(condition) => if condition.mode is Flat {
                suffixes_after(children, children.len() as int, pending)
            } else {
                Some(pending)
            },
            _ => suffixes_after(children, children.len() as int, pending),
        },
        _ => Some(pending),
    }
}

/// [`suffix_after`] of the first `n` of `layouts`, one after the other.
pub open spec fn suffixes_after(layouts: Seq<Layout>, n: int, pending: bool) -> Option<bool>
    decreases layouts, n,
{
    if n <= 0 || n > layouts.len() {
        Some(pending)
    } else {
        match suffixes_after(layouts, n - 1, pending) {
            Some(before) => suffix_after(layouts[n - 1], before),
            None => None,
        }
    }
}

/// Whether `layouts` can be printed on the rest of the current line: nothing
/// in them forces a line break, printing them flat prints no line suffix,
/// and their width does not lead past the maximum line width.
pub open spec fn fits_flat(layouts: Seq<Layout>, state: PrintState, options: PrinterOptions) -> bool {
    &&& !layouts_break(layouts)
    &&& suffixes_after(layouts, layouts.len() as int, state.pending.len() > 0) is Some
    &&& state.column + flat_widths(layouts, layouts.len() as int) <= options.max_line_width
}

/// The flat width grows with the number of layouts that are counted.
pub proof fn lemma_flat_widths_monotonic(layouts: Seq<Layout>, i: int, n: int)
    requires
        0 <= i <= n <= layouts.len(),
    ensures
        flat_widths(layouts, i) <= flat_widths(layouts, n),
    decreases n - i,
{
    if i < n {
        lemma_flat_widths_monotonic(layouts, i, n - 1);
    }
}

/// Once printing flat could print a line suffix, it can for all that follows.
pub proof fn lemma_suffixes_blocked(layouts: Seq<Layout>, i: int, n: int, pending: bool)
    requires
        0 <= i <= n <= layouts.len(),
        suffixes_after(layouts, i, pending) is None,
    ensures
        suffixes_after(layouts, n, pending) is None,
    decreases n - i,
{
    if i < n {
        lemma_suffixes_blocked(layouts, i, n - 1, pending);
    }
}

/// What is left of a line while content is measured.
#[derive(Clone, Copy, Debug, PartialEq, Eq)]
pub struct Budget {
    /// The number of columns that are left.
    pub remaining: u16,
    /// Whether line suffixes may wait.
    pub pending: bool,
}

/// Takes the flat width of `node` off `budget`; `None` if the budget is too
/// small, or if printing `node` flat could print a line suffix.
pub fn measure_node<'a>(node: &Node<'a>, budget: Budget) -> (r: Option<Budget>)
    requires
        super::layout::node_wf(*node),
    ensures
        match r {
            Some(left) => {
                &&& flat_width(node_layout(*node)) <= budget.remaining
                &&& left.remaining == budget.remaining - flat_width(node_layout(*node))
                &&& suffix_after(node_layout(*node), budget.pending) == Some(left.pending)
            },
            None => flat_width(node_layout(*node)) > budget.remaining || suffix_after(
                node_layout(*node),
                budget.pending,
            ) is None,
        },
    decreases node, 0nat,
{
    match node {
        Node::Space | Node::HardSpace => take_columns(budget, 1),
        Node::Line(mode) => match mode {
            LineMode::SoftOrSpace => take_columns(budget, 1),
            _ => Some(budget),
        },
        Node::ExpandParent => Some(budget),
        Node::Text { width, .. } => take_columns(budget, *width),
        Node::LineSuffixBoundary => if budget.pending {
            None
        } else {
            Some(budget)
        },
        Node::BestFitting { variants, .. } => measure_nodes(variants[0].as_slice(), budget),
        Node::Region { tag, children, .. } => match tag {
            Tag::StartLineSuffix => Some(Budget { remaining: budget.remaining, pending: true }),
            Tag::StartConditionalContent(condition) => if condition.mode.is_flat() {
                measure_nodes(children.as_slice(), budget)
            } else {
                Some(budget)
            },
            _ => measure_nodes(children.as_slice(), budget),
        },
    }
}

fn take_columns(budget: Budget, width: u32) -> (r: Option<Budget>)
    ensures
        match r {
            Some(left) => width <= budget.remaining && left.remaining == budget.remaining - width
                && left.pending == budget.pending,
            None => width > budget.remaining,
        },
{
    if width > budget.remaining as u32 {
        None
    } else {
        Some(Budget { remaining: budget.remaining - width as u16, pending: budget.pending })
    }
}

/// Takes the flat width of `nodes` off `budget`; `None` if the budget is too
/// small, or if printing `nodes` flat could print a line suffix.
pub fn measure_nodes<'a>(nodes: &[Node<'a>], budget: Budget) -> (r: Option<Budget>)
    requires
        nodes_wf(nodes@),
    ensures
        match r {
            Some(left) => {
                &&& flat_widths(nodes_layout(nodes@), nodes@.len() as int) <= budget.remaining
                &&& left.remaining == budget.remaining - flat_widths(
                    nodes_layout(nodes@),
                    nodes@.len() as int,
                )
                &&& suffixes_after(nodes_layout(nodes@), nodes@.len() as int, budget.pending)
                    == Some(left.pending)
            },
            None => flat_widths(nodes_layout(nodes@), nodes@.len() as int) > budget.remaining
                || suffixes_after(nodes_layout(nodes@), nodes@.len() as int, budget.pending)
                is None,
        },
    decreases nodes@, 1nat,
{
    let ghost layouts = nodes_layout(nodes@);
    let mut left = budget;
    let mut i: usize = 0;
    while i < nodes.len()
        invariant
            i <= nodes.len(),
            nodes_wf(nodes@),
            layouts == nodes_layout(nodes@),
            flat_widths(layouts, i as int) <= budget.remaining,
            left.remaining == budget.remaining - flat_widths(layouts, i as int),
            suffixes_after(layouts, i as int, budget.pending) == Some(left.pending),
        decreases nodes.len() - i,
    {
        match measure_node(&nodes[i], left) {
            Some(after) => {
                left = after;
            },
            None => {
                proof {
                    lemma_flat_widths_monotonic(layouts, i + 1, nodes@.len() as int);
                    if suffixes_after(layouts, i + 1, budget.pending) is None {
                        lemma_suffixes_blocked(layouts, i + 1, nodes@.len() as int, budget.pending);
                    }
                }
                return None;
            },
        }
        i += 1;
    }
    Some(left)
}

/// Whether `nodes` can be printed on the rest of the current line.
pub fn nodes_fit<'a>(nodes: &[Node<'a>], state: &PrinterState, options: &PrinterOptions) -> (r: bool)
    requires
        nodes_wf(nodes@),
    ensures
        r == fits_flat(nodes_layout(nodes@), state@, *options),
{
    if nodes_break(nodes) || state.column > options.max_line_width as u32 {
        false
    } else {
        let budget = Budget {
            remaining: options.max_line_width - state.column as u16,
            pending: state.pending.len() > 0,
        };
        measure_nodes(nodes, budget).is_some()
    }
}

} // verus!
