//! What each layout prints, and in which mode.

use super::layout::{
    layouts_break, node_layout, node_wf, nodes_layout, nodes_wf, variants_layout, Layout, Node,
};
use super::measure::{fits_flat, nodes_fit};
use super::options::PrinterOptions;
use super::state::{PrintArgs, PrintState, PrinterState};
use crate::formatter::format_element::tag::{Group, Tag};
use crate::formatter::format_element::{LineMode, PrintMode};
use vstd::prelude::*;
use vstd::slice::slice_subrange;

verus! {

/// The mode in which a group is printed. A group that was built expanded,
/// or that holds something that forces a line break, is expanded whatever
/// the width. Otherwise a group inside of a flat group is flat, and any
/// other group is flat if and only if its content fits on the rest of the line.
pub open spec fn group_mode(
    group: Group,
    children: Seq<Layout>,
    args: PrintArgs,
    state: PrintState,
    options: PrinterOptions,
) -> PrintMode {
    if !group.mode.is_flat() || layouts_break(children) {
        PrintMode::Expanded
    } else if args.mode is Flat {
        PrintMode::Flat
    } else if fits_flat(children, state, options) {
        PrintMode::Flat
    } else {
        PrintMode::Expanded
    }
}

/// The first variant at or after `from`, the last one aside, that fits on
/// the rest of the line; the last variant if there is none.
pub open spec fn first_fitting(
    variants: Seq<Seq<Layout>>,
    from: int,
    state: PrintState,
    options: PrinterOptions,
) -> int
    decreases variants.len() - from,
{
    if from < 0 || from >= variants.len() - 1 {
        variants.len() - 1
    } else if fits_flat(variants[from], state, options) {
        from
    } else {
        first_fitting(variants, from + 1, state, options)
    }
}

/// The variant that is picked is one of the variants.
pub proof fn lemma_first_fitting_in_range(
    variants: Seq<Seq<Layout>>,
    from: int,
    state: PrintState,
    options: PrinterOptions,
)
    requires
        variants.len() >= 1,
        0 <= from,
    ensures
        0 <= first_fitting(variants, from, state, options) < variants.len(),
        from <= variants.len() - 1 ==> from <= first_fitting(variants, from, state, options),
    decreases variants.len() - from,
{
    if from < variants.len() - 1 && !fits_flat(variants[from], state, options) {
        lemma_first_fitting_in_range(variants, from + 1, state, options);
    }
}

/// The variant of a best fitting element that is printed: the most flat one
/// inside of a flat group, else the first that fits.
pub open spec fn chosen_variant(
    variants: Seq<Seq<Layout>>,
    args: PrintArgs,
    state: PrintState,
    options: PrinterOptions,
) -> int {
    if args.mode is Flat {
        0
    } else {
        first_fitting(variants, 0, state, options)
    }
}

/// The mode in which variant `chosen` is printed: the last variant, when
/// none of the others fits, is printed expanded; any other is printed flat.
pub open spec fn variant_mode(variants: Seq<Seq<Layout>>, chosen: int, args: PrintArgs) -> PrintMode {
    if args.mode is Flat || chosen < variants.len() - 1 {
        PrintMode::Flat
    } else {
        PrintMode::Expanded
    }
}

/// The index of the first line at or after `from`, or the number of layouts.
pub open spec fn next_line(layouts: Seq<Layout>, from: int) -> int
    decreases layouts.len() - from,
{
    if from < 0 || from >= layouts.len() {
        layouts.len() as int
    } else if layouts[from] is Line {
        from
    } else {
        next_line(layouts, from + 1)
    }
}

/// The mode of the soft line at `at` in a fill: flat if the line and the
/// item that follows it, up to the next line, fit on the rest of the line.
pub open spec fn fill_separator_mode(
    children: Seq<Layout>,
    at: int,
    state: PrintState,
    options: PrinterOptions,
) -> PrintMode {
    if fits_flat(children.subrange(at, next_line(children, at + 1)), state, options) {
        PrintMode::Flat
    } else {
        PrintMode::Expanded
    }
}

/// The state after `layout` is printed in the context `args`.
pub open spec fn print_layout(
    layout: Layout,
    args: PrintArgs,
    state: PrintState,
    options: PrinterOptions,
) -> PrintState
    decreases layout, 0nat,
{
    match layout {
        Layout::Space => if state.line_start {
            state
        } else {
            state.put_char(' ')
        },
        Layout::HardSpace => state.put_char(' '),
        Layout::Line(mode) => if args.mode is Flat && (mode is Soft || mode is SoftOrSpace) {
            if mode is SoftOrSpace {
                state.put_char(' ')
            } else {
                state
            }
        } else {
            state.break_line(mode is Empty, args.indent, options)
        },
        Layout::ExpandParent => state,
        Layout::Text(text) => state.put_text(text, text.len() as int, options),
        Layout::LineSuffixBoundary => state.flush(),
        Layout::BestFitting(variants) => {
            let chosen = chosen_variant(variants, args, state, options);
            if variants.len() < 2 || chosen < 0 || chosen >= variants.len() {
                state
            } else {
                print_layouts(
                    variants[chosen],
                    variants[chosen].len() as int,
                    args.with_mode(variant_mode(variants, chosen, args)),
                    state,
                    options,
                )
            }
        },
        Layout::Region(tag, children) => match tag {
            Tag::StartIndent => print_layouts(
                children,
                children.len() as int,
                args.indented(),
                state,
                options,
            ),
            Tag::StartDedent(dedent) => print_layouts(
                children,
                children.len() as int,
                args.dedented(dedent),
                state,
                options,
            ),
            Tag::StartGroup(group) => print_layouts(
                children,
                children.len() as int,
                args.with_mode(group_mode(group, children, args, state, options)),
                state,
                options,
            ),
            Tag::StartConditionalContent(condition) => if condition.mode == args.mode {
                print_layouts(children, children.len() as int, args, state, options)
            } else {
                state
            },
            Tag::StartLineSuffix => state.defer(
                print_layouts(children, children.len() as int, args, state.suffix_start(), options),
            ),
            Tag::StartLabelled(_) => print_layouts(
                children,
                children.len() as int,
                args,
                state,
                options,
            ),
            Tag::StartFill => if args.mode is Flat {
                print_layouts(children, children.len() as int, args, state, options)
            } else {
                print_fill(children, children.len() as int, args, state, options)
            },
            _ => state,
        },
    }
}

/// The state after the first `n` of `layouts` are printed, one after the
/// other, in the context `args`.
pub open spec fn print_layouts(
    layouts: Seq<Layout>,
    n: int,
    args: PrintArgs,
    state: PrintState,
    options: PrinterOptions,
) -> PrintState
    decreases layouts, n,
{
    if n <= 0 || n > layouts.len() {
        state
    } else {
        print_layout(
            layouts[n - 1],
            args,
            print_layouts(layouts, n - 1, args, state, options),
            options,
        )
    }
}

/// The state after the first `n` children of an expanded fill are printed:
/// each soft line among them is flat or expanded by itself, see
/// [`fill_separator_mode`]; what stands between the lines is printed as in
/// an expanded group.
pub open spec fn print_fill(
    children: Seq<Layout>,
    n: int,
    args: PrintArgs,
    state: PrintState,
    options: PrinterOptions,
) -> PrintState
    decreases children, n,
{
    if n <= 0 || n > children.len() {
        state
    } else {
        let before = print_fill(children, n - 1, args, state, options);
        let mode = match children[n - 1] {
            Layout::Line(LineMode::Soft) | Layout::Line(LineMode::SoftOrSpace) => {
                fill_separator_mode(children, n - 1, before, options)
            },
            _ => args.mode,
        };
        print_layout(children[n - 1], args.with_mode(mode), before, options)
    }
}

/// The text that `layouts` are printed as.
pub open spec fn printed_text(layouts: Seq<Layout>, options: PrinterOptions) -> Seq<char> {
    print_layouts(
        layouts,
        layouts.len() as int,
        PrintArgs { indent: 0, mode: PrintMode::Expanded },
        PrintState::initial(),
        options,
    ).finish()
}

/// The layouts of a part of `nodes` are that part of the layouts of `nodes`.
pub proof fn lemma_layout_subrange(nodes: Seq<Node>, from: int, to: int)
    requires
        0 <= from <= to <= nodes.len(),
    ensures
        nodes_layout(nodes.subrange(from, to)) == nodes_layout(nodes).subrange(from, to),
{
    assert(nodes_layout(nodes.subrange(from, to)) =~= nodes_layout(nodes).subrange(from, to));
}

/// Prints `node` in the context `args`.
pub fn print_node<'a>(
    node: &Node<'a>,
    args: PrintArgs,
    state: &mut PrinterState,
    options: &PrinterOptions,
)
    requires
        node_wf(*node),
    ensures
        final(state)@ == print_layout(node_layout(*node), args, old(state)@, *options),
    decreases node, 0nat,
{
    match node {
        Node::Space => {
            if !state.line_start {
                state.put_char(' ');
            }
        },
        Node::HardSpace => {
            state.put_char(' ');
        },
        Node::Line(mode) => {
            if args.mode.is_flat() && matches!(mode, LineMode::Soft | LineMode::SoftOrSpace) {
                if matches!(mode, LineMode::SoftOrSpace) {
                    state.put_char(' ');
                }
            } else {
                state.break_line(matches!(mode, LineMode::Empty), args.indent, options);
            }
        },
        Node::ExpandParent => {},
        Node::Text { text, .. } => {
            state.put_text(text, options);
        },
        Node::LineSuffixBoundary => {
            state.flush();
        },
        Node::BestFitting { variants, .. } => {
            print_best_fitting(variants, args, state, options);
        },
        Node::Region { tag, children, .. } => {
            let children = children.as_slice();
            match tag {
                Tag::StartIndent => print_nodes(children, args.indented(), state, options),
                Tag::StartDedent(dedent) => print_nodes(
                    children,
                    args.dedented(*dedent),
                    state,
                    options,
                ),
                Tag::StartGroup(group) => {
                    let mode = resolve_group(group, children, args, state, options);
                    print_nodes(children, args.with_mode(mode), state, options)
                },
                Tag::StartConditionalContent(condition) => {
                    if condition.mode == args.mode {
                        print_nodes(children, args, state, options)
                    }
                },
                Tag::StartLineSuffix => {
                    let mut suffix = state.for_suffix();
                    print_nodes(children, args, &mut suffix, options);
                    state.defer(suffix);
                },
                Tag::StartLabelled(_) => print_nodes(children, args, state, options),
                Tag::StartFill => {
                    if args.mode.is_flat() {
                        print_nodes(children, args, state, options)
                    } else {
                        print_fill_nodes(children, args, state, options)
                    }
                },
                _ => {},
            }
        },
    }
}

/// Decides the mode in which a group is printed.
pub fn resolve_group<'a>(
    group: &Group,
    children: &[Node<'a>],
    args: PrintArgs,
    state: &PrinterState,
    options: &PrinterOptions,
) -> (mode: PrintMode)
    requires
        nodes_wf(children@),
    ensures
        mode == group_mode(*group, nodes_layout(children@), args, state@, *options),
{
    if !group.mode().is_flat() || super::layout::nodes_break(children) {
        PrintMode::Expanded
    } else if args.mode.is_flat() {
        PrintMode::Flat
    } else if nodes_fit(children, state, options) {
        PrintMode::Flat
    } else {
        PrintMode::Expanded
    }
}

/// Picks the variant of a best fitting element that is printed.
pub fn choose_variant<'a>(
    variants: &Vec<Vec<Node<'a>>>,
    args: PrintArgs,
    state: &PrinterState,
    options: &PrinterOptions,
) -> (chosen: usize)
    requires
        variants@.len() >= 2,
        forall|i: int| 0 <= i < variants@.len() ==> nodes_wf(#[trigger] variants@[i]@),
    ensures
        chosen < variants@.len(),
        chosen as int == chosen_variant(variants_layout(variants@), args, state@, *options),
{
    if args.mode.is_flat() {
        return 0;
    }
    let ghost layouts = variants_layout(variants@);
    let mut i: usize = 0;
    while i < variants.len() - 1
        invariant
            i <= variants@.len() - 1,
            variants@.len() >= 2,
            !(args.mode is Flat),
            layouts == variants_layout(variants@),
            forall|j: int| 0 <= j < variants@.len() ==> nodes_wf(#[trigger] variants@[j]@),
            first_fitting(layouts, 0, state@, *options) == first_fitting(
                layouts,
                i as int,
                state@,
                *options,
            ),
        decreases variants@.len() - i,
    {
        assert(layouts[i as int] == nodes_layout(variants@[i as int]@));
        if nodes_fit(variants[i].as_slice(), state, options) {
            return i;
        }
        i += 1;
    }
    i
}

fn print_best_fitting<'a>(
    variants: &Vec<Vec<Node<'a>>>,
    args: PrintArgs,
    state: &mut PrinterState,
    options: &PrinterOptions,
)
    requires
        variants@.len() >= 2,
        forall|i: int| 0 <= i < variants@.len() ==> nodes_wf(#[trigger] variants@[i]@),
    ensures
        final(state)@ == print_layout(
            Layout::BestFitting(variants_layout(variants@)),
            args,
            old(state)@,
            *options,
        ),
    decreases variants, 0nat,
{
    let chosen = choose_variant(variants, args, state, options);
    assert(variants_layout(variants@)[chosen as int] == nodes_layout(variants@[chosen as int]@));
    let mode = if args.mode.is_flat() || chosen < variants.len() - 1 {
        PrintMode::Flat
    } else {
        PrintMode::Expanded
    };
    print_nodes(variants[chosen].as_slice(), args.with_mode(mode), state, options);
}

/// Prints `nodes`, one after the other, in the context `args`.
pub fn print_nodes<'a>(
    nodes: &[Node<'a>],
    args: PrintArgs,
    state: &mut PrinterState,
    options: &PrinterOptions,
)
    requires
        nodes_wf(nodes@),
    ensures
        final(state)@ == print_layouts(
            nodes_layout(nodes@),
            nodes@.len() as int,
            args,
            old(state)@,
            *options,
        ),
    decreases nodes@, 1nat,
{
    let mut i: usize = 0;
    while i < nodes.len()
        invariant
            i <= nodes.len(),
            nodes_wf(nodes@),
            state@ == print_layouts(nodes_layout(nodes@), i as int, args, old(state)@, *options),
        decreases nodes.len() - i,
    {
        print_node(&nodes[i], args, state, options);
        i += 1;
    }
}

fn line_end<'a>(nodes: &[Node<'a>], from: usize) -> (end: usize)
    requires
        from <= nodes@.len(),
    ensures
        from <= end <= nodes@.len(),
        end as int == next_line(nodes_layout(nodes@), from as int),
{
    let mut i: usize = from;
    while i < nodes.len()
        invariant
            from <= i <= nodes.len(),
            next_line(nodes_layout(nodes@), from as int) == next_line(
                nodes_layout(nodes@),
                i as int,
            ),
        decreases nodes.len() - i,
    {
        if matches!(&nodes[i], Node::Line(_)) {
            return i;
        }
        i += 1;
    }
    i
}

/// Prints the children of an expanded fill.
fn print_fill_nodes<'a>(
    children: &[Node<'a>],
    args: PrintArgs,
    state: &mut PrinterState,
    options: &PrinterOptions,
)
    requires
        nodes_wf(children@),
    ensures
        final(state)@ == print_fill(
            nodes_layout(children@),
            children@.len() as int,
            args,
            old(state)@,
            *options,
        ),
    decreases children@, 1nat,
{
    let mut i: usize = 0;
    while i < children.len()
        invariant
            i <= children.len(),
            nodes_wf(children@),
            state@ == print_fill(nodes_layout(children@), i as int, args, old(state)@, *options),
        decreases children.len() - i,
    {
        let mode = match &children[i] {
            Node::Line(LineMode::Soft) | Node::Line(LineMode::SoftOrSpace) => {
                let end = line_end(children, i + 1);
                let item = slice_subrange(children, i, end);
                proof {
                    lemma_layout_subrange(children@, i as int, end as int);
                }
                if nodes_fit(item, state, options) {
                    PrintMode::Flat
                } else {
                    PrintMode::Expanded
                }
            },
            _ => args.mode,
        };
        print_node(&children[i], args.with_mode(mode), state, options);
        i += 1;
    }
}

} // verus!
