//! What holds of everything the printer prints.

use super::layout::{layout_breaks, layouts_break, Layout};
use super::measure::{fits_flat, flat_width, flat_widths, suffix_after, suffixes_after};
use super::options::PrinterOptions;
use super::render::{
    chosen_variant, group_mode, lemma_first_fitting_in_range, print_layout, print_layouts,
    variant_mode,
};
use super::state::{PrintArgs, PrintState};
use crate::formatter::format_element::tag::{Group, Tag};
use crate::formatter::format_element::{LineMode, PrintMode};
use crate::formatter::text::clamp_add;
use vstd::prelude::*;

verus! {

/// Whether the printer went from `before` to `after` without leaving the
/// line: what was printed before is still there, at most `width` characters
/// were added, none of them a line feed, and the column moved on by no more
/// than the number of characters that were added.
pub open spec fn stays_on_line(before: PrintState, after: PrintState, width: int) -> bool {
    &&& before.out.len() <= after.out.len()
    &&& after.out.subrange(0, before.out.len() as int) == before.out
    &&& after.out.len() - before.out.len() <= width
    &&& after.column <= before.column + (after.out.len() - before.out.len())
    &&& forall|i: int| before.out.len() <= i < after.out.len() ==> after.out[i] != '\n'
}

proof fn lemma_stays_on_line_chain(
    first: PrintState,
    second: PrintState,
    third: PrintState,
    width: int,
    more: int,
)
    requires
        stays_on_line(first, second, width),
        stays_on_line(second, third, more),
    ensures
        stays_on_line(first, third, width + more),
{
    assert forall|i: int| 0 <= i < first.out.len() implies third.out[i] == first.out[i] by {
        assert(third.out.subrange(0, second.out.len() as int)[i] == third.out[i]);
        assert(second.out.subrange(0, first.out.len() as int)[i] == second.out[i]);
    }
    assert(third.out.subrange(0, first.out.len() as int) =~= first.out);
    assert forall|i: int| first.out.len() <= i < third.out.len() implies third.out[i] != '\n' by {
        if i < second.out.len() {
            assert(third.out.subrange(0, second.out.len() as int)[i] == third.out[i]);
        }
    }
}

proof fn lemma_stays_on_line_same(state: PrintState, after: PrintState)
    requires
        after.out == state.out,
        after.column <= state.column,
    ensures
        stays_on_line(state, after, 0),
{
    assert(after.out.subrange(0, state.out.len() as int) =~= state.out);
}

proof fn lemma_put_char_stays(state: PrintState, c: char)
    requires
        c != '\n',
    ensures
        stays_on_line(state, state.put_char(c), 1),
{
    assert(state.put_char(c).out.subrange(0, state.out.len() as int) =~= state.out);
}

/// A text without a line feed is printed as it stands.
pub proof fn lemma_put_text_single_line(
    state: PrintState,
    text: Seq<char>,
    n: int,
    options: PrinterOptions,
)
    requires
        0 <= n <= text.len(),
        !text.contains('\n'),
    ensures
        state.put_text(text, n, options).out == state.out + text.take(n),
        state.put_text(text, n, options).column == clamp_add(state.column, n) || (n == 0
            && state.put_text(text, n, options).column == state.column),
        state.put_text(text, n, options).pending == state.pending,
    decreases n,
{
    if n > 0 {
        lemma_put_text_single_line(state, text, n - 1, options);
        assert(text[n - 1] != '\n');
        assert(text.take(n) =~= text.take(n - 1).push(text[n - 1]));
        assert(state.put_text(text, n, options).out =~= state.out + text.take(n));
    } else {
        assert(state.out + text.take(0) =~= state.out);
    }
}

/// Line suffixes that may wait before a layout is printed flat may wait after it.
proof fn lemma_suffix_keeps_waiting(layout: Layout)
    requires
        suffix_after(layout, true) is Some,
    ensures
        suffix_after(layout, true) == Some(true),
    decreases layout, 0nat,
{
    match layout {
        Layout::BestFitting(variants) => {
            if variants.len() > 0 {
                lemma_suffixes_keep_waiting(variants[0], variants[0].len() as int);
            }
        },
        Layout::Region(tag, children) => {
            lemma_suffixes_keep_waiting(children, children.len() as int);
        },
        _ => {},
    }
}

proof fn lemma_suffixes_keep_waiting(layouts: Seq<Layout>, n: int)
    requires
        0 <= n <= layouts.len(),
    ensures
        suffixes_after(layouts, n, true) is Some ==> suffixes_after(layouts, n, true) == Some(true),
    decreases layouts, n,
{
    if n > 0 {
        lemma_suffixes_keep_waiting(layouts, n - 1);
        if suffixes_after(layouts, n, true) is Some {
            lemma_suffix_keeps_waiting(layouts[n - 1]);
        }
    }
}

/// What is printed flat stays on the line and is no wider than its flat
/// width: here for one layout that forces no line break and through which no
/// line suffix is printed. `pending` says whether line suffixes may wait.
pub proof fn lemma_flat_layout_stays_on_line(
    layout: Layout,
    args: PrintArgs,
    state: PrintState,
    options: PrinterOptions,
    pending: bool,
)
    requires
        args.mode is Flat,
        !layout_breaks(layout),
        state.pending.len() > 0 ==> pending,
        suffix_after(layout, pending) is Some,
    ensures
        stays_on_line(
            state,
            print_layout(layout, args, state, options),
            flat_width(layout) as int,
        ),
        print_layout(layout, args, state, options).pending.len() > 0 ==> suffix_after(
            layout,
            pending,
        )->0,
    decreases layout, 0nat,
{
    let after = print_layout(layout, args, state, options);
    match layout {
        Layout::Space => {
            if state.line_start {
                lemma_stays_on_line_same(state, after);
            } else {
                lemma_put_char_stays(state, ' ');
            }
        },
        Layout::HardSpace => {
            lemma_put_char_stays(state, ' ');
        },
        Layout::Line(mode) => {
            if mode is SoftOrSpace {
                lemma_put_char_stays(state, ' ');
            } else {
                lemma_stays_on_line_same(state, after);
            }
        },
        Layout::ExpandParent => {},
        Layout::Text(text) => {
            lemma_put_text_single_line(state, text, text.len() as int, options);
            assert(text.take(text.len() as int) =~= text);
            assert(after.out.subrange(0, state.out.len() as int) =~= state.out);
            assert forall|i: int| state.out.len() <= i < after.out.len() implies after.out[i]
                != '\n' by {
                assert(after.out[i] == text[i - state.out.len()]);
            }
        },
        Layout::LineSuffixBoundary => {
            assert(state.pending.len() == 0);
            assert(after.out =~= state.out);
            lemma_stays_on_line_same(state, after);
        },
        Layout::BestFitting(variants) => {
            if variants.len() < 2 {
                lemma_stays_on_line_same(state, after);
                if state.pending.len() > 0 {
                    lemma_suffix_keeps_waiting(layout);
                }
            } else {
                assert(chosen_variant(variants, args, state, options) == 0);
                assert(args.with_mode(variant_mode(variants, 0, args)) == args);
                lemma_flat_layouts_stay_on_line(
                    variants[0],
                    variants[0].len() as int,
                    args,
                    state,
                    options,
                    pending,
                );
            }
        },
        Layout::Region(tag, children) => {
            let n = children.len() as int;
            match tag {
                Tag::StartIndent => {
                    lemma_flat_layouts_stay_on_line(
                        children,
                        n,
                        args.indented(),
                        state,
                        options,
                        pending,
                    );
                },
                Tag::StartDedent(dedent) => {
                    lemma_flat_layouts_stay_on_line(
                        children,
                        n,
                        args.dedented(dedent),
                        state,
                        options,
                        pending,
                    );
                },
                Tag::StartGroup(group) => {
                    assert(group_mode(group, children, args, state, options) is Flat);
                    assert(args.with_mode(PrintMode::Flat) == args);
                    lemma_flat_layouts_stay_on_line(children, n, args, state, options, pending);
                },
                Tag::StartConditionalContent(condition) => {
                    if condition.mode == args.mode {
                        lemma_flat_layouts_stay_on_line(children, n, args, state, options, pending);
                    } else {
                        lemma_stays_on_line_same(state, after);
                    }
                },
                Tag::StartLineSuffix => {
                    lemma_stays_on_line_same(state, after);
                },
                Tag::StartLabelled(_) => {
                    lemma_flat_layouts_stay_on_line(children, n, args, state, options, pending);
                },
                Tag::StartFill => {
                    lemma_flat_layouts_stay_on_line(children, n, args, state, options, pending);
                },
                _ => {
                    lemma_stays_on_line_same(state, after);
                    if state.pending.len() > 0 {
                        lemma_suffix_keeps_waiting(layout);
                    }
                },
            }
        },
    }
}

/// What is printed flat stays on the line and is no wider than its flat
/// width: here for the first `n` of `layouts`, none of which forces a line
/// break and through which no line suffix is printed.
pub proof fn lemma_flat_layouts_stay_on_line(
    layouts: Seq<Layout>,
    n: int,
    args: PrintArgs,
    state: PrintState,
    options: PrinterOptions,
    pending: bool,
)
    requires
        args.mode is Flat,
        0 <= n <= layouts.len(),
        !layouts_break(layouts),
        state.pending.len() > 0 ==> pending,
        suffixes_after(layouts, n, pending) is Some,
    ensures
        stays_on_line(
            state,
            print_layouts(layouts, n, args, state, options),
            flat_widths(layouts, n) as int,
        ),
        print_layouts(layouts, n, args, state, options).pending.len() > 0 ==> suffixes_after(
            layouts,
            n,
            pending,
        )->0,
    decreases layouts, n,
{
    if n > 0 {
        let before = print_layouts(layouts, n - 1, args, state, options);
        lemma_flat_layouts_stay_on_line(layouts, n - 1, args, state, options, pending);
        let waiting = suffixes_after(layouts, n - 1, pending)->0;
        assert(!layout_breaks(layouts[n - 1]));
        lemma_flat_layout_stays_on_line(layouts[n - 1], args, before, options, waiting);
        lemma_stays_on_line_chain(
            state,
            before,
            print_layouts(layouts, n, args, state, options),
            flat_widths(layouts, n - 1) as int,
            flat_width(layouts[n - 1]) as int,
        );
    } else {
        lemma_stays_on_line_same(state, state);
    }
}

/// Width respect: a group that is printed flat because its content was
/// found to fit stays on the line on which it starts, and ends at or before
/// the maximum line width.
pub proof fn lemma_flat_group_respects_width(
    group: Group,
    children: Seq<Layout>,
    args: PrintArgs,
    state: PrintState,
    options: PrinterOptions,
)
    requires
        args.mode is Expanded,
        group_mode(group, children, args, state, options) is Flat,
    ensures
        ({
            let after = print_layout(
                Layout::Region(Tag::StartGroup(group), children),
                args,
                state,
                options,
            );
            &&& stays_on_line(state, after, options.max_line_width - state.column)
            &&& after.column <= options.max_line_width
        }),
{
    assert(fits_flat(children, state, options));
    lemma_flat_layouts_stay_on_line(
        children,
        children.len() as int,
        args.with_mode(PrintMode::Flat),
        state,
        options,
        state.pending.len() > 0,
    );
}

/// Width respect for best fitting elements: a variant that is printed
/// because it was found to fit stays on the line on which it starts, and
/// ends at or before the maximum line width.
pub proof fn lemma_fitting_variant_respects_width(
    variants: Seq<Seq<Layout>>,
    args: PrintArgs,
    state: PrintState,
    options: PrinterOptions,
)
    requires
        variants.len() >= 2,
        args.mode is Expanded,
        chosen_variant(variants, args, state, options) < variants.len() - 1,
    ensures
        ({
            let after = print_layout(Layout::BestFitting(variants), args, state, options);
            &&& stays_on_line(state, after, options.max_line_width - state.column)
            &&& after.column <= options.max_line_width
        }),
{
    lemma_best_fitting_prints_one_variant(variants, args, state, options);
    let chosen = chosen_variant(variants, args, state, options);
    lemma_flat_layouts_stay_on_line(
        variants[chosen],
        variants[chosen].len() as int,
        args.with_mode(PrintMode::Flat),
        state,
        options,
        state.pending.len() > 0,
    );
}

/// Expansion monotonicity: a group that holds a hard or empty line, a text
/// with a line feed, or a marker that expands its parent, is printed
/// expanded, whatever the width, the column and the context. So is a group
/// that holds such a group.
pub proof fn lemma_breaking_group_is_expanded(
    group: Group,
    children: Seq<Layout>,
    at: int,
    args: PrintArgs,
    state: PrintState,
    options: PrinterOptions,
)
    requires
        0 <= at < children.len(),
        layout_breaks(children[at]),
    ensures
        group_mode(group, children, args, state, options) is Expanded,
        layout_breaks(Layout::Region(Tag::StartGroup(group), children)),
{
}

/// What forces a line break: a hard or empty line, a text with a line feed,
/// a marker that expands its parent, and a region that holds one of these.
pub proof fn lemma_forced_breaks(mode: LineMode, text: Seq<char>, tag: Tag, children: Seq<Layout>)
    ensures
        mode is Hard || mode is Empty ==> layout_breaks(Layout::Line(mode)),
        text.contains('\n') ==> layout_breaks(Layout::Text(text)),
        layout_breaks(Layout::ExpandParent),
        layouts_break(children) ==> layout_breaks(Layout::Region(tag, children)),
{
}

/// Best-fitting exclusivity: a best fitting element is printed as exactly
/// one of its variants, in one mode, from the state that the printer was in
/// when it reached the element. The other variants leave no trace.
pub proof fn lemma_best_fitting_prints_one_variant(
    variants: Seq<Seq<Layout>>,
    args: PrintArgs,
    state: PrintState,
    options: PrinterOptions,
)
    requires
        variants.len() >= 2,
    ensures
        ({
            let chosen = chosen_variant(variants, args, state, options);
            &&& 0 <= chosen < variants.len()
            &&& print_layout(Layout::BestFitting(variants), args, state, options) == print_layouts(
                variants[chosen],
                variants[chosen].len() as int,
                args.with_mode(variant_mode(variants, chosen, args)),
                state,
                options,
            )
            &&& chosen < variants.len() - 1 ==> variant_mode(variants, chosen, args) is Flat
            &&& args.mode is Expanded && chosen < variants.len() - 1 ==> fits_flat(
                variants[chosen],
                state,
                options,
            )
            &&& args.mode is Expanded ==> forall|i: int|
                0 <= i < chosen ==> !fits_flat(#[trigger] variants[i], state, options)
        }),
{
    lemma_first_fitting_in_range(variants, 0, state, options);
    if args.mode is Expanded {
        lemma_first_fitting_is_first(variants, 0, state, options);
    }
}

proof fn lemma_first_fitting_is_first(
    variants: Seq<Seq<Layout>>,
    from: int,
    state: PrintState,
    options: PrinterOptions,
)
    requires
        variants.len() >= 1,
        0 <= from <= variants.len() - 1,
    ensures
        ({
            let chosen = super::render::first_fitting(variants, from, state, options);
            &&& from <= chosen < variants.len()
            &&& chosen < variants.len() - 1 ==> fits_flat(variants[chosen], state, options)
            &&& forall|i: int| from <= i < chosen ==> !fits_flat(#[trigger] variants[i], state, options)
        }),
    decreases variants.len() - from,
{
    if from < variants.len() - 1 && !fits_flat(variants[from], state, options) {
        lemma_first_fitting_is_first(variants, from + 1, state, options);
    }
}

/// Line-suffix ordering: the content of a line suffix is queued behind what
/// waits already and prints nothing by itself; a line break prints what
/// waits, in the order in which it was queued, before the line ending, and
/// a boundary prints what waits with nothing after it; behind either
/// nothing waits any more. At the end of the document, what still waits is
/// printed last.
pub proof fn lemma_line_suffix_order(
    children: Seq<Layout>,
    mode: LineMode,
    args: PrintArgs,
    state: PrintState,
    options: PrinterOptions,
)
    ensures
        ({
            let queued = print_layout(
                Layout::Region(Tag::StartLineSuffix, children),
                args,
                state,
                options,
            );
            &&& queued.out == state.out
            &&& state.pending.is_prefix_of(queued.pending)
        }),
        args.mode is Expanded || mode is Hard || mode is Empty ==> ({
            let broken = print_layout(Layout::Line(mode), args, state, options);
            &&& (state.out + state.pending + options.line_ending.chars()).is_prefix_of(broken.out)
            &&& broken.pending.len() == 0
        }),
        ({
            let flushed = print_layout(Layout::LineSuffixBoundary, args, state, options);
            &&& flushed.out == state.out + state.pending
            &&& flushed.pending.len() == 0
        }),
        state.finish() == state.out + state.pending,
{
    let queued = print_layout(Layout::Region(Tag::StartLineSuffix, children), args, state, options);
    assert(queued.pending.subrange(0, state.pending.len() as int) =~= state.pending);
    if args.mode is Expanded || mode is Hard || mode is Empty {
        let broken = print_layout(Layout::Line(mode), args, state, options);
        let head = state.out + state.pending + options.line_ending.chars();
        assert(broken.out.subrange(0, head.len() as int) =~= head);
    }
}

} // verus!
