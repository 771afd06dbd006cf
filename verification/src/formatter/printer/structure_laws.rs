//! What holds of the nested form of every element sequence.

use super::error::PrintError;
use super::laws::lemma_breaking_group_is_expanded;
use super::layout::{layout_breaks, layout_wf, layouts_break, layouts_wf, Layout};
use super::render::group_mode;
use super::state::{PrintArgs, PrintState};
use crate::formatter::format_element::tag::Group;
use crate::formatter::format_element::PrintMode;
use super::options::PrinterOptions;
use super::printed;
use super::structure::{
    layout_of, track_element, track_elements, variant_layouts, OpenRegion, Tracking,
};
use crate::formatter::format_element::tag::Tag;
use crate::formatter::format_element::{
    element_will_break, elements_will_break, same_element, same_elements, FormatElement, Interned,
};
use vstd::prelude::*;

verus! {

/// The state of the stack machine that has read, from the state `outer`,
/// what takes it from the start to `inner`.
pub open spec fn framed(outer: Tracking, inner: Tracking) -> Tracking {
    if inner.open.len() == 0 {
        Tracking { open: outer.open, current: outer.current + inner.current }
    } else {
        Tracking {
            open: outer.open + inner.open.update(
                0,
                OpenRegion { tag: inner.open[0].tag, before: outer.current + inner.open[0].before },
            ),
            current: inner.current,
        }
    }
}

proof fn lemma_framed_step(outer: Tracking, inner: Tracking, element: FormatElement)
    requires
        track_element(inner, element) is Ok,
    ensures
        track_element(framed(outer, inner), element) == Ok::<_, PrintError>(
            framed(outer, track_element(inner, element)->Ok_0),
        ),
{
    let after = track_element(inner, element)->Ok_0;
    let here = framed(outer, inner);
    let there = track_element(here, element);
    match element {
        FormatElement::Interned(interned) => {
            let layouts = layout_of(interned.0@)->Ok_0;
            assert((outer.current + inner.current) + layouts =~= outer.current + (inner.current
                + layouts));
            assert(there->Ok_0.open =~= framed(outer, after).open);
            assert(there->Ok_0.current =~= framed(outer, after).current);
        },
        FormatElement::Tag(tag) => {
            if tag.is_start() {
                assert(there->Ok_0.open =~= framed(outer, after).open);
                assert(there->Ok_0.current =~= framed(outer, after).current);
            } else {
                assert(inner.open.len() > 0);
                assert(here.open.last().tag == inner.open.last().tag);
                if inner.open.len() == 1 {
                    assert(here.open.last().before == outer.current + inner.open[0].before);
                    assert(here.open.drop_last() =~= outer.open);
                } else {
                    assert(here.open.last() == inner.open.last());
                    assert(here.open.drop_last() =~= framed(outer, after).open);
                }
                assert(there->Ok_0.open =~= framed(outer, after).open);
                assert(there->Ok_0.current =~= framed(outer, after).current);
            }
        },
        _ => {
            assert(there->Ok_0.open =~= framed(outer, after).open);
            assert(there->Ok_0.current =~= framed(outer, after).current);
        },
    }
}

/// Content that the stack machine reads from the start is read the same way
/// in the middle of other content.
pub proof fn lemma_framed_run(content: Seq<FormatElement>, n: int, outer: Tracking)
    requires
        0 <= n <= content.len(),
        track_elements(content, n, Tracking::start()) is Ok,
    ensures
        track_elements(content, n, outer) == Ok::<_, PrintError>(
            framed(outer, track_elements(content, n, Tracking::start())->Ok_0),
        ),
    decreases n,
{
    if n > 0 {
        lemma_framed_run(content, n - 1, outer);
        lemma_framed_step(
            outer,
            track_elements(content, n - 1, Tracking::start())->Ok_0,
            content[n - 1],
        );
    } else {
        assert(framed(outer, Tracking::start()).current =~= outer.current);
    }
}

/// Reading the start of a sequence does not depend on what follows.
pub proof fn lemma_track_prefix(
    head: Seq<FormatElement>,
    tail: Seq<FormatElement>,
    n: int,
    tracking: Tracking,
)
    requires
        0 <= n <= head.len(),
    ensures
        track_elements(head + tail, n, tracking) == track_elements(head, n, tracking),
    decreases n,
{
    if n > 0 {
        lemma_track_prefix(head, tail, n - 1, tracking);
        assert((head + tail)[n - 1] == head[n - 1]);
    }
}

/// Reading a sequence is reading its head, then its tail.
pub proof fn lemma_track_split(
    head: Seq<FormatElement>,
    tail: Seq<FormatElement>,
    n: int,
    tracking: Tracking,
)
    requires
        0 <= n <= tail.len(),
    ensures
        track_elements(head + tail, head.len() + n, tracking) == match track_elements(
            head,
            head.len() as int,
            tracking,
        ) {
            Ok(middle) => track_elements(tail, n, middle),
            Err(error) => Err(error),
        },
    decreases n,
{
    if n > 0 {
        lemma_track_split(head, tail, n - 1, tracking);
        assert((head + tail)[head.len() + n - 1] == tail[n - 1]);
    } else {
        lemma_track_prefix(head, tail, head.len() as int, tracking);
    }
}

/// A reference to interned content that nests by itself is read as the
/// content would be in its place.
pub proof fn lemma_interned_is_read_inline(
    before: Seq<FormatElement>,
    interned: Interned,
    after: Seq<FormatElement>,
)
    requires
        layout_of(interned@) is Ok,
    ensures
        layout_of(before + seq![FormatElement::Interned(interned)] + after) == layout_of(
            before + interned@ + after,
        ),
{
    let start = Tracking::start();
    let reference = seq![FormatElement::Interned(interned)];
    let content = interned@;
    lemma_track_split(before + reference, after, after.len() as int, start);
    lemma_track_split(before + content, after, after.len() as int, start);
    lemma_track_split(before, reference, 1, start);
    lemma_track_split(before, content, content.len() as int, start);
    match track_elements(before, before.len() as int, start) {
        Ok(middle) => {
            lemma_framed_run(content, content.len() as int, middle);
            assert(track_elements(reference, 0, middle) == Ok::<_, PrintError>(middle));
            assert(reference[0] == FormatElement::Interned(interned));
            assert(track_elements(reference, 1, middle) == track_element(middle, reference[0]));
        },
        Err(_) => {},
    }
}

/// Interning transparency: a document prints the same whether content that
/// nests by itself stands in it, or a reference to that content interned.
pub proof fn lemma_interning_is_transparent(
    before: Seq<FormatElement>,
    interned: Interned,
    after: Seq<FormatElement>,
    options: PrinterOptions,
)
    requires
        layout_of(interned@) is Ok,
    ensures
        printed(before + seq![FormatElement::Interned(interned)] + after, options) == printed(
            before + interned@ + after,
            options,
        ),
{
    lemma_interned_is_read_inline(before, interned, after);
}

/// Whether what the stack machine has read so far holds something that
/// forces a line break.
pub open spec fn tracking_breaks(tracking: Tracking) -> bool {
    layouts_break(tracking.current) || exists|i: int|
        0 <= i < tracking.open.len() && region_breaks(#[trigger] tracking.open[i])
}

/// Whether the start of an open region holds something that forces a line break.
pub open spec fn region_breaks(region: OpenRegion) -> bool {
    element_will_break(FormatElement::Tag(region.tag)) || layouts_break(region.before)
}

proof fn lemma_breaks_concat(head: Seq<Layout>, tail: Seq<Layout>)
    ensures
        layouts_break(head + tail) == (layouts_break(head) || layouts_break(tail)),
{
    if layouts_break(head) {
        let i = choose|i: int| 0 <= i < head.len() && layout_breaks(#[trigger] head[i]);
        assert((head + tail)[i] == head[i]);
    }
    if layouts_break(tail) {
        let i = choose|i: int| 0 <= i < tail.len() && layout_breaks(#[trigger] tail[i]);
        assert((head + tail)[head.len() + i] == tail[i]);
    }
    if layouts_break(head + tail) {
        let i = choose|i: int|
            0 <= i < (head + tail).len() && layout_breaks(#[trigger] (head + tail)[i]);
        if i < head.len() {
            assert((head + tail)[i] == head[i]);
        } else {
            assert((head + tail)[i] == tail[i - head.len()]);
        }
    }
}

proof fn lemma_breaks_push(head: Seq<Layout>, last: Layout)
    ensures
        layouts_break(head.push(last)) == (layouts_break(head) || layout_breaks(last)),
{
    lemma_breaks_concat(head, seq![last]);
    assert(head.push(last) =~= head + seq![last]);
    assert(seq![last][0] == last);
    if layouts_break(seq![last]) {
        let i = choose|i: int| 0 <= i < seq![last].len() && layout_breaks(#[trigger] seq![last][i]);
        assert(seq![last][i] == last);
    }
}

/// The nested forms of the variants are those of each variant.
pub proof fn lemma_variant_layouts(variants: Seq<Vec<FormatElement>>, n: int)
    requires
        0 <= n <= variants.len(),
        variant_layouts(variants, n) is Ok,
    ensures
        variant_layouts(variants, n)->Ok_0.len() == n,
        forall|i: int|
            0 <= i < n ==> layout_of(#[trigger] variants[i]@) == Ok::<_, PrintError>(
                variant_layouts(variants, n)->Ok_0[i],
            ),
    decreases n,
{
    if n > 0 {
        lemma_variant_layouts(variants, n - 1);
    }
}

proof fn lemma_step_breaks(tracking: Tracking, element: FormatElement)
    requires
        track_element(tracking, element) is Ok,
    ensures
        tracking_breaks(track_element(tracking, element)->Ok_0) == (tracking_breaks(tracking)
            || element_will_break(element)),
    decreases element, 0nat,
{
    let after = track_element(tracking, element)->Ok_0;
    match element {
        FormatElement::Interned(interned) => {
            lemma_layout_breaks_as_elements(interned.0@);
            lemma_breaks_concat(tracking.current, layout_of(interned.0@)->Ok_0);
        },
        FormatElement::BestFitting(best_fitting) => {
            let variants = best_fitting.variants@;
            lemma_variant_layouts(variants, variants.len() as int);
            lemma_layout_breaks_as_elements(variants[0]@);
            lemma_breaks_push(
                tracking.current,
                Layout::BestFitting(variant_layouts(variants, variants.len() as int)->Ok_0),
            );
        },
        FormatElement::Tag(tag) => {
            if tag.is_start() {
                let opened = OpenRegion { tag, before: tracking.current };
                assert(after.open.last() == opened);
                assert forall|i: int| 0 <= i < tracking.open.len() implies after.open[i]
                    == tracking.open[i] by {}
                if tracking_breaks(tracking) && !layouts_break(tracking.current) {
                    let i = choose|i: int|
                        0 <= i < tracking.open.len() && region_breaks(#[trigger] tracking.open[i]);
                    assert(region_breaks(after.open[i]));
                }
                if layouts_break(tracking.current) || element_will_break(element) {
                    assert(region_breaks(after.open[tracking.open.len() as int]));
                }
                if tracking_breaks(after) {
                    let i = choose|i: int|
                        0 <= i < after.open.len() && region_breaks(#[trigger] after.open[i]);
                    if i < tracking.open.len() {
                        assert(region_breaks(tracking.open[i]));
                    }
                }
            } else {
                let closed = tracking.open.last();
                lemma_breaks_push(closed.before, Layout::Region(closed.tag, tracking.current));
                assert forall|i: int| 0 <= i < after.open.len() implies after.open[i]
                    == tracking.open[i] by {}
                if tracking_breaks(after) && !layouts_break(after.current) {
                    let i = choose|i: int|
                        0 <= i < after.open.len() && region_breaks(#[trigger] after.open[i]);
                    assert(region_breaks(tracking.open[i]));
                }
                if layouts_break(after.current) && !layouts_break(tracking.current) {
                    assert(region_breaks(tracking.open[tracking.open.len() - 1]));
                }
                if tracking_breaks(tracking) && !layouts_break(tracking.current) {
                    let i = choose|i: int|
                        0 <= i < tracking.open.len() && region_breaks(#[trigger] tracking.open[i]);
                    if i < after.open.len() {
                        assert(region_breaks(after.open[i]));
                    }
                }
            }
        },
        FormatElement::Space => {
            lemma_breaks_push(tracking.current, Layout::Space);
        },
        FormatElement::HardSpace => {
            lemma_breaks_push(tracking.current, Layout::HardSpace);
        },
        FormatElement::Line(mode) => {
            lemma_breaks_push(tracking.current, Layout::Line(mode));
        },
        FormatElement::ExpandParent => {
            lemma_breaks_push(tracking.current, Layout::ExpandParent);
        },
        FormatElement::StaticText { text } => {
            lemma_breaks_push(tracking.current, Layout::Text(text@));
        },
        FormatElement::DynamicText { text } => {
            lemma_breaks_push(tracking.current, Layout::Text(text@));
        },
        FormatElement::LocatedTokenText { slice, .. } => {
            lemma_breaks_push(tracking.current, Layout::Text(slice.text@));
        },
        FormatElement::LineSuffixBoundary => {
            lemma_breaks_push(tracking.current, Layout::LineSuffixBoundary);
        },
    }
}

proof fn lemma_run_breaks(elements: Seq<FormatElement>, n: int)
    requires
        0 <= n <= elements.len(),
        track_elements(elements, n, Tracking::start()) is Ok,
    ensures
        tracking_breaks(track_elements(elements, n, Tracking::start())->Ok_0) == exists|i: int|
            0 <= i < n && element_will_break(#[trigger] elements[i]),
    decreases elements, n,
{
    if n > 0 {
        lemma_run_breaks(elements, n - 1);
        lemma_step_breaks(
            track_elements(elements, n - 1, Tracking::start())->Ok_0,
            elements[n - 1],
        );
        if exists|i: int| 0 <= i < n && element_will_break(#[trigger] elements[i]) {
            let i = choose|i: int| 0 <= i < n && element_will_break(#[trigger] elements[i]);
            if i < n - 1 {
                assert(element_will_break(elements[i]));
            }
        }
    }
}

/// A sequence of elements will break if and only if its nested form holds
/// something that forces a line break.
pub proof fn lemma_layout_breaks_as_elements(elements: Seq<FormatElement>)
    requires
        layout_of(elements) is Ok,
    ensures
        layouts_break(layout_of(elements)->Ok_0) == elements_will_break(elements),
    decreases elements, elements.len() + 1,
{
    lemma_run_breaks(elements, elements.len() as int);
}

/// Whether the stack machine has read nothing but what the printer can walk.
pub open spec fn tracking_wf(tracking: Tracking) -> bool {
    &&& layouts_wf(tracking.current)
    &&& forall|i: int|
        0 <= i < tracking.open.len() ==> (#[trigger] tracking.open[i]).tag.is_start()
            && layouts_wf(tracking.open[i].before)
}

proof fn lemma_variants_wf(variants: Seq<Vec<FormatElement>>, n: int)
    requires
        0 <= n <= variants.len(),
        variant_layouts(variants, n) is Ok,
    ensures
        forall|i: int| 0 <= i < n ==> layouts_wf(#[trigger] variant_layouts(variants, n)->Ok_0[i]),
    decreases variants, n,
{
    if n > 0 {
        lemma_variants_wf(variants, n - 1);
        lemma_variant_layouts(variants, n);
        lemma_layout_of_wf(variants[n - 1]@);
        let before = variant_layouts(variants, n - 1)->Ok_0;
        let now = variant_layouts(variants, n)->Ok_0;
        assert forall|i: int| 0 <= i < n implies layouts_wf(#[trigger] now[i]) by {
            if i < n - 1 {
                assert(now[i] == before[i]);
            }
        }
    }
}

proof fn lemma_step_wf(tracking: Tracking, element: FormatElement)
    requires
        tracking_wf(tracking),
        track_element(tracking, element) is Ok,
    ensures
        tracking_wf(track_element(tracking, element)->Ok_0),
    decreases element, 0nat,
{
    let after = track_element(tracking, element)->Ok_0;
    match element {
        FormatElement::Interned(interned) => {
            lemma_layout_of_wf(interned.0@);
            let layouts = layout_of(interned.0@)->Ok_0;
            assert forall|i: int| 0 <= i < after.current.len() implies layout_wf(
                #[trigger] after.current[i],
            ) by {
                if i < tracking.current.len() {
                    assert(after.current[i] == tracking.current[i]);
                } else {
                    assert(after.current[i] == layouts[i - tracking.current.len()]);
                }
            }
        },
        FormatElement::BestFitting(best_fitting) => {
            let variants = best_fitting.variants@;
            lemma_variant_layouts(variants, variants.len() as int);
            lemma_variants_wf(variants, variants.len() as int);
            assert forall|i: int| 0 <= i < after.current.len() implies layout_wf(
                #[trigger] after.current[i],
            ) by {
                if i < tracking.current.len() {
                    assert(after.current[i] == tracking.current[i]);
                }
            }
        },
        FormatElement::Tag(tag) => {
            if tag.is_start() {
                assert forall|i: int| 0 <= i < after.open.len() implies (#[trigger] after.open[i]).tag.is_start()
                    && layouts_wf(after.open[i].before) by {
                    if i < tracking.open.len() {
                        assert(after.open[i] == tracking.open[i]);
                    }
                }
            } else {
                let closed = tracking.open.last();
                assert(closed == tracking.open[tracking.open.len() - 1]);
                assert forall|i: int| 0 <= i < after.current.len() implies layout_wf(
                    #[trigger] after.current[i],
                ) by {
                    if i < closed.before.len() {
                        assert(after.current[i] == closed.before[i]);
                    }
                }
                assert forall|i: int| 0 <= i < after.open.len() implies (#[trigger] after.open[i]).tag.is_start()
                    && layouts_wf(after.open[i].before) by {
                    assert(after.open[i] == tracking.open[i]);
                }
            }
        },
        _ => {
            assert forall|i: int| 0 <= i < after.current.len() implies layout_wf(
                #[trigger] after.current[i],
            ) by {
                if i < tracking.current.len() {
                    assert(after.current[i] == tracking.current[i]);
                }
            }
        },
    }
}

proof fn lemma_run_wf(elements: Seq<FormatElement>, n: int)
    requires
        0 <= n <= elements.len(),
        track_elements(elements, n, Tracking::start()) is Ok,
    ensures
        tracking_wf(track_elements(elements, n, Tracking::start())->Ok_0),
    decreases elements, n,
{
    if n > 0 {
        lemma_run_wf(elements, n - 1);
        lemma_step_wf(track_elements(elements, n - 1, Tracking::start())->Ok_0, elements[n - 1]);
    }
}

/// The nested form of a sequence of elements is one that the printer can
/// walk: each region starts with a start tag, and each best fitting element
/// has at least two variants.
pub proof fn lemma_layout_of_wf(elements: Seq<FormatElement>)
    requires
        layout_of(elements) is Ok,
    ensures
        layouts_wf(layout_of(elements)->Ok_0),
    decreases elements, elements.len() + 1,
{
    lemma_run_wf(elements, elements.len() as int);
}

/// What stands between a start tag and the end tag of its kind is read as
/// one region, if it nests by itself.
pub proof fn lemma_region_is_read(
    start: Tag,
    content: Seq<FormatElement>,
    end: Tag,
    tracking: Tracking,
)
    requires
        start.is_start(),
        end.is_end(),
        start.kind() == end.kind(),
        layout_of(content) is Ok,
    ensures
        track_elements(
            seq![FormatElement::Tag(start)] + content + seq![FormatElement::Tag(end)],
            (content.len() + 2) as int,
            tracking,
        ) == Ok::<_, PrintError>(tracking.add(Layout::Region(start, layout_of(content)->Ok_0))),
{
    let opening = seq![FormatElement::Tag(start)];
    let closing = seq![FormatElement::Tag(end)];
    let opened = Tracking {
        open: tracking.open.push(OpenRegion { tag: start, before: tracking.current }),
        current: Seq::empty(),
    };
    let layouts = layout_of(content)->Ok_0;
    lemma_track_split(opening + content, closing, 1, tracking);
    lemma_track_split(opening, content, content.len() as int, tracking);
    assert(track_elements(opening, 0, tracking) == Ok::<_, PrintError>(tracking));
    assert(opening[0] == FormatElement::Tag(start));
    assert(track_element(tracking, FormatElement::Tag(start)) == Ok::<_, PrintError>(opened));
    assert(track_elements(opening, 1, tracking) == track_element(tracking, opening[0]));
    assert(track_elements(opening, 1, tracking) == Ok::<_, PrintError>(opened));
    lemma_framed_run(content, content.len() as int, opened);
    let filled = Tracking { open: opened.open, current: layouts };
    assert(framed(opened, track_elements(content, content.len() as int, Tracking::start())->Ok_0).current
        =~= layouts);
    assert(track_elements(opening + content, (content.len() + 1) as int, tracking) == Ok::<_, PrintError>(
        filled,
    ));
    assert(closing[0] == FormatElement::Tag(end));
    assert(track_elements(closing, 0, filled) == Ok::<_, PrintError>(filled));
    assert(filled.open.last().tag == start);
    assert(filled.open.drop_last() =~= tracking.open);
    assert(track_elements(closing, 1, filled) == track_element(filled, closing[0]));
}

/// Expansion monotonicity, of a document: a group whose elements will
/// break is read as a region that is printed expanded, whatever the width,
/// the column and the context.
pub proof fn lemma_group_of_breaking_elements_is_expanded(
    group: Group,
    content: Seq<FormatElement>,
    args: PrintArgs,
    state: PrintState,
    options: PrinterOptions,
)
    requires
        layout_of(content) is Ok,
        elements_will_break(content),
    ensures
        layout_of(
            seq![FormatElement::Tag(Tag::StartGroup(group))] + content + seq![
                FormatElement::Tag(Tag::EndGroup),
            ],
        ) == Ok::<_, PrintError>(
            seq![Layout::Region(Tag::StartGroup(group), layout_of(content)->Ok_0)],
        ),
        group_mode(group, layout_of(content)->Ok_0, args, state, options) == PrintMode::Expanded,
{
    let layouts = layout_of(content)->Ok_0;
    lemma_region_is_read(Tag::StartGroup(group), content, Tag::EndGroup, Tracking::start());
    assert(Tracking::start().add(Layout::Region(Tag::StartGroup(group), layouts)).current =~= seq![
        Layout::Region(Tag::StartGroup(group), layouts),
    ]);
    lemma_layout_breaks_as_elements(content);
    let at = choose|i: int| 0 <= i < layouts.len() && layout_breaks(#[trigger] layouts[i]);
    lemma_breaking_group_is_expanded(group, layouts, at, args, state, options);
}

proof fn lemma_same_variants(
    first: Seq<Vec<FormatElement>>,
    second: Seq<Vec<FormatElement>>,
    n: int,
)
    requires
        0 <= n <= first.len() == second.len(),
        forall|i: int| 0 <= i < first.len() ==> same_elements((#[trigger] first[i])@, second[i]@),
    ensures
        variant_layouts(first, n) == variant_layouts(second, n),
    decreases first, n,
{
    if n > 0 {
        lemma_same_variants(first, second, n - 1);
        assert(same_elements(first[n - 1]@, second[n - 1]@));
        lemma_same_elements_nest_alike(first[n - 1]@, second[n - 1]@);
    }
}

proof fn lemma_same_step(tracking: Tracking, first: FormatElement, second: FormatElement)
    requires
        same_element(first, second),
    ensures
        track_element(tracking, first) == track_element(tracking, second),
    decreases first, 0nat,
{
    match first {
        FormatElement::BestFitting(best_fitting) => {
            let other = second->BestFitting_0;
            lemma_same_variants(
                best_fitting.variants@,
                other.variants@,
                best_fitting.variants@.len() as int,
            );
        },
        _ => {},
    }
}

proof fn lemma_same_run(
    first: Seq<FormatElement>,
    second: Seq<FormatElement>,
    n: int,
    tracking: Tracking,
)
    requires
        same_elements(first, second),
        0 <= n <= first.len(),
    ensures
        track_elements(first, n, tracking) == track_elements(second, n, tracking),
    decreases first, n,
{
    if n > 0 {
        lemma_same_run(first, second, n - 1, tracking);
        match track_elements(first, n - 1, tracking) {
            Ok(before) => {
                assert(same_element(first[n - 1], second[n - 1]));
                lemma_same_step(before, first[n - 1], second[n - 1]);
            },
            Err(_) => {},
        }
    }
}

/// Elements that are the same, up to where the variants of best fitting
/// elements are stored, have the same nested form.
pub proof fn lemma_same_elements_nest_alike(first: Seq<FormatElement>, second: Seq<FormatElement>)
    requires
        same_elements(first, second),
    ensures
        layout_of(first) == layout_of(second),
    decreases first, first.len() + 1,
{
    lemma_same_run(first, second, first.len() as int, Tracking::start());
}

/// A copy of a document prints as the document does.
pub proof fn lemma_copy_prints_alike(
    first: Seq<FormatElement>,
    second: Seq<FormatElement>,
    options: PrinterOptions,
)
    requires
        same_elements(first, second),
    ensures
        printed(first, options) == printed(second, options),
{
    lemma_same_elements_nest_alike(first, second);
}

} // verus!
