//! The elements that a document is made of.

pub mod document;
pub mod tag;

use self::tag::{LabelId, Tag, TagKind};
use crate::formatter::text::{contains_newline, string_from_chars};
use crate::formatter::{TextSize, TokenText};
use crate::source_text::contains_char;
use std::borrow::Cow;
use std::rc::Rc;
use vstd::prelude::*;
use vstd::std_specs::cmp::PartialEqSpecImpl;

verus! {

/// Language agnostic IR for formatting source code.
#[derive(Debug, PartialEq, Eq)]
#[allow(inconsistent_fields)]
pub enum FormatElement<'a> {
    /// A space that is dropped at the start of a line.
    Space,
    /// A space that is always printed.
    HardSpace,
    /// A new line.
    Line(LineMode),
    /// Forces the parent group to print in expanded mode.
    ExpandParent,
    /// Token constructed by the formatter from a static string.
    StaticText { text: &'static str },
    /// Token constructed from the input source as a dynamic string.
    DynamicText { text: &'a str },
    /// A token for a text that is taken as is from the source code.
    LocatedTokenText {
        /// The start position of the token in the unformatted source code
        source_position: TextSize,
        /// The token text
        slice: TokenText,
    },
    /// Prevents that line suffixes move past this boundary.
    LineSuffixBoundary,
    /// An interned format element. Useful when the same content must be emitted multiple times.
    Interned(Interned<'a>),
    /// A list of different variants representing the same content. The printer picks the best
    /// fitting content. Line breaks inside of a best fitting don't propagate to parent groups.
    BestFitting(BestFittingElement<'a>),
    /// A [Tag] that marks the start/end of some content to which some special formatting is applied.
    Tag(Tag),
}

#[derive(Debug, Clone, Copy, PartialEq, Eq, Structural)]
pub enum LineMode {
    /// A space in a flat group, a line break in an expanded one.
    SoftOrSpace,
    /// Nothing in a flat group, a line break in an expanded one.
    Soft,
    /// Always a line break.
    Hard,
    /// Always an empty line.
    Empty,
}

impl LineMode {
    pub fn is_hard(self) -> (r: bool)
        ensures
            r == (self is Hard),
    {
        matches!(self, LineMode::Hard)
    }
}

#[derive(Debug, Clone, Copy, PartialEq, Eq, Structural)]
pub enum PrintMode {
    /// Omits any soft line breaks
    Flat,
    /// Prints soft line breaks as line breaks
    Expanded,
}

impl PrintMode {
    pub fn is_flat(self) -> (r: bool)
        ensures
            r == (self is Flat),
    {
        matches!(self, PrintMode::Flat)
    }

    pub fn is_expanded(self) -> (r: bool)
        ensures
            r == (self is Expanded),
    {
        matches!(self, PrintMode::Expanded)
    }
}

/// Content that is shared between the places that print it.
#[derive(Debug)]
pub struct Interned<'a>(pub Rc<Vec<FormatElement<'a>>>);

impl<'a> Interned<'a> {
    pub fn new(content: Vec<FormatElement<'a>>) -> (interned: Self)
        ensures
            interned@ == content@,
    {
        Interned(Rc::new(content))
    }

    /// The elements that are shared.
    pub open spec fn view(&self) -> Seq<FormatElement<'a>> {
        self.0@
    }

    pub fn as_slice(&self) -> (content: &[FormatElement<'a>])
        ensures
            content@ == self@,
    {
        self.0.as_slice()
    }
}

impl<'a> std::ops::Deref for Interned<'a> {
    type Target = [FormatElement<'a>];

    fn deref(&self) -> (content: &[FormatElement<'a>])
        ensures
            content@ == self@,
    {
        self.0.as_slice()
    }
}

/// Another handle to the allocation that `content` points to.
///
/// Trusted: `Rc::clone`, which hands out a new handle to the same
/// allocation, so that both see the same content.
#[verifier::external_body]
fn share<'a>(content: &Rc<Vec<FormatElement<'a>>>) -> (shared: Rc<Vec<FormatElement<'a>>>)
    ensures
        shared == *content,
{
    Rc::clone(content)
}

impl<'a> Clone for Interned<'a> {
    /// Another reference to the same content.
    fn clone(&self) -> (interned: Self)
        ensures
            interned == *self,
    {
        Interned(share(&self.0))
    }
}

/// Whether `a` and `b` are the same element, up to where the variants of
/// best fitting elements are stored.
pub open spec fn same_element(a: FormatElement, b: FormatElement) -> bool
    decreases a, 0nat,
{
    match a {
        FormatElement::BestFitting(best_fitting) => {
            &&& b is BestFitting
            &&& b->BestFitting_0.variants@.len() == best_fitting.variants@.len()
            &&& forall|i: int|
                0 <= i < best_fitting.variants@.len() ==> same_elements(
                    (#[trigger] best_fitting.variants@[i])@,
                    b->BestFitting_0.variants@[i]@,
                )
        },
        _ => a == b,
    }
}

/// Whether `a` and `b` are the same elements, one by one.
pub open spec fn same_elements(a: Seq<FormatElement>, b: Seq<FormatElement>) -> bool
    decreases a, 1nat,
{
    &&& a.len() == b.len()
    &&& forall|i: int| 0 <= i < a.len() ==> same_element(#[trigger] a[i], b[i])
}

/// A copy of `elements`; interned content is shared, not copied.
pub fn clone_elements<'a>(elements: &[FormatElement<'a>]) -> (copy: Vec<FormatElement<'a>>)
    ensures
        same_elements(elements@, copy@),
    decreases elements@, 1nat,
{
    let mut copy: Vec<FormatElement<'a>> = Vec::new();
    let mut i: usize = 0;
    while i < elements.len()
        invariant
            i <= elements.len(),
            copy@.len() == i,
            forall|j: int| 0 <= j < i ==> same_element(#[trigger] elements@[j], copy@[j]),
        decreases elements.len() - i,
    {
        copy.push(clone_element(&elements[i]));
        i += 1;
    }
    copy
}

fn clone_variants<'a>(variants: &Vec<Vec<FormatElement<'a>>>) -> (copy: Vec<Vec<FormatElement<'a>>>)
    ensures
        copy@.len() == variants@.len(),
        forall|i: int|
            0 <= i < variants@.len() ==> same_elements((#[trigger] variants@[i])@, copy@[i]@),
    decreases variants, 0nat,
{
    let mut copy: Vec<Vec<FormatElement<'a>>> = Vec::new();
    let mut i: usize = 0;
    while i < variants.len()
        invariant
            i <= variants.len(),
            copy@.len() == i,
            forall|j: int| 0 <= j < i ==> same_elements((#[trigger] variants@[j])@, copy@[j]@),
        decreases variants.len() - i,
    {
        copy.push(clone_elements(variants[i].as_slice()));
        i += 1;
    }
    copy
}

fn clone_element<'a>(element: &FormatElement<'a>) -> (copy: FormatElement<'a>)
    ensures
        same_element(*element, copy),
    decreases element, 0nat,
{
    match element {
        FormatElement::Space => FormatElement::Space,
        FormatElement::HardSpace => FormatElement::HardSpace,
        FormatElement::Line(mode) => FormatElement::Line(*mode),
        FormatElement::ExpandParent => FormatElement::ExpandParent,
        FormatElement::StaticText { text } => FormatElement::StaticText { text },
        FormatElement::DynamicText { text } => FormatElement::DynamicText { text },
        FormatElement::LocatedTokenText { source_position, slice } => {
            FormatElement::LocatedTokenText {
                source_position: *source_position,
                slice: TokenText { text: slice.text.clone() },
            }
        },
        FormatElement::LineSuffixBoundary => FormatElement::LineSuffixBoundary,
        FormatElement::Interned(interned) => FormatElement::Interned(interned.clone()),
        FormatElement::BestFitting(best_fitting) => FormatElement::BestFitting(
            BestFittingElement { variants: clone_variants(&best_fitting.variants) },
        ),
        FormatElement::Tag(tag) => FormatElement::Tag(*tag),
    }
}

impl<'a> Clone for BestFittingElement<'a> {
    /// A copy of the variants.
    fn clone(&self) -> (copy: Self)
        ensures
            same_element(FormatElement::BestFitting(*self), FormatElement::BestFitting(copy)),
    {
        BestFittingElement { variants: clone_variants(&self.variants) }
    }
}

impl<'a> Clone for FormatElement<'a> {
    /// A copy of the element; interned content is shared, not copied.
    fn clone(&self) -> (copy: Self)
        ensures
            same_element(*self, copy),
    {
        clone_element(self)
    }
}

/// Whether `a` and `b` are one allocation.
///
/// Trusted: `Rc::ptr_eq`. Two handles to one allocation see the same
/// content; nothing is claimed of handles to different allocations.
#[verifier::external_body]
fn same_allocation<'a>(a: &Rc<Vec<FormatElement<'a>>>, b: &Rc<Vec<FormatElement<'a>>>) -> (r: bool)
    ensures
        r ==> a@ == b@,
{
    Rc::ptr_eq(a, b)
}

impl<'a> PartialEq for Interned<'a> {
    /// Two interned elements are equal if they share their content, not if
    /// their contents are alike.
    fn eq(&self, other: &Interned<'a>) -> (r: bool)
        ensures
            r ==> self@ == other@,
    {
        same_allocation(&self.0, &other.0)
    }
}

impl<'a> PartialEqSpecImpl for Interned<'a> {
    open spec fn obeys_eq_spec() -> bool {
        false
    }

    open spec fn eq_spec(&self, other: &Interned<'a>) -> bool {
        self@ == other@
    }
}

impl<'a> Eq for Interned<'a> {}

pub const LINE_SEPARATOR: char = '\u{2028}';

pub const PARAGRAPH_SEPARATOR: char = '\u{2029}';

pub const LINE_TERMINATORS: [char; 3] = ['\r', LINE_SEPARATOR, PARAGRAPH_SEPARATOR];

/// `text` with each character of `terminators` replaced by a line feed; a
/// carriage return among them swallows the line feed that follows it.
pub open spec fn normalize_newlines_spec(text: Seq<char>, terminators: Seq<char>) -> Seq<char>
    decreases text.len(),
{
    if text.len() == 0 {
        Seq::empty()
    } else if terminators.contains(text[0]) {
        if text[0] == '\r' && text.len() > 1 && text[1] == '\n' {
            seq!['\n'] + normalize_newlines_spec(text.skip(2), terminators)
        } else {
            seq!['\n'] + normalize_newlines_spec(text.skip(1), terminators)
        }
    } else {
        seq![text[0]] + normalize_newlines_spec(text.skip(1), terminators)
    }
}

/// Whether some character of `text` is one of `terminators`.
pub open spec fn has_terminator(text: Seq<char>, terminators: Seq<char>) -> bool {
    exists|i: int| 0 <= i < text.len() && terminators.contains(#[trigger] text[i])
}

proof fn lemma_normalize_without_terminator(text: Seq<char>, terminators: Seq<char>)
    requires
        !has_terminator(text, terminators),
    ensures
        normalize_newlines_spec(text, terminators) == text,
    decreases text.len(),
{
    if text.len() > 0 {
        assert(!terminators.contains(text[0]));
        assert forall|i: int| 0 <= i < text.skip(1).len() implies !terminators.contains(
            #[trigger] text.skip(1)[i],
        ) by {
            assert(text.skip(1)[i] == text[i + 1]);
        }
        lemma_normalize_without_terminator(text.skip(1), terminators);
        assert(seq![text[0]] + text.skip(1) =~= text);
    } else {
        assert(text =~= Seq::empty());
    }
}

/// Replace the line terminators matching the provided list with "\n"
/// since its the only line break type supported by the printer
pub fn normalize_newlines<'a, const N: usize>(text: &'a str, terminators: [char; N]) -> (r: Cow<
    'a,
    str,
>)
    ensures
        r@ == normalize_newlines_spec(text@, terminators@),
        r matches Cow::Borrowed(_) <==> !has_terminator(text@, terminators@),
{
    let mut result: Vec<char> = Vec::new();
    let mut matched = false;
    let mut after_carriage_return = false;
    proof {
        assert(text@.skip(0) =~= text@);
        assert(result@ + text@ =~= text@);
        assert(result@ + normalize_newlines_spec(text@, terminators@) =~= normalize_newlines_spec(
            text@,
            terminators@,
        ));
    }
    for c in it: text.chars()
        invariant
            it.seq() == text@,
            matched == has_terminator(text@.take(it.index()), terminators@),
            after_carriage_return ==> it.index() > 0 && text@[it.index() - 1] == '\r'
                && terminators@.contains('\r'),
            result@ + (if after_carriage_return && it.index() < text@.len() && text@[it.index()]
                == '\n' {
                normalize_newlines_spec(text@.skip(it.index() + 1), terminators@)
            } else {
                normalize_newlines_spec(text@.skip(it.index()), terminators@)
            }) == normalize_newlines_spec(text@, terminators@),
    {
        let ghost i = it.index();
        let ghost before = result@;
        proof {
            assert(text@.skip(i)[0] == text@[i]);
            assert(text@.skip(i).skip(1) =~= text@.skip(i + 1));
            if i + 1 < text@.len() {
                assert(text@.skip(i).skip(2) =~= text@.skip(i + 2));
                assert(text@.skip(i)[1] == text@[i + 1]);
            }
            assert(text@.take(i + 1) =~= text@.take(i).push(text@[i]));
            if has_terminator(text@.take(i), terminators@) {
                let k = choose|k: int|
                    0 <= k < text@.take(i).len() && terminators@.contains(
                        #[trigger] text@.take(i)[k],
                    );
                assert(text@.take(i + 1)[k] == text@.take(i)[k]);
            }
            if has_terminator(text@.take(i + 1), terminators@) && !terminators@.contains(text@[i]) {
                let k = choose|k: int|
                    0 <= k < text@.take(i + 1).len() && terminators@.contains(
                        #[trigger] text@.take(i + 1)[k],
                    );
                assert(text@.take(i)[k] == text@.take(i + 1)[k]);
            }
            if terminators@.contains(text@[i]) {
                assert(text@.take(i + 1)[i] == text@[i]);
            }
            if after_carriage_return {
                assert(text@.take(i)[i - 1] == text@[i - 1]);
                assert(has_terminator(text@.take(i), terminators@));
            }
        }
        if after_carriage_return && c == '\n' {
            after_carriage_return = false;
        } else if contains_char(&terminators, c) {
            matched = true;
            result.push('\n');
            after_carriage_return = c == '\r';
            proof {
                assert(result@ =~= before + seq!['\n']);
            }
        } else {
            result.push(c);
            after_carriage_return = false;
            proof {
                assert(result@ =~= before + seq![c]);
            }
        }
    }
    proof {
        assert(text@.take(text@.len() as int) =~= text@);
        assert(text@.skip(text@.len() as int) =~= Seq::<char>::empty());
        assert(result@ + Seq::<char>::empty() =~= result@);
    }
    if matched {
        Cow::Owned(string_from_chars(result.as_slice()))
    } else {
        proof {
            lemma_normalize_without_terminator(text@, terminators@);
        }
        Cow::Borrowed(text)
    }
}

impl<'a> FormatElement<'a> {
    /// Returns `true` if self is a [FormatElement::Tag]
    pub fn is_tag(&self) -> (r: bool)
        ensures
            r == (self is Tag),
    {
        matches!(self, FormatElement::Tag(_))
    }

    /// Returns `true` if self is a [FormatElement::Tag] and [Tag::is_start] is `true`.
    pub fn is_start_tag(&self) -> (r: bool)
        ensures
            r == (self is Tag && self->Tag_0.is_start()),
    {
        match self {
            FormatElement::Tag(tag) => tag.is_start(),
            _ => false,
        }
    }

    /// Returns `true` if self is a [FormatElement::Tag] and [Tag::is_end] is `true`.
    pub fn is_end_tag(&self) -> (r: bool)
        ensures
            r == (self is Tag && self->Tag_0.is_end()),
    {
        match self {
            FormatElement::Tag(tag) => tag.is_end(),
            _ => false,
        }
    }

    pub fn is_text(&self) -> (r: bool)
        ensures
            r == (self is LocatedTokenText || self is DynamicText || self is StaticText),
    {
        matches!(
            self,
            FormatElement::LocatedTokenText { .. }
                | FormatElement::DynamicText { .. }
                | FormatElement::StaticText { .. }
        )
    }

    pub fn is_space(&self) -> (r: bool)
        ensures
            r == (self is Space),
    {
        matches!(self, FormatElement::Space)
    }

    pub fn is_line(&self) -> (r: bool)
        ensures
            r == (self is Line),
    {
        matches!(self, FormatElement::Line(_))
    }
}

/// Whether `element` is guaranteed to be printed over more than one line,
/// whatever surrounds it.
pub open spec fn element_will_break(element: FormatElement) -> bool
    decreases element, 0nat,
{
    match element {
        FormatElement::ExpandParent => true,
        FormatElement::Tag(Tag::StartGroup(group)) => !group.mode.is_flat(),
        FormatElement::Line(mode) => mode is Hard || mode is Empty,
        FormatElement::StaticText { text } => text@.contains('\n'),
        FormatElement::DynamicText { text } => text@.contains('\n'),
        FormatElement::LocatedTokenText { slice, .. } => slice.text@.contains('\n'),
        FormatElement::Interned(interned) => elements_will_break(interned.0@),
        FormatElement::BestFitting(best_fitting) => best_fitting.variants@.len() > 0
            && elements_will_break(best_fitting.variants@[0]@),
        FormatElement::LineSuffixBoundary
        | FormatElement::Space
        | FormatElement::Tag(_)
        | FormatElement::HardSpace => false,
    }
}

/// Whether a sequence of elements is guaranteed to be printed over more than
/// one line: whether one of its elements will break.
pub open spec fn elements_will_break(elements: Seq<FormatElement>) -> bool
    decreases elements, 1nat,
{
    exists|i: int| 0 <= i < elements.len() && element_will_break(#[trigger] elements[i])
}

/// Whether `element` opens the region labelled `label`, directly or as the
/// first element of interned content.
pub open spec fn element_has_label(element: FormatElement, label: LabelId) -> bool
    decreases element,
{
    match element {
        FormatElement::Tag(Tag::StartLabelled(actual)) => actual == label,
        FormatElement::Interned(interned) => interned.0@.len() > 0 && element_has_label(
            interned.0@[0],
            label,
        ),
        _ => false,
    }
}

/// Whether a sequence of elements is guaranteed to be printed over more than
/// one line: whether one of its elements will break.
pub fn slice_will_break<'a>(elements: &[FormatElement<'a>]) -> (r: bool)
    ensures
        r == elements_will_break(elements@),
    decreases elements@, 1nat,
{
    let mut i: usize = 0;
    while i < elements.len()
        invariant
            i <= elements.len(),
            forall|j: int| 0 <= j < i ==> !element_will_break(#[trigger] elements@[j]),
        decreases elements.len() - i,
    {
        if element_breaks(&elements[i]) {
            return true;
        }
        i += 1;
    }
    false
}

fn element_breaks<'a>(element: &FormatElement<'a>) -> (r: bool)
    ensures
        r == element_will_break(*element),
    decreases element, 0nat,
{
    match element {
        FormatElement::ExpandParent => true,
        FormatElement::Tag(Tag::StartGroup(group)) => !group.mode().is_flat(),
        FormatElement::Line(line_mode) => matches!(line_mode, LineMode::Hard | LineMode::Empty),
        FormatElement::StaticText { text } => contains_newline(text),
        FormatElement::DynamicText { text } => contains_newline(text),
        FormatElement::LocatedTokenText { slice, .. } => contains_newline(slice.as_str()),
        FormatElement::Interned(interned) => slice_will_break(interned.as_slice()),
        // Traverse into the most flat version because the content is guaranteed to expand when even
        // the most flat version contains some content that forces a break.
        FormatElement::BestFitting(best_fitting) => best_fitting.variants.len() > 0
            && slice_will_break(best_fitting.variants[0].as_slice()),
        FormatElement::LineSuffixBoundary
        | FormatElement::Space
        | FormatElement::Tag(_)
        | FormatElement::HardSpace => false,
    }
}

/// Whether the content starts the region labelled `label`.
pub fn slice_has_label<'a>(elements: &[FormatElement<'a>], label: LabelId) -> (r: bool)
    ensures
        r == (elements@.len() > 0 && element_has_label(elements@[0], label)),
    decreases elements@, 1nat,
{
    elements.len() > 0 && element_labelled(&elements[0], label)
}

fn element_labelled<'a>(element: &FormatElement<'a>, label: LabelId) -> (r: bool)
    ensures
        r == element_has_label(*element, label),
    decreases element, 0nat,
{
    match element {
        FormatElement::Tag(Tag::StartLabelled(actual)) => actual.value == label.value,
        FormatElement::Interned(interned) => slice_has_label(interned.as_slice(), label),
        _ => false,
    }
}

impl<'a> FormatElements for FormatElement<'a> {
    open spec fn will_break_spec(&self) -> bool {
        element_will_break(*self)
    }

    open spec fn may_directly_break_spec(&self) -> bool {
        self is Line
    }

    open spec fn has_label_spec(&self, label: LabelId) -> bool {
        element_has_label(*self, label)
    }

    open spec fn start_tag_spec(&self, kind: TagKind) -> Option<Tag> {
        None
    }

    open spec fn end_tag_spec(&self, kind: TagKind) -> Option<Tag> {
        match *self {
            FormatElement::Tag(tag) if tag.kind() == kind && tag.is_end() => Some(tag),
            _ => None,
        }
    }

    fn will_break(&self) -> (r: bool) {
        element_breaks(self)
    }

    fn may_directly_break(&self) -> (r: bool) {
        matches!(self, FormatElement::Line(_))
    }

    fn has_label(&self, label_id: LabelId) -> (r: bool) {
        element_labelled(self, label_id)
    }

    fn start_tag(&self, _kind: TagKind) -> (tag: Option<&Tag>) {
        None
    }

    fn end_tag(&self, kind: TagKind) -> (tag: Option<&Tag>) {
        match self {
            FormatElement::Tag(tag) => {
                if tag.kind() == kind && tag.is_end() {
                    Some(tag)
                } else {
                    None
                }
            },
            _ => None,
        }
    }
}

/// Provides the printer with different representations for the same element so that the printer
/// can pick the best fitting variant.
///
/// Best fitting is defined as the variant that takes the most horizontal space but fits on the line.
#[derive(Debug, PartialEq, Eq)]
pub struct BestFittingElement<'a> {
    /// The different variants for this element.
    /// The first element is the one that takes up the most space horizontally (the most flat),
    /// the last element takes up the least space horizontally.
    pub variants: Vec<Vec<FormatElement<'a>>>,
}

/// A best fitting element was built from fewer than two variants.
#[derive(Clone, Copy, Debug, PartialEq, Eq, Structural)]
pub struct MalformedBestFittingError {
    /// The number of variants that were supplied.
    pub variants: usize,
}

impl<'a> BestFittingElement<'a> {
    /// A best fitting element offers at least the most flat and the most
    /// expanded variant.
    pub open spec fn wf(&self) -> bool {
        self.variants@.len() >= 2
    }

    /// Creates a new best fitting IR with the given variants, or rejects
    /// them if there are fewer than two.
    pub fn new(variants: Vec<Vec<FormatElement<'a>>>) -> (r: Result<
        Self,
        MalformedBestFittingError,
    >)
        ensures
            match r {
                Ok(element) => variants@.len() >= 2 && element.variants == variants,
                Err(error) => variants@.len() < 2 && error.variants == variants@.len(),
            },
    {
        if variants.len() >= 2 {
            Ok(BestFittingElement { variants })
        } else {
            Err(MalformedBestFittingError { variants: variants.len() })
        }
    }

    /// Creates a new best fitting IR with the given variants, of which there
    /// must be at least two.
    pub fn from_vec_unchecked(variants: Vec<Vec<FormatElement<'a>>>) -> (element: Self)
        requires
            variants@.len() >= 2,
        ensures
            element.variants == variants,
            element.wf(),
    {
        BestFittingElement { variants }
    }

    /// Returns the most expanded variant
    pub fn most_expanded(&self) -> (variant: &[FormatElement<'a>])
        requires
            self.wf(),
        ensures
            variant@ == self.variants@.last()@,
    {
        self.variants[self.variants.len() - 1].as_slice()
    }

    pub fn variants(&self) -> (variants: &[Vec<FormatElement<'a>>])
        ensures
            variants@ == self.variants@,
    {
        self.variants.as_slice()
    }

    /// Returns the least expanded variant
    pub fn most_flat(&self) -> (variant: &[FormatElement<'a>])
        requires
            self.wf(),
        ensures
            variant@ == self.variants@.first()@,
    {
        self.variants[0].as_slice()
    }
}

pub trait FormatElements {
    /// Whether the element is guaranteed to break: it is or holds a hard or
    /// empty line, a text with a line feed, a marker that expands its
    /// parent, or a group that was built expanded.
    spec fn will_break_spec(&self) -> bool;

    /// Whether the element is itself a line.
    spec fn may_directly_break_spec(&self) -> bool;

    /// Whether the element starts the region labelled `label`.
    spec fn has_label_spec(&self, label: LabelId) -> bool;

    /// The start tag of `kind` that matches the end tag the element ends in.
    spec fn start_tag_spec(&self, kind: TagKind) -> Option<Tag>;

    /// The end tag of `kind` that the element ends in.
    spec fn end_tag_spec(&self, kind: TagKind) -> Option<Tag>;

    /// Returns true if this [FormatElement] is guaranteed to break across multiple lines by the printer.
    /// This is the case if this format element recursively contains a:
    /// * empty line or hard line break
    /// * A token containing '\n'
    ///
    /// Use this with caution, this is only a heuristic and the printer may print the element over multiple
    /// lines if this element is part of a group and the group doesn't fit on a single line.
    fn will_break(&self) -> (r: bool)
        ensures
            r == self.will_break_spec(),
    ;

    /// Returns true if this [FormatElement] has the potential to break across multiple lines when printed.
    /// This is the case _only_ if this format element recursively contains a [FormatElement::Line].
    ///
    /// It's possible for [FormatElements::will_break] to return true while this function returns false,
    /// such as when the group contains an expand-parent marker or some text within the group
    /// contains a newline. Neither of those cases directly contain a [FormatElement::Line], and so they
    /// do not _directly_ break.
    fn may_directly_break(&self) -> (r: bool)
        ensures
            r == self.may_directly_break_spec(),
    ;

    /// Returns true if the element has the given label.
    fn has_label(&self, label: LabelId) -> (r: bool)
        ensures
            r == self.has_label_spec(label),
    ;

    /// Returns the start tag of `kind` if:
    /// * the last element is an end tag of `kind`.
    /// * there's a matching start tag in this document (may not be true if this slice is an interned element and the `start` is in the document storing the interned element).
    fn start_tag(&self, kind: TagKind) -> (tag: Option<&Tag>)
        ensures
            match tag {
                Some(tag) => self.start_tag_spec(kind) == Some(*tag),
                None => self.start_tag_spec(kind) is None,
            },
    ;

    /// Returns the end tag if:
    /// * the last element is an end tag of `kind`
    fn end_tag(&self, kind: TagKind) -> (tag: Option<&Tag>)
        ensures
            match tag {
                Some(tag) => self.end_tag_spec(kind) == Some(*tag),
                None => self.end_tag_spec(kind) is None,
            },
    ;
}

} // verus!
