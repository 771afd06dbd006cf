//! A document: the elements of one formatted unit.

use super::tag::{LabelId, Tag, TagKind};
use super::{
    element_has_label, elements_will_break, slice_has_label, slice_will_break, FormatElement,
    FormatElements,
};
use vstd::prelude::*;

verus! {

/// The elements of one formatted unit, in the order in which they are printed.
#[derive(Debug, PartialEq, Eq)]
pub struct Document<'a> {
    pub elements: Vec<FormatElement<'a>>,
}

impl<'a> View for Document<'a> {
    type V = Seq<FormatElement<'a>>;

    open spec fn view(&self) -> Seq<FormatElement<'a>> {
        self.elements@
    }
}

impl<'a> Document<'a> {
    /// A document made of `elements`.
    pub fn new(elements: Vec<FormatElement<'a>>) -> (document: Self)
        ensures
            document@ == elements@,
    {
        Document { elements }
    }

    /// The elements of the document.
    pub fn elements(&self) -> (elements: &[FormatElement<'a>])
        ensures
            elements@ == self@,
    {
        self.elements.as_slice()
    }

    /// Takes the document apart.
    pub fn into_elements(self) -> (elements: Vec<FormatElement<'a>>)
        ensures
            elements@ == self@,
    {
        self.elements
    }
}

/// Whether one of `elements` is a line.
pub open spec fn elements_may_directly_break(elements: Seq<FormatElement>) -> bool {
    exists|i: int| 0 <= i < elements.len() && (#[trigger] elements[i]) is Line
}

/// The end tag of `kind` that `elements` end in.
pub open spec fn elements_end_tag(elements: Seq<FormatElement>, kind: TagKind) -> Option<Tag> {
    if elements.len() == 0 {
        None
    } else {
        match elements.last() {
            FormatElement::Tag(tag) => if tag.kind() == kind && tag.is_end() {
                Some(tag)
            } else {
                None
            },
            _ => None,
        }
    }
}

/// The start tag of `kind` that opens the region whose end is sought,
/// searched from the element before `before` towards the start; `depth`
/// counts the regions of `kind` that were entered from their end and not
/// yet left.
pub open spec fn matching_start(
    elements: Seq<FormatElement>,
    before: int,
    depth: nat,
    kind: TagKind,
) -> Option<Tag>
    decreases before,
{
    if before <= 0 || before > elements.len() {
        None
    } else {
        match elements[before - 1] {
            FormatElement::Tag(tag) => if tag.kind() != kind {
                matching_start(elements, before - 1, depth, kind)
            } else if tag.is_end() {
                matching_start(elements, before - 1, depth + 1, kind)
            } else if depth == 0 {
                None
            } else if depth == 1 {
                Some(tag)
            } else {
                matching_start(elements, before - 1, (depth - 1) as nat, kind)
            },
            _ => matching_start(elements, before - 1, depth, kind),
        }
    }
}

/// The start tag of the region of `kind` that `elements` end with, if they
/// end in an end tag of `kind` whose start tag stands among them.
pub open spec fn elements_start_tag(elements: Seq<FormatElement>, kind: TagKind) -> Option<Tag> {
    if elements_end_tag(elements, kind) is Some {
        matching_start(elements, elements.len() as int, 0, kind)
    } else {
        None
    }
}

impl<'a> FormatElements for Document<'a> {
    open spec fn will_break_spec(&self) -> bool {
        elements_will_break(self@)
    }

    open spec fn may_directly_break_spec(&self) -> bool {
        elements_may_directly_break(self@)
    }

    open spec fn has_label_spec(&self, label: LabelId) -> bool {
        self@.len() > 0 && element_has_label(self@[0], label)
    }

    open spec fn start_tag_spec(&self, kind: TagKind) -> Option<Tag> {
        elements_start_tag(self@, kind)
    }

    open spec fn end_tag_spec(&self, kind: TagKind) -> Option<Tag> {
        elements_end_tag(self@, kind)
    }

    fn will_break(&self) -> (r: bool) {
        slice_will_break(self.elements.as_slice())
    }

    fn may_directly_break(&self) -> (r: bool) {
        let mut i: usize = 0;
        while i < self.elements.len()
            invariant
                i <= self.elements.len(),
                forall|j: int| 0 <= j < i ==> !((#[trigger] self@[j]) is Line),
            decreases self.elements.len() - i,
        {
            if self.elements[i].is_line() {
                return true;
            }
            i += 1;
        }
        false
    }

    fn has_label(&self, label: LabelId) -> (r: bool) {
        slice_has_label(self.elements.as_slice(), label)
    }

    fn start_tag(&self, kind: TagKind) -> (tag: Option<&Tag>) {
        // Assert that the document ends at a tag with the specified kind;
        if self.end_tag(kind).is_none() {
            return None;
        }
        let mut depth: usize = 0;
        let mut before: usize = self.elements.len();
        while before > 0
            invariant
                before <= self.elements.len(),
                depth <= self.elements.len() - before,
                elements_start_tag(self@, kind) == matching_start(
                    self@,
                    before as int,
                    depth as nat,
                    kind,
                ),
            decreases before,
        {
            if let FormatElement::Tag(tag) = &self.elements[before - 1] {
                if tag.kind() == kind {
                    if tag.is_start() {
                        if depth == 0 {
                            return None;
                        } else if depth == 1 {
                            return Some(tag);
                        }
                        depth -= 1;
                    } else {
                        depth += 1;
                    }
                }
            }
            before -= 1;
        }
        None
    }

    fn end_tag(&self, kind: TagKind) -> (tag: Option<&Tag>) {
        if self.elements.len() == 0 {
            return None;
        }
        match &self.elements[self.elements.len() - 1] {
            FormatElement::Tag(tag) => {
                if tag.kind() == kind && tag.is_end() {
                    Some(tag)
                } else {
                    None
                }
            },
            _ => None,
        }
    }
}

} // verus!
