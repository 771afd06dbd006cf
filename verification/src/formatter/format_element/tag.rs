//! Paired markers that delimit the regions of a document.

use super::PrintMode;
use vstd::prelude::*;

verus! {

/// The kind of region that a [`Tag`] opens or closes.
#[derive(Clone, Copy, Debug, PartialEq, Eq, Structural)]
pub enum TagKind {
    Indent,
    Dedent,
    Group,
    ConditionalContent,
    Fill,
    LineSuffix,
    Labelled,
}

/// Identifier of a labelled region, used to find it again later.
#[derive(Clone, Copy, Debug, PartialEq, Eq, Structural)]
pub struct LabelId {
    pub value: u64,
}

impl LabelId {
    pub fn new(value: u64) -> (id: Self)
        ensures
            id.value == value,
    {
        LabelId { value }
    }
}

/// Identity of a group.
#[derive(Clone, Copy, Debug, PartialEq, Eq, Structural)]
pub struct GroupId {
    pub value: u32,
}

impl GroupId {
    pub fn new(value: u32) -> (id: Self)
        ensures
            id.value == value,
    {
        GroupId { value }
    }
}

/// The break mode that a group was built with.
#[derive(Clone, Copy, Debug, PartialEq, Eq, Structural)]
pub enum GroupMode {
    /// The group may be printed on a single line if it fits.
    Flat,
    /// The group was built expanded.
    Expand,
    /// The group must expand because something inside it forces a break.
    Propagated,
}

impl GroupMode {
    pub open spec fn spec_is_flat(self) -> bool {
        self is Flat
    }

    #[verifier::when_used_as_spec(spec_is_flat)]
    pub fn is_flat(self) -> (r: bool)
        ensures
            r == (self is Flat),
    {
        matches!(self, GroupMode::Flat)
    }
}

/// A group: its optional identity and the mode it was built with.
#[derive(Clone, Copy, Debug, PartialEq, Eq)]
pub struct Group {
    pub id: Option<GroupId>,
    pub mode: GroupMode,
}

impl Group {
    pub fn new() -> (group: Self)
        ensures
            group.id is None,
            group.mode is Flat,
    {
        Group { id: None, mode: GroupMode::Flat }
    }

    pub fn with_id(self, id: Option<GroupId>) -> (group: Self)
        ensures
            group.id == id,
            group.mode == self.mode,
    {
        Group { id, mode: self.mode }
    }

    pub fn with_mode(self, mode: GroupMode) -> (group: Self)
        ensures
            group.id == self.id,
            group.mode == mode,
    {
        Group { id: self.id, mode }
    }

    pub fn mode(&self) -> (mode: GroupMode)
        ensures
            mode == self.mode,
    {
        self.mode
    }

    pub fn id(&self) -> (id: Option<GroupId>)
        ensures
            id == self.id,
    {
        self.id
    }
}

/// How far a dedent region moves the indentation back.
#[derive(Clone, Copy, Debug, PartialEq, Eq, Structural)]
pub enum DedentMode {
    /// One level less than the enclosing indentation.
    Level,
    /// Back to the start of the line.
    Root,
}

/// The mode in which conditional content is printed.
#[derive(Clone, Copy, Debug, PartialEq, Eq)]
pub struct Condition {
    pub mode: PrintMode,
}

impl Condition {
    pub fn new(mode: PrintMode) -> (condition: Self)
        ensures
            condition.mode == mode,
    {
        Condition { mode }
    }
}

/// Marks the start or the end of a region of a document.
#[derive(Clone, Copy, Debug, PartialEq, Eq)]
pub enum Tag {
    StartIndent,
    EndIndent,
    StartDedent(DedentMode),
    EndDedent,
    StartGroup(Group),
    EndGroup,
    StartConditionalContent(Condition),
    EndConditionalContent,
    StartFill,
    EndFill,
    StartLineSuffix,
    EndLineSuffix,
    StartLabelled(LabelId),
    EndLabelled,
}

impl Tag {
    pub open spec fn spec_is_start(&self) -> bool {
        match *self {
            Tag::StartIndent
            | Tag::StartDedent(_)
            | Tag::StartGroup(_)
            | Tag::StartConditionalContent(_)
            | Tag::StartFill
            | Tag::StartLineSuffix
            | Tag::StartLabelled(_) => true,
            _ => false,
        }
    }

    pub open spec fn spec_is_end(&self) -> bool {
        !self.spec_is_start()
    }

    pub open spec fn spec_kind(&self) -> TagKind {
        match *self {
            Tag::StartIndent | Tag::EndIndent => TagKind::Indent,
            Tag::StartDedent(_) | Tag::EndDedent => TagKind::Dedent,
            Tag::StartGroup(_) | Tag::EndGroup => TagKind::Group,
            Tag::StartConditionalContent(_) | Tag::EndConditionalContent => {
                TagKind::ConditionalContent
            },
            Tag::StartFill | Tag::EndFill => TagKind::Fill,
            Tag::StartLineSuffix | Tag::EndLineSuffix => TagKind::LineSuffix,
            Tag::StartLabelled(_) | Tag::EndLabelled => TagKind::Labelled,
        }
    }

    /// Returns `true` if the tag opens a region.
    #[verifier::when_used_as_spec(spec_is_start)]
    pub fn is_start(&self) -> (r: bool)
        ensures
            r == self.spec_is_start(),
    {
        matches!(
            self,
            Tag::StartIndent
                | Tag::StartDedent(_)
                | Tag::StartGroup(_)
                | Tag::StartConditionalContent(_)
                | Tag::StartFill
                | Tag::StartLineSuffix
                | Tag::StartLabelled(_)
        )
    }

    /// Returns `true` if the tag closes a region.
    #[verifier::when_used_as_spec(spec_is_end)]
    pub fn is_end(&self) -> (r: bool)
        ensures
            r == self.spec_is_end(),
    {
        !self.is_start()
    }

    /// The kind of region that the tag opens or closes.
    #[verifier::when_used_as_spec(spec_kind)]
    pub fn kind(&self) -> (kind: TagKind)
        ensures
            kind == self.spec_kind(),
    {
        match self {
            Tag::StartIndent | Tag::EndIndent => TagKind::Indent,
            Tag::StartDedent(_) | Tag::EndDedent => TagKind::Dedent,
            Tag::StartGroup(_) | Tag::EndGroup => TagKind::Group,
            Tag::StartConditionalContent(_) | Tag::EndConditionalContent => {
                TagKind::ConditionalContent
            },
            Tag::StartFill | Tag::EndFill => TagKind::Fill,
            Tag::StartLineSuffix | Tag::EndLineSuffix => TagKind::LineSuffix,
            Tag::StartLabelled(_) | Tag::EndLabelled => TagKind::Labelled,
        }
    }
}

} // verus!
