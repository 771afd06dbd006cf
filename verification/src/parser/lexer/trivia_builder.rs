//! Collects the comments of a source text and tells which token each belongs to.

use super::{Kind, Token};
use crate::linter::diagnostic::Span;
use crate::parser::comment::{
    Comment, CommentContent, CommentKind, CommentNewlines, CommentPosition,
};
use crate::source_text::{find_byte, lemma_positions_complete, lemma_positions_of, positions_of};
use vstd::prelude::*;
use vstd::slice::slice_subrange;
use vstd::string::StringSliceAdditionalSpecFns;
use vstd::utf8::encode_utf8;

verus! {

/// Whether the bytes `s` hold the text `text` from `at` on.
pub open spec fn holds_at(s: Seq<u8>, at: int, text: Seq<char>) -> bool {
    0 <= at && at + encode_utf8(text).len() <= s.len() && s.subrange(
        at,
        at + encode_utf8(text).len(),
    ) == encode_utf8(text)
}

/// Whether the bytes `s` start with the text `text`.
pub open spec fn starts_with(s: Seq<u8>, text: Seq<char>) -> bool {
    holds_at(s, 0, text)
}

fn matches_at(s: &[u8], at: usize, text: &str) -> (r: bool)
    ensures
        r == holds_at(s@, at as int, text@),
{
    let bytes = text.as_bytes();
    if at > s.len() || bytes.len() > s.len() - at {
        return false;
    }
    let mut i: usize = 0;
    while i < bytes.len()
        invariant
            i <= bytes.len(),
            at + bytes.len() <= s.len(),
            bytes@ == encode_utf8(text@),
            forall|k: int| 0 <= k < i ==> s@[at + k] == bytes@[k],
        decreases bytes.len() - i,
    {
        if s[at + i] != bytes[i] {
            proof {
                assert(s@.subrange(at as int, at + bytes@.len())[i as int] == s@[at + i]);
            }
            return false;
        }
        i += 1;
    }
    proof {
        assert(s@.subrange(at as int, at + bytes@.len()) =~= bytes@);
    }
    true
}

/// Whether the bytes `s` name a licence or ask to be preserved: whether
/// `@license` or `@preserve` stands in them, with at least nine bytes in all
/// and the `@` among all but the last eight.
pub open spec fn license_or_preserve(s: Seq<u8>) -> bool {
    s.len() >= 9 && exists|i: int|
        0 <= i < s.len() - 8 && #[trigger] s[i] == 0x40 && (holds_at(s, i + 1, "license"@)
            || holds_at(s, i + 1, "preserve"@))
}

pub fn contains_license_or_preserve_comment(hay: &[u8]) -> (r: bool)
    ensures
        r == license_or_preserve(hay@),
{
    if hay.len() < 9 {
        return false;
    }
    let search_len = hay.len() - 8;
    let searched = slice_subrange(hay, 0, search_len);
    let positions = find_byte(0x40, searched);
    proof {
        lemma_positions_of(searched@, 0x40, searched@.len() as int);
        lemma_positions_complete(searched@, 0x40, searched@.len() as int);
    }
    let mut k: usize = 0;
    while k < positions.len()
        invariant
            k <= positions.len(),
            hay@.len() >= 9,
            search_len == hay@.len() - 8,
            searched@ == hay@.subrange(0, search_len as int),
            positions@ == positions_of(searched@, 0x40, searched@.len() as int),
            forall|j: int|
                0 <= j < positions@.len() ==> (#[trigger] positions@[j]) < search_len
                    && searched@[positions@[j] as int] == 0x40,
            forall|j: int|
                0 <= j < k ==> !(holds_at(hay@, (#[trigger] positions@[j]) + 1, "license"@)
                    || holds_at(hay@, positions@[j] + 1, "preserve"@)),
        decreases positions.len() - k,
    {
        let i = positions[k];
        if matches_at(hay, i + 1, "license") || matches_at(hay, i + 1, "preserve") {
            proof {
                assert(searched@[i as int] == 0x40);
                assert(hay@[i as int] == searched@[i as int]);
            }
            return true;
        }
        k += 1;
    }
    proof {
        if license_or_preserve(hay@) {
            let i = choose|i: int|
                0 <= i < hay@.len() - 8 && #[trigger] hay@[i] == 0x40 && (holds_at(
                    hay@,
                    i + 1,
                    "license"@,
                ) || holds_at(hay@, i + 1, "preserve"@));
            assert(searched@[i] == hay@[i]);
            let j = choose|j: int| 0 <= j < positions@.len() && positions@[j] == i;
            assert(holds_at(hay@, positions@[j] + 1, "license"@) || holds_at(
                hay@,
                positions@[j] + 1,
                "preserve"@,
            ));
        }
    }
    false
}

/// Whether `byte` is a space, a tab, a line feed, a form feed or a
/// carriage return.
pub open spec fn is_ascii_whitespace(byte: u8) -> bool {
    byte == 0x20 || byte == 0x09 || byte == 0x0a || byte == 0x0c || byte == 0x0d
}

/// The number of white space bytes that `s` starts with at `from`.
pub open spec fn leading_whitespace(s: Seq<u8>, from: int) -> int
    decreases s.len() - from,
{
    if 0 <= from < s.len() && is_ascii_whitespace(s[from]) {
        leading_whitespace(s, from + 1)
    } else {
        from
    }
}

/// `s` without the white space that it starts with.
pub open spec fn trim_ascii_start(s: Seq<u8>) -> Seq<u8> {
    s.skip(leading_whitespace(s, 0))
}

/// Whether `s` holds nothing but asterisks.
pub open spec fn all_stars(s: Seq<u8>) -> bool {
    forall|i: int| 0 <= i < s.len() ==> #[trigger] s[i] == 0x2a
}

/// What a comment announces, and what it says of the code behind it.
pub struct Annotation {
    pub content: CommentContent,
    /// Whether the comment marks a call as free of side effects.
    pub pure_comment: bool,
    /// Whether the comment marks a function as free of side effects.
    pub no_side_effects_comment: bool,
}

/// What the text `s` says once `@` or `#` is taken off: `__PURE__` and
/// `__NO_SIDE_EFFECTS__` are the markers; anything else leaves `content`.
pub open spec fn marker(s: Seq<u8>, content: CommentContent) -> Annotation {
    if !starts_with(s, "__"@) {
        Annotation { content, pure_comment: false, no_side_effects_comment: false }
    } else {
        let pure_comment = starts_with(s.skip(2), "PURE__"@);
        let no_side_effects_comment = starts_with(s.skip(2), "NO_SIDE_EFFECTS__"@);
        Annotation {
            content: if no_side_effects_comment {
                CommentContent::NoSideEffects
            } else if pure_comment {
                CommentContent::Pure
            } else {
                content
            },
            pure_comment,
            no_side_effects_comment,
        }
    }
}

/// Whether `s` starts with `webpack` and an upper case letter.
pub open spec fn webpack_marker(s: Seq<u8>) -> bool {
    starts_with(s, "webpack"@) && s.len() > 7 && 0x41 <= s[7] <= 0x5a
}

/// Whether `s` starts as a comment does that takes code out of the coverage.
pub open spec fn coverage_marker(s: Seq<u8>) -> bool {
    ||| starts_with(s, "v8 ignore"@)
    ||| starts_with(s, "c8 ignore"@)
    ||| starts_with(s, "node:coverage"@)
    ||| starts_with(s, "istanbul ignore"@)
}

/// What a comment with the text `s` between its delimiters announces;
/// `content` is what it announced before, and stays where the text says
/// nothing.
pub open spec fn annotation(content: CommentContent, is_block: bool, s: Seq<u8>) -> Annotation {
    let silent = Annotation { content, pure_comment: false, no_side_effects_comment: false };
    if starts_with(s, "!"@) {
        Annotation { content: CommentContent::Legal, ..silent }
    } else if is_block && starts_with(s, "*"@) && !all_stars(s) {
        Annotation {
            content: if license_or_preserve(s) {
                CommentContent::JsdocLegal
            } else {
                CommentContent::Jsdoc
            },
            ..silent
        }
    } else {
        let t = trim_ascii_start(s);
        if starts_with(t, "@"@) {
            if starts_with(t.skip(1), "vite"@) {
                Annotation { content: CommentContent::Vite, ..silent }
            } else if starts_with(t.skip(1), "license"@) || starts_with(t.skip(1), "preserve"@) {
                Annotation { content: CommentContent::Legal, ..silent }
            } else {
                marker(t.skip(1), content)
            }
        } else if starts_with(t, "#"@) {
            marker(t.skip(1), content)
        } else if webpack_marker(t) {
            Annotation { content: CommentContent::Webpack, ..silent }
        } else if coverage_marker(t) {
            marker(t, CommentContent::CoverageIgnore)
        } else if license_or_preserve(t) {
            Annotation { content: CommentContent::Legal, ..silent }
        } else {
            silent
        }
    }
}

fn is_all_stars(s: &[u8]) -> (r: bool)
    ensures
        r == all_stars(s@),
{
    let mut i: usize = 0;
    while i < s.len()
        invariant
            i <= s.len(),
            forall|k: int| 0 <= k < i ==> #[trigger] s@[k] == 0x2a,
        decreases s.len() - i,
    {
        if s[i] != 0x2a {
            return false;
        }
        i += 1;
    }
    true
}

fn skip_bytes(s: &[u8], count: usize) -> (rest: &[u8])
    requires
        count <= s@.len(),
    ensures
        rest@ == s@.skip(count as int),
{
    let rest = slice_subrange(s, count, s.len());
    proof {
        assert(rest@ =~= s@.skip(count as int));
    }
    rest
}

fn trim_start(s: &[u8]) -> (rest: &[u8])
    ensures
        rest@ == trim_ascii_start(s@),
{
    let mut i: usize = 0;
    while i < s.len() && (s[i] == 0x20 || s[i] == 0x09 || s[i] == 0x0a || s[i] == 0x0c || s[i]
        == 0x0d)
        invariant
            i <= s.len(),
            leading_whitespace(s@, 0) == leading_whitespace(s@, i as int),
        decreases s.len() - i,
    {
        i += 1;
    }
    skip_bytes(s, i)
}

fn read_marker(s: &[u8], content: CommentContent) -> (r: Annotation)
    ensures
        r == marker(s@, content),
{
    if !matches_at(s, 0, "__") {
        return Annotation { content, pure_comment: false, no_side_effects_comment: false };
    }
    proof {
        assert(encode_utf8("__"@).len() == 2) by {
            reveal_strlit("__");
            reveal_with_fuel(encode_utf8, 3);
        }
    }
    let s = skip_bytes(s, 2);
    let pure_comment = matches_at(s, 0, "PURE__");
    let no_side_effects_comment = matches_at(s, 0, "NO_SIDE_EFFECTS__");
    Annotation {
        content: if no_side_effects_comment {
            CommentContent::NoSideEffects
        } else if pure_comment {
            CommentContent::Pure
        } else {
            content
        },
        pure_comment,
        no_side_effects_comment,
    }
}

proof fn lemma_one_ascii(text: &str)
    requires
        text@.len() == 1,
        text@[0] as u32 <= 0x7f,
    ensures
        encode_utf8(text@).len() == 1,
{
    reveal_with_fuel(encode_utf8, 2);
}

/// Reads what a comment with the text `s` between its delimiters announces.
pub fn read_annotation(content: CommentContent, is_block: bool, s: &[u8]) -> (r: Annotation)
    ensures
        r == annotation(content, is_block, s@),
{
    let silent = Annotation { content, pure_comment: false, no_side_effects_comment: false };
    if matches_at(s, 0, "!") {
        return Annotation { content: CommentContent::Legal, ..silent };
    }
    if is_block && matches_at(s, 0, "*") {
        // Ignore webpack comment `/*****/`
        if !is_all_stars(s) {
            if contains_license_or_preserve_comment(s) {
                return Annotation { content: CommentContent::JsdocLegal, ..silent };
            } else {
                return Annotation { content: CommentContent::Jsdoc, ..silent };
            }
        }
    }
    let s = trim_start(s);
    if matches_at(s, 0, "@") {
        proof {
            reveal_strlit("@");
            lemma_one_ascii("@");
        }
        let ss = skip_bytes(s, 1);
        if matches_at(ss, 0, "vite") {
            return Annotation { content: CommentContent::Vite, ..silent };
        }
        if matches_at(ss, 0, "license") || matches_at(ss, 0, "preserve") {
            return Annotation { content: CommentContent::Legal, ..silent };
        }
        read_marker(ss, content)
    } else if matches_at(s, 0, "#") {
        proof {
            reveal_strlit("#");
            lemma_one_ascii("#");
        }
        read_marker(skip_bytes(s, 1), content)
    } else if matches_at(s, 0, "webpack") && s.len() > 7 && 0x41 <= s[7] && s[7] <= 0x5a {
        Annotation { content: CommentContent::Webpack, ..silent }
    } else if matches_at(s, 0, "v8 ignore") || matches_at(s, 0, "c8 ignore") || matches_at(
        s,
        0,
        "node:coverage",
    ) || matches_at(s, 0, "istanbul ignore") {
        read_marker(s, CommentContent::CoverageIgnore)
    } else if contains_license_or_preserve_comment(s) {
        Annotation { content: CommentContent::Legal, ..silent }
    } else {
        silent
    }
}

#[derive(Debug)]
pub struct TriviaBuilder {
    // This is a set of unique comments. Duplicated
    // comments could be generated in case of rewind; they are
    // filtered out at insertion time.
    pub comments: Vec<Comment>,
    pub irregular_whitespaces: Vec<Span>,
    // states
    /// index of processed comments
    pub processed: usize,
    /// Saw a newline before this position
    pub saw_newline: bool,
    /// Previous token kind, used to indicates comments are trailing from what kind
    pub previous_kind: Kind,
    pub has_pure_comment: bool,
    pub has_no_side_effects_comment: bool,
}

/// The state of a trivia builder, as contracts see it.
pub struct Trivia {
    pub comments: Seq<Comment>,
    pub irregular_whitespaces: Seq<Span>,
    pub processed: usize,
    pub saw_newline: bool,
    pub previous_kind: Kind,
    pub has_pure_comment: bool,
    pub has_no_side_effects_comment: bool,
}

impl View for TriviaBuilder {
    type V = Trivia;

    open spec fn view(&self) -> Trivia {
        Trivia {
            comments: self.comments@,
            irregular_whitespaces: self.irregular_whitespaces@,
            processed: self.processed,
            saw_newline: self.saw_newline,
            previous_kind: self.previous_kind,
            has_pure_comment: self.has_pure_comment,
            has_no_side_effects_comment: self.has_no_side_effects_comment,
        }
    }
}

/// `comment`, followed by a line break.
pub open spec fn followed_by_newline(comment: Comment) -> Comment {
    Comment {
        newlines: CommentNewlines { leading: comment.newlines.leading, trailing: true },
        ..comment
    }
}

/// `comment`, leading to the token that starts at `start`.
pub open spec fn attached(comment: Comment, start: u32) -> Comment {
    Comment { position: CommentPosition::Leading, attached_to: start, ..comment }
}

impl Trivia {
    /// The state before anything is read: as if a line had just begun.
    pub open spec fn start() -> Trivia {
        Trivia {
            comments: Seq::empty(),
            irregular_whitespaces: Seq::empty(),
            processed: 0,
            saw_newline: true,
            previous_kind: Kind::Undetermined,
            has_pure_comment: false,
            has_no_side_effects_comment: false,
        }
    }

    /// No more comments are processed than there are.
    pub open spec fn wf(self) -> bool {
        self.processed <= self.comments.len()
    }

    /// The state after a line break behind a block comment or a token: the
    /// last comment, if it still waits for its token, is followed by a line
    /// break; if it stands on the line of the token before it, the comments
    /// that wait trail that token.
    pub open spec fn after_newline(self) -> Trivia {
        if self.processed < self.comments.len() {
            Trivia {
                comments: self.comments.update(
                    self.comments.len() - 1,
                    followed_by_newline(self.comments.last()),
                ),
                processed: if !self.saw_newline {
                    self.comments.len() as usize
                } else {
                    self.processed
                },
                saw_newline: true,
                ..self
            }
        } else {
            Trivia { saw_newline: true, ..self }
        }
    }

    /// The state after a token: the comments that wait lead to the token.
    pub open spec fn after_token(self, token: Token) -> Trivia {
        Trivia {
            comments: Seq::new(
                self.comments.len(),
                |i: int|
                    if i >= self.processed {
                        attached(self.comments[i], token.start)
                    } else {
                        self.comments[i]
                    },
            ),
            processed: if self.processed < self.comments.len() {
                self.comments.len() as usize
            } else {
                self.processed
            },
            previous_kind: token.kind,
            saw_newline: false,
            ..self
        }
    }

    /// Whether a line comment that comes now belongs to the token before
    /// it: it stands on the line of that token, and the token is neither
    /// `=` nor `(`.
    pub open spec fn treats_as_trailing(self) -> bool {
        !self.saw_newline && !(self.previous_kind is Eq || self.previous_kind is LParen)
    }

    /// The state after a comment whose text between the delimiters is
    /// `text`. A comment that does not start behind the last one was read
    /// before and is not kept again.
    pub open spec fn after_comment(self, comment: Comment, text: Seq<u8>) -> Trivia {
        let read = annotation(comment.content, comment.kind is Block, text);
        let noted = Trivia {
            has_pure_comment: self.has_pure_comment || read.pure_comment,
            has_no_side_effects_comment: self.has_no_side_effects_comment
                || read.no_side_effects_comment,
            ..self
        };
        if self.comments.len() > 0 && comment.span.start <= self.comments.last().span.start {
            noted
        } else if comment.kind is Line {
            Trivia {
                comments: self.comments.push(
                    Comment {
                        content: read.content,
                        newlines: CommentNewlines { leading: self.saw_newline, trailing: true },
                        ..comment
                    },
                ),
                processed: if self.treats_as_trailing() {
                    (self.comments.len() + 1) as usize
                } else {
                    self.processed
                },
                saw_newline: true,
                ..noted
            }
        } else {
            Trivia {
                comments: self.comments.push(
                    Comment {
                        content: read.content,
                        newlines: CommentNewlines {
                            leading: self.saw_newline,
                            trailing: comment.newlines.trailing,
                        },
                        ..comment
                    },
                ),
                ..noted
            }
        }
    }
}

/// The text between the delimiters of `comment` in `source`.
pub open spec fn comment_text(comment: Comment, source: Seq<u8>) -> Seq<u8> {
    source.subrange(comment.content_span().start as int, comment.content_span().end as int)
}

impl Default for TriviaBuilder {
    fn default() -> (builder: Self)
        ensures
            builder@ == Trivia::start(),
    {
        TriviaBuilder {
            comments: Vec::new(),
            irregular_whitespaces: Vec::new(),
            processed: 0,
            saw_newline: true,
            previous_kind: Kind::Undetermined,
            has_pure_comment: false,
            has_no_side_effects_comment: false,
        }
    }
}

impl TriviaBuilder {
    pub fn previous_token_has_pure_comment(&self) -> (r: bool)
        ensures
            r == self.has_pure_comment,
    {
        self.has_pure_comment
    }

    pub fn previous_token_has_no_side_effects_comment(&self) -> (r: bool)
        ensures
            r == self.has_no_side_effects_comment,
    {
        self.has_no_side_effects_comment
    }

    pub fn add_irregular_whitespace(&mut self, start: u32, end: u32)
        ensures
            final(self)@ == (Trivia {
                irregular_whitespaces: old(self)@.irregular_whitespaces.push(Span { start, end }),
                ..old(self)@
            }),
    {
        self.irregular_whitespaces.push(Span::new(start, end));
    }

    pub fn add_line_comment(&mut self, start: u32, end: u32, source_text: &str)
        requires
            start + 2 <= end <= source_text.spec_bytes().len(),
            old(self)@.wf(),
        ensures
            final(self)@ == old(self)@.after_comment(
                Comment::new(start, end, CommentKind::Line),
                comment_text(Comment::new(start, end, CommentKind::Line), source_text.spec_bytes()),
            ),
            final(self)@.wf(),
    {
        self.add_comment(Comment::new(start, end, CommentKind::Line), source_text);
    }

    pub fn add_block_comment(&mut self, start: u32, end: u32, source_text: &str)
        requires
            start + 4 <= end <= source_text.spec_bytes().len(),
            old(self)@.wf(),
        ensures
            final(self)@ == old(self)@.after_comment(
                Comment::new(start, end, CommentKind::Block),
                comment_text(Comment::new(start, end, CommentKind::Block), source_text.spec_bytes()),
            ),
            final(self)@.wf(),
    {
        self.add_comment(Comment::new(start, end, CommentKind::Block), source_text);
    }

    // For block comments only. This function is not called after line comments because the lexer skips
    // newline after line comments.
    pub fn handle_newline(&mut self)
        requires
            old(self)@.wf(),
        ensures
            final(self)@ == old(self)@.after_newline(),
            final(self)@.wf(),
    {
        // The last unprocessed comment is on a newline.
        let len = self.comments.len();
        if self.processed < len {
            let mut last = self.comments[len - 1];
            last.set_followed_by_newline(true);
            self.comments.set(len - 1, last);
            if !self.saw_newline {
                self.processed = self.comments.len();
            }
        }
        self.saw_newline = true;
    }

    pub fn handle_token(&mut self, token: Token)
        requires
            old(self)@.wf(),
        ensures
            final(self)@ == old(self)@.after_token(token),
            final(self)@.wf(),
    {
        let len = self.comments.len();
        self.previous_kind = token.kind();
        if self.processed < len {
            // All unprocessed preceding comments are leading comments attached to this token start.
            let mut i = self.processed;
            while i < len
                invariant
                    old(self)@.processed <= i <= len,
                    len == old(self)@.comments.len(),
                    self.comments@.len() == len,
                    self.processed == old(self).processed,
                    self.irregular_whitespaces == old(self).irregular_whitespaces,
                    self.has_pure_comment == old(self).has_pure_comment,
                    self.has_no_side_effects_comment == old(self).has_no_side_effects_comment,
                    self.previous_kind == token.kind,
                    forall|k: int|
                        0 <= k < len ==> self.comments@[k] == (if old(self)@.processed <= k < i {
                            attached(old(self)@.comments[k], token.start)
                        } else {
                            old(self)@.comments[k]
                        }),
                decreases len - i,
            {
                let mut comment = self.comments[i];
                comment.position = CommentPosition::Leading;
                comment.attached_to = token.start();
                self.comments.set(i, comment);
                i += 1;
            }
            self.processed = len;
        }
        self.saw_newline = false;
        proof {
            assert(self.comments@ =~= old(self)@.after_token(token).comments);
        }
    }

    /// Determines if the current line comment should be treated as a trailing comment.
    ///
    /// A line comment should be treated as trailing when both of the following conditions are met:
    ///
    /// 1. It is not preceded by a newline.
    ///
    /// 2. It does not immediately follow an `=` [`Kind::Eq`] or `(` [`Kind::LParen`]
    ///    token.
    pub fn should_be_treated_as_trailing_comment(&self) -> (r: bool)
        ensures
            r == self@.treats_as_trailing(),
    {
        !self.saw_newline && !matches!(self.previous_kind, Kind::Eq | Kind::LParen)
    }

    pub fn add_comment(&mut self, comment: Comment, source_text: &str)
        requires
            comment.wf(),
            comment.span.end <= source_text.spec_bytes().len(),
            old(self)@.wf(),
        ensures
            final(self)@ == old(self)@.after_comment(
                comment,
                comment_text(comment, source_text.spec_bytes()),
            ),
            final(self)@.wf(),
    {
        let mut comment = comment;
        self.parse_annotation(&mut comment, source_text);
        // The comments array is an ordered vec, only add the comment if its not added before,
        // to avoid situations where the parser needs to rewind and tries to reinsert the comment.
        let len = self.comments.len();
        if len > 0 {
            if comment.span.start <= self.comments[len - 1].span.start {
                return;
            }
        }
        // This newly added comment may be preceded by a newline.
        comment.set_preceded_by_newline(self.saw_newline);
        let trailing = comment.is_line() && self.should_be_treated_as_trailing_comment();
        if comment.is_line() {
            // A line comment is always followed by a newline. This is never set in `handle_newline`.
            comment.set_followed_by_newline(true);
            self.saw_newline = true;
        }
        self.comments.push(comment);
        if trailing {
            // All comments so far, this one included, trail the token before them.
            self.processed = self.comments.len();
        }
    }

    /// Parse Notation
    pub fn parse_annotation(&mut self, comment: &mut Comment, source_text: &str)
        requires
            old(comment).wf(),
            old(comment).span.end <= source_text.spec_bytes().len(),
        ensures
            *final(comment) == (Comment {
                content: annotation(
                    old(comment).content,
                    old(comment).kind is Block,
                    comment_text(*old(comment), source_text.spec_bytes()),
                ).content,
                ..*old(comment)
            }),
            final(self)@ == (Trivia {
                has_pure_comment: old(self).has_pure_comment || annotation(
                    old(comment).content,
                    old(comment).kind is Block,
                    comment_text(*old(comment), source_text.spec_bytes()),
                ).pure_comment,
                has_no_side_effects_comment: old(self).has_no_side_effects_comment || annotation(
                    old(comment).content,
                    old(comment).kind is Block,
                    comment_text(*old(comment), source_text.spec_bytes()),
                ).no_side_effects_comment,
                ..old(self)@
            }),
    {
        let span = comment.content_span();
        let s = slice_subrange(source_text.as_bytes(), span.start as usize, span.end as usize);
        let read = read_annotation(comment.content, comment.is_block(), s);
        comment.content = read.content;
        if read.pure_comment {
            self.has_pure_comment = true;
        }
        if read.no_side_effects_comment {
            self.has_no_side_effects_comment = true;
        }
    }
}

} // verus!
