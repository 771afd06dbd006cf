//! Disallow unnecessary escape characters.

use crate::formatter::text::string_from_chars;
use crate::linter::config::{as_array, as_str, get_field, json_array, json_field, json_str};
use crate::linter::diagnostic::{report_views, Diagnostic, Fix, Report, ReportView, Span};
use serde_json::Value;
use vstd::string::StringExecFns;
use crate::source_text::{
    ascii_digit, byte_offset, char_at_byte, contains_char, find_char_at_byte, find_single,
    is_ascii_digit, lemma_byte_offset_ends, lemma_byte_offset_step, lemma_positions_of,
    positions_of, str_chars, utf8_len,
};
use vstd::prelude::*;
use vstd::slice::slice_subrange;
use vstd::string::StringSliceAdditionalSpecFns;
use vstd::utf8::encode_utf8;

verus! {

/// The characters that may follow a backslash in a string.
pub const VALID_STRING_ESCAPES: [char; 13] = [
    '\\',
    'n',
    'r',
    'v',
    't',
    'b',
    'f',
    'u',
    'x',
    '\n',
    '\r',
    '\u{2028}',
    '\u{2029}',
];

/// Whether the backslash before `c` in a template is unnecessary, where
/// `prev` is the last character before the backslash that was not itself a
/// backslash, and `next` is the character after `c`.
pub open spec fn useless_template_escape(c: char, prev: char, next: Option<char>) -> bool {
    if is_ascii_digit(c) || c == '`' {
        false
    } else if c == '{' {
        prev != '$'
    } else if c == '$' {
        next is Some && next->0 != '{'
    } else {
        !VALID_STRING_ESCAPES@.contains(c)
    }
}

/// What is known after a part of a template was read.
pub struct TemplateScan {
    /// The offsets of the unnecessarily escaped characters found so far.
    pub offsets: Seq<usize>,
    /// Whether the last character was a backslash that escapes the next.
    pub in_escape: bool,
    /// The last character that was not an escaping backslash.
    pub prev_non_escape_char: char,
}

/// What is known after the first `n` characters of a template were read. An
/// offset is that of the escaped character in the template, counted in
/// bytes from the character before the text.
pub open spec fn scan_template(text: Seq<char>, n: int) -> TemplateScan
    decreases n,
{
    if n <= 0 || n > text.len() {
        TemplateScan { offsets: Seq::empty(), in_escape: false, prev_non_escape_char: '`' }
    } else {
        let before = scan_template(text, n - 1);
        let c = text[n - 1];
        if before.in_escape {
            let next = if n < text.len() {
                Some(text[n])
            } else {
                None
            };
            TemplateScan {
                offsets: if useless_template_escape(c, before.prev_non_escape_char, next) {
                    before.offsets.push((byte_offset(text, n - 1) + 1) as usize)
                } else {
                    before.offsets
                },
                in_escape: false,
                prev_non_escape_char: c,
            }
        } else if c == '\\' {
            TemplateScan { in_escape: true, ..before }
        } else {
            TemplateScan { prev_non_escape_char: c, ..before }
        }
    }
}

/// The offsets of the unnecessarily escaped characters of a template.
pub open spec fn template_offsets(text: Seq<char>) -> Seq<usize> {
    if encode_utf8(text).len() <= 1 {
        Seq::empty()
    } else {
        scan_template(text, text.len() as int).offsets
    }
}

/// Finds the characters of a template that are escaped without need.
pub fn check_template(string: &str) -> (offsets: Vec<usize>)
    ensures
        offsets@ == template_offsets(string@),
{
    let byte_len = string.as_bytes().len();
    if byte_len <= 1 {
        return Vec::new();
    }
    let chars = str_chars(string);
    let mut offsets: Vec<usize> = Vec::new();
    let mut in_escape = false;
    let mut prev_non_escape_char = '`';
    let mut start: usize = 0;
    let mut i: usize = 0;
    proof {
        lemma_byte_offset_ends(string@);
    }
    while i < chars.len()
        invariant
            i <= chars.len(),
            chars@ == string@,
            byte_len == encode_utf8(string@).len(),
            start == byte_offset(string@, i as int),
            scan_template(string@, i as int) == (TemplateScan {
                offsets: offsets@,
                in_escape,
                prev_non_escape_char,
            }),
        decreases chars.len() - i,
    {
        let c = chars[i];
        let len = c.len_utf8();
        proof {
            lemma_byte_offset_step(string@, i as int);
        }
        if in_escape {
            in_escape = false;
            let useless = if ascii_digit(c) || c == '`' {
                false
            } else if c == '{' {
                prev_non_escape_char != '$'
            } else if c == '$' {
                i + 1 < chars.len() && chars[i + 1] != '{'
            } else {
                !contains_char(&VALID_STRING_ESCAPES, c)
            };
            if useless {
                offsets.push(start + 1);
            }
            prev_non_escape_char = c;
        } else if c == '\\' {
            in_escape = true;
        } else {
            prev_non_escape_char = c;
        }
        start += len;
        i += 1;
    }
    offsets
}

/// Whether the backslash before `c` in a string is unnecessary, where the
/// string is quoted by `quote`, the backslash stands at `offset`, and
/// `prev_offset` is where the backslash before it stands.
pub open spec fn useless_string_escape(
    c: char,
    quote: char,
    offset: usize,
    prev_offset: Option<usize>,
) -> bool {
    !(c == quote || (offset > 0 && prev_offset == Some((offset - 1) as usize)) || is_ascii_digit(c)
        || VALID_STRING_ESCAPES@.contains(c))
}

/// The character behind the backslash that stands at `offset` of what the
/// quotes of the string `text` enclose, if the string goes on behind it.
pub open spec fn escaped_char(text: Seq<char>, offset: usize) -> Option<char> {
    if offset + 3 < encode_utf8(text).len() {
        char_at_byte(text, offset + 2)
    } else {
        None
    }
}

/// What is known after a part of the backslashes of a string was looked at.
pub struct StringScan {
    /// The offsets of the unnecessarily escaped characters found so far.
    pub offsets: Seq<usize>,
    /// Where the last backslash stands.
    pub prev_offset: Option<usize>,
}

/// What is known after the first `n` of the backslashes of the string
/// `text`, which stand at `escapes`, were looked at. An offset is that of
/// the escaped character in the string, in bytes.
pub open spec fn scan_string(text: Seq<char>, escapes: Seq<usize>, n: int) -> StringScan
    decreases n,
{
    if n <= 0 || n > escapes.len() || text.len() == 0 {
        StringScan { offsets: Seq::empty(), prev_offset: None }
    } else {
        let before = scan_string(text, escapes, n - 1);
        let offset = escapes[n - 1];
        StringScan {
            offsets: match escaped_char(text, offset) {
                Some(c) => if useless_string_escape(c, text[0], offset, before.prev_offset) {
                    before.offsets.push((offset + 2) as usize)
                } else {
                    before.offsets
                },
                None => before.offsets,
            },
            prev_offset: Some(offset),
        }
    }
}

/// The backslash, as a byte.
pub const BACKSLASH: u8 = 0x5c;

/// The offsets of the unnecessarily escaped characters of a string, quotes
/// included: the backslashes are looked for between the first and the last byte.
pub open spec fn string_offsets(text: Seq<char>) -> Seq<usize> {
    let bytes = encode_utf8(text);
    if bytes.len() <= 1 {
        Seq::empty()
    } else {
        let inner = bytes.subrange(1, bytes.len() - 1);
        let escapes = positions_of(inner, BACKSLASH, inner.len() as int);
        scan_string(text, escapes, escapes.len() as int).offsets
    }
}

/// Finds the characters of a string that are escaped without need.
pub fn check_string(string: &str) -> (offsets: Vec<usize>)
    ensures
        offsets@ == string_offsets(string@),
{
    let bytes = string.as_bytes();
    if bytes.len() <= 1 {
        return Vec::new();
    }
    let chars = str_chars(string);
    proof {
        if string@.len() == 0 {
            assert(encode_utf8(string@).len() == 0);
        }
    }
    let quote_char = chars[0];
    let inner = slice_subrange(bytes, 1, bytes.len() - 1);
    let needle: Vec<u8> = vec![BACKSLASH];
    let escapes = find_single(inner, needle.as_slice());
    proof {
        lemma_positions_of(inner@, BACKSLASH, inner@.len() as int);
    }
    let mut offsets: Vec<usize> = Vec::new();
    let mut prev_offset: Option<usize> = None;
    let mut i: usize = 0;
    while i < escapes.len()
        invariant
            i <= escapes.len(),
            chars@ == string@,
            string@.len() > 0,
            quote_char == string@[0],
            bytes@ == encode_utf8(string@),
            bytes@.len() >= 2,
            forall|k: int| 0 <= k < escapes@.len() ==> (#[trigger] escapes@[k]) < bytes@.len() - 2,
            scan_string(string@, escapes@, i as int) == (StringScan {
                offsets: offsets@,
                prev_offset,
            }),
        decreases escapes.len() - i,
    {
        let offset = escapes[i];
        if bytes.len() - offset > 3 {
            if let Some(c) = find_char_at_byte(&chars, offset + 2) {
                if !(c == quote_char || (offset > 0 && prev_offset == Some(offset - 1))
                    || ascii_digit(c) || contains_char(&VALID_STRING_ESCAPES, c)) {
                    offsets.push(offset + 2);
                }
            }
        }
        prev_offset = Some(offset);
        i += 1;
    }
    offsets
}

/// The escapes that stand for something in a character class.
pub const REGEX_GENERAL_ESCAPES: [char; 29] = [
    '\\', 'b', 'c', 'd', 'D', 'f', 'n', 'p', 'P', 'r', 's', 'S', 't', 'v', 'w', 'W', 'x', 'u', '0',
    '1', '2', '3', '4', '5', '6', '7', '8', '9', ']',
];

/// The escapes that stand for something outside of a character class.
pub const REGEX_NON_CHARCLASS_ESCAPES: [char; 44] = [
    '\\', 'b', 'c', 'd', 'D', 'f', 'n', 'p', 'P', 'r', 's', 'S', 't', 'v', 'w', 'W', 'x', 'u', '0',
    '1', '2', '3', '4', '5', '6', '7', '8', '9', ']', '^', '/', '.', '$', '*', '+', '?', '[', '{',
    '}', '|', '(', ')', 'B', 'k',
];

/// The escapes that stand for something in a character class of a pattern
/// with the `v` flag.
pub const REGEX_CLASSSET_CHARACTER_ESCAPES: [char; 38] = [
    '\\', 'b', 'c', 'd', 'D', 'f', 'n', 'p', 'P', 'r', 's', 'S', 't', 'v', 'w', 'W', 'x', 'u', '0',
    '1', '2', '3', '4', '5', '6', '7', '8', '9', ']', 'q', '/', '[', '{', '}', '|', '(', ')', '-',
];

/// The characters that, doubled, are reserved in a character class of a
/// pattern with the `v` flag.
pub const REGEX_CLASS_SET_RESERVED_DOUBLE_PUNCTUATOR: [char; 19] = [
    '!', '#', '$', '%', '&', '*', '+', ',', '.', ':', ';', '<', '=', '>', '?', '@', '^', '`', '~',
];

/// A character of a regular expression, with the source text that it was read from.
#[derive(Debug, PartialEq, Eq)]
pub struct Character {
    pub span: Span,
    pub text: String,
}

/// A character class of a regular expression.
#[derive(Clone, Copy, Debug, PartialEq, Eq)]
pub struct CharacterClass {
    pub span: Span,
    pub negative: bool,
}

/// A regular expression, as far as the rule reads it.
#[derive(Debug, PartialEq, Eq)]
pub enum RegexNode {
    Character(Character),
    /// A character class and what stands in it.
    CharacterClass(CharacterClass, Vec<RegexNode>),
    /// Anything else that holds other nodes.
    Group(Vec<RegexNode>),
}

/// The characters after which a backslash stands for something at the place
/// of the character.
pub open spec fn meaningful_escapes(in_class: bool, unicode_sets: bool) -> Seq<char> {
    if in_class {
        if unicode_sets {
            REGEX_CLASSSET_CHARACTER_ESCAPES@
        } else {
            REGEX_GENERAL_ESCAPES@
        }
    } else {
        REGEX_NON_CHARCLASS_ESCAPES@
    }
}

/// The character at index `index` of `source`, counted in characters.
pub open spec fn nth_char(source: Seq<char>, index: int) -> Option<char> {
    if 0 <= index < source.len() {
        Some(source[index])
    } else {
        None
    }
}

/// Whether the position of the escaped character `c` in the character class
/// `class` gives the backslash a meaning that it does not have elsewhere.
pub open spec fn needed_in_class(
    source: Seq<char>,
    span: Span,
    c: char,
    class: CharacterClass,
    unicode_sets: bool,
) -> bool {
    ||| c == '^' && class.span.start + 1 == span.start
    ||| unicode_sets && REGEX_CLASS_SET_RESERVED_DOUBLE_PUNCTUATOR@.contains(c) && {
        ||| nth_char(source, span.end as int) == Some(c)
        ||| nth_char(source, span.start - 1) == Some(c) && {
            ||| c != '^'
            ||| !class.negative
            ||| class.span.start + 1 < span.start - 1
        }
    }
    ||| !unicode_sets && c == '-' && class.span.start + 1 != span.start && span.end
        != class.span.end - 1
}

/// The range of `character` if it is escaped without need, where `class` is
/// the innermost character class that it stands in.
pub open spec fn useless_escape(
    source: Seq<char>,
    character: Character,
    class: Option<CharacterClass>,
    unicode_sets: bool,
) -> Option<Span> {
    let text = character.text@;
    if !(text.len() >= 2 && text[0] == '\\') {
        None
    } else if meaningful_escapes(class is Some, unicode_sets).contains(text[1]) {
        None
    } else if class is Some && needed_in_class(
        source,
        character.span,
        text[1],
        class->0,
        unicode_sets,
    ) {
        None
    } else {
        Some(character.span)
    }
}

fn char_at(source: &Vec<char>, index: u64) -> (c: Option<char>)
    ensures
        c == nth_char(source@, index as int),
{
    if index < source.len() as u64 {
        Some(source[index as usize])
    } else {
        None
    }
}

fn is_needed_in_class(
    source: &Vec<char>,
    span: Span,
    c: char,
    class: &CharacterClass,
    unicode_sets: bool,
) -> (r: bool)
    ensures
        r == needed_in_class(source@, span, c, *class, unicode_sets),
{
    let class_start: u64 = class.span.start as u64;
    let start: u64 = span.start as u64;
    if c == '^' && class_start + 1 == start {
        // The '^' character must always be escaped outside of character classes, but
        // it only needs to be escaped in character classes if it's at the beginning of
        // the character class.
        return true;
    }
    if unicode_sets {
        if contains_char(&REGEX_CLASS_SET_RESERVED_DOUBLE_PUNCTUATOR, c) {
            // Escaping is valid when it is a reserved double punctuator
            if char_at(source, span.end as u64) == Some(c) {
                return true;
            }
            if start > 0 && char_at(source, start - 1) == Some(c) {
                // Escaping caret is unnecessary if the previous character is a `negate` caret(`^`).
                if c != '^' || !class.negative || class_start + 2 < start {
                    return true;
                }
            }
        }
        false
    } else {
        // The '-' character is only valid to escape if it's in a character class, and is
        // not at either edge of the character class.
        c == '-' && class_start + 1 != start && span.end as u64 + 1 != class.span.end as u64
    }
}

/// Decides whether `character` is escaped without need, and if so, gives its range.
pub fn check_character(
    source_text: &Vec<char>,
    character: &Character,
    character_class: Option<&CharacterClass>,
    unicode_sets: bool,
) -> (r: Option<Span>)
    ensures
        r == useless_escape(
            source_text@,
            *character,
            match character_class {
                Some(class) => Some(*class),
                None => None,
            },
            unicode_sets,
        ),
{
    let char_text = str_chars(character.text.as_str());
    // The character is escaped if it has at least two characters and the first character is a backslash
    let is_escaped = char_text.len() >= 2 && char_text[0] == '\\';
    if !is_escaped {
        return None;
    }
    let span = character.span;
    let escape_char = char_text[1];
    let meaningful = match character_class {
        Some(_) => if unicode_sets {
            contains_char(&REGEX_CLASSSET_CHARACTER_ESCAPES, escape_char)
        } else {
            contains_char(&REGEX_GENERAL_ESCAPES, escape_char)
        },
        None => contains_char(&REGEX_NON_CHARCLASS_ESCAPES, escape_char),
    };
    if meaningful {
        return None;
    }
    if let Some(class) = character_class {
        if is_needed_in_class(source_text, span, escape_char, class, unicode_sets) {
            return None;
        }
    }
    Some(span)
}

/// A character that is escaped without need: its range, and the character
/// behind the backslash.
#[derive(Clone, Copy, Debug, PartialEq, Eq)]
pub struct UselessEscape {
    pub span: Span,
    pub escaped: char,
}

/// The unnecessarily escaped character `escaped` at `span`.
pub open spec fn escape_at(span: Span, escaped: char) -> UselessEscape {
    UselessEscape { span, escaped }
}

/// The innermost of `classes`, if there is one.
pub open spec fn innermost(classes: Seq<CharacterClass>) -> Option<CharacterClass> {
    if classes.len() > 0 {
        Some(classes.last())
    } else {
        None
    }
}

/// What looking at `character` adds to what was found: the character, if
/// it is escaped without need.
pub open spec fn found_escape(
    source: Seq<char>,
    character: Character,
    classes: Seq<CharacterClass>,
    unicode_sets: bool,
) -> Seq<UselessEscape> {
    match useless_escape(source, character, innermost(classes), unicode_sets) {
        Some(span) => seq![escape_at(span, character.text@.last())],
        None => Seq::empty(),
    }
}

/// The unnecessarily escaped characters among the first `n` of `nodes`, in
/// the order of the pattern. `classes` are the character classes that the
/// nodes stand in, innermost last.
pub open spec fn useless_escapes(
    nodes: Seq<RegexNode>,
    n: int,
    classes: Seq<CharacterClass>,
    source: Seq<char>,
    unicode_sets: bool,
) -> Seq<UselessEscape>
    decreases nodes, n,
{
    if n <= 0 || n > nodes.len() {
        Seq::empty()
    } else {
        useless_escapes(nodes, n - 1, classes, source, unicode_sets) + (match nodes[n - 1] {
            RegexNode::Character(character) => found_escape(
                source,
                character,
                classes,
                unicode_sets,
            ),
            RegexNode::CharacterClass(class, body) => useless_escapes(
                body@,
                body@.len() as int,
                classes.push(class),
                source,
                unicode_sets,
            ),
            RegexNode::Group(body) => useless_escapes(
                body@,
                body@.len() as int,
                classes,
                source,
                unicode_sets,
            ),
        })
    }
}

proof fn lemma_found_escape(
    found: Seq<UselessEscape>,
    source: Seq<char>,
    character: Character,
    classes: Seq<CharacterClass>,
    unicode_sets: bool,
)
    ensures
        found + found_escape(source, character, classes, unicode_sets) == (match useless_escape(
            source,
            character,
            innermost(classes),
            unicode_sets,
        ) {
            Some(span) => found.push(escape_at(span, character.text@.last())),
            None => found,
        }),
        found + Seq::<UselessEscape>::empty() == found,
{
    match useless_escape(source, character, innermost(classes), unicode_sets) {
        Some(span) => {
            let one = escape_at(span, character.text@.last());
            assert(found.push(one) =~= found + seq![one]);
        },
        None => {},
    }
    assert(found + Seq::<UselessEscape>::empty() =~= found);
}

proof fn lemma_empty_is_neutral(found: Seq<UselessEscape>)
    ensures
        found + Seq::<UselessEscape>::empty() == found,
{
    assert(found + Seq::<UselessEscape>::empty() =~= found);
}

proof fn lemma_concat_assoc(
    first: Seq<UselessEscape>,
    second: Seq<UselessEscape>,
    third: Seq<UselessEscape>,
)
    ensures
        (first + second) + third == first + (second + third),
{
    assert((first + second) + third =~= first + (second + third));
}

/// Walks a pattern and collects the characters that are escaped without need.
pub struct UselessEscapeFinder<'a> {
    pub useless_escapes: Vec<UselessEscape>,
    pub character_classes: Vec<CharacterClass>,
    pub unicode_sets: bool,
    pub source_text: &'a Vec<char>,
}

impl<'a> UselessEscapeFinder<'a> {
    /// A finder that has found nothing yet.
    pub fn new(source_text: &'a Vec<char>, unicode_sets: bool) -> (finder: Self)
        ensures
            finder.useless_escapes@.len() == 0,
            finder.character_classes@.len() == 0,
            finder.unicode_sets == unicode_sets,
            finder.source_text == source_text,
    {
        UselessEscapeFinder {
            useless_escapes: Vec::new(),
            character_classes: Vec::new(),
            unicode_sets,
            source_text,
        }
    }

    /// Called before what `node` holds is visited.
    pub fn enter_node(&mut self, node: &RegexNode)
        ensures
            final(self).useless_escapes == old(self).useless_escapes,
            final(self).unicode_sets == old(self).unicode_sets,
            final(self).source_text == old(self).source_text,
            final(self).character_classes@ == (match *node {
                RegexNode::CharacterClass(class, _) => old(self).character_classes@.push(class),
                _ => old(self).character_classes@,
            }),
    {
        if let RegexNode::CharacterClass(class, _) = node {
            self.character_classes.push(*class);
        }
    }

    /// Called after what `node` holds was visited.
    pub fn leave_node(&mut self, node: &RegexNode)
        ensures
            final(self).useless_escapes == old(self).useless_escapes,
            final(self).unicode_sets == old(self).unicode_sets,
            final(self).source_text == old(self).source_text,
            final(self).character_classes@ == (match *node {
                RegexNode::CharacterClass(_, _) => if old(self).character_classes@.len() > 0 {
                    old(self).character_classes@.drop_last()
                } else {
                    old(self).character_classes@
                },
                _ => old(self).character_classes@,
            }),
    {
        if let RegexNode::CharacterClass(_, _) = node {
            self.character_classes.pop();
        }
    }

    /// Looks at one character.
    pub fn visit_character(&mut self, ch: &Character)
        ensures
            final(self).character_classes == old(self).character_classes,
            final(self).unicode_sets == old(self).unicode_sets,
            final(self).source_text == old(self).source_text,
            final(self).useless_escapes@ == old(self).useless_escapes@ + found_escape(
                old(self).source_text@,
                *ch,
                old(self).character_classes@,
                old(self).unicode_sets,
            ),
    {
        let ghost before = self.useless_escapes@;
        let found = if self.character_classes.len() > 0 {
            check_character(
                self.source_text,
                ch,
                Some(&self.character_classes[self.character_classes.len() - 1]),
                self.unicode_sets,
            )
        } else {
            check_character(self.source_text, ch, None, self.unicode_sets)
        };
        if let Some(span) = found {
            let text = str_chars(ch.text.as_str());
            let escaped = text[text.len() - 1];
            self.useless_escapes.push(UselessEscape { span, escaped });
            proof {
                lemma_found_escape(
                    before,
                    self.source_text@,
                    *ch,
                    self.character_classes@,
                    self.unicode_sets,
                );
            }
        } else {
            proof {
                lemma_found_escape(
                    before,
                    self.source_text@,
                    *ch,
                    self.character_classes@,
                    self.unicode_sets,
                );
            }
        }
    }

    /// Walks `nodes` and what they hold, in the order of the pattern.
    pub fn visit_nodes(&mut self, nodes: &[RegexNode])
        ensures
            final(self).character_classes@ == old(self).character_classes@,
            final(self).unicode_sets == old(self).unicode_sets,
            final(self).source_text == old(self).source_text,
            final(self).useless_escapes@ == old(self).useless_escapes@ + useless_escapes(
                nodes@,
                nodes@.len() as int,
                old(self).character_classes@,
                old(self).source_text@,
                old(self).unicode_sets,
            ),
        decreases nodes@,
    {
        let ghost classes = self.character_classes@;
        let ghost found = self.useless_escapes@;
        let mut i: usize = 0;
        proof {
            lemma_concat_assoc(found, Seq::empty(), Seq::empty());
            lemma_empty_is_neutral(found);
        }
        while i < nodes.len()
            invariant
                i <= nodes.len(),
                self.character_classes@ == classes,
                self.unicode_sets == old(self).unicode_sets,
                self.source_text == old(self).source_text,
                self.useless_escapes@ == found + useless_escapes(
                    nodes@,
                    i as int,
                    classes,
                    self.source_text@,
                    self.unicode_sets,
                ),
            decreases nodes.len() - i,
        {
            let ghost so_far = useless_escapes(
                nodes@,
                i as int,
                classes,
                self.source_text@,
                self.unicode_sets,
            );
            let ghost next = useless_escapes(
                nodes@,
                i + 1,
                classes,
                self.source_text@,
                self.unicode_sets,
            );
            let ghost at_start = self.useless_escapes@;
            self.enter_node(&nodes[i]);
            assert(self.useless_escapes@ == at_start);
            match &nodes[i] {
                RegexNode::Character(character) => {
                    assert(self.character_classes@ == classes);
                    self.visit_character(character);
                    proof {
                        let added = found_escape(
                            self.source_text@,
                            *character,
                            classes,
                            self.unicode_sets,
                        );
                        assert(self.useless_escapes@ == at_start + added);
                        assert(next == so_far + added);
                        lemma_concat_assoc(found, so_far, added);
                    }
                },
                RegexNode::CharacterClass(class, body) => {
                    assert(self.character_classes@ == classes.push(*class));
                    self.visit_nodes(body.as_slice());
                    proof {
                        let added = useless_escapes(
                            body@,
                            body@.len() as int,
                            classes.push(*class),
                            self.source_text@,
                            self.unicode_sets,
                        );
                        assert(self.useless_escapes@ == at_start + added);
                        assert(next == so_far + added);
                        lemma_concat_assoc(found, so_far, added);
                    }
                },
                RegexNode::Group(body) => {
                    assert(self.character_classes@ == classes);
                    self.visit_nodes(body.as_slice());
                    proof {
                        let added = useless_escapes(
                            body@,
                            body@.len() as int,
                            classes,
                            self.source_text@,
                            self.unicode_sets,
                        );
                        assert(self.useless_escapes@ == at_start + added);
                        assert(next == so_far + added);
                        lemma_concat_assoc(found, so_far, added);
                    }
                },
            }
            assert(self.useless_escapes@ == found + next);
            self.leave_node(&nodes[i]);
            proof {
                assert(self.character_classes@ =~= classes);
            }
            i += 1;
        }
    }
}

/// How a character is written in a message: in quotes, and escaped where
/// it would not show or would be mistaken.
pub uninterp spec fn char_debug(c: char) -> Seq<char>;

/// `c` as it is written in a message.
///
/// Trusted: the `Debug` implementation of `char`, which writes the
/// character between single quotes, escaped where needed. What it writes
/// depends on the character alone.
#[verifier::external_body]
fn debug_char(c: char) -> (text: String)
    ensures
        text@ == char_debug(c),
{
    format!("{c:?}")
}

/// The message about the unnecessarily escaped character `c`.
pub open spec fn useless_escape_message(c: char) -> Seq<char> {
    "Unnecessary escape character "@ + char_debug(c)
}

/// The report about the unnecessarily escaped character `c` at `span`,
/// backslash included: the backslash is to be taken out.
pub open spec fn useless_escape_report(c: char, span: Span) -> ReportView {
    ReportView {
        message: useless_escape_message(c),
        help: None,
        label: Some(span),
        fix_span: span,
        fix_text: seq![c],
    }
}

fn no_useless_escape_diagnostic(escape_char: char, span: Span) -> (diagnostic: Diagnostic)
    ensures
        diagnostic.message@ == useless_escape_message(escape_char),
        diagnostic.help is None,
        diagnostic.label == Some(span),
{
    let mut message = String::from_str("Unnecessary escape character ");
    message.append(debug_char(escape_char).as_str());
    Diagnostic::warn(message).with_label(span)
}

fn report_escape(escape_char: char, span: Span) -> (report: Report)
    ensures
        report@ == useless_escape_report(escape_char, span),
{
    let replacement: Vec<char> = vec![escape_char];
    proof {
        assert(replacement@ =~= seq![escape_char]);
    }
    Report {
        diagnostic: no_useless_escape_diagnostic(escape_char, span),
        fix: Fix { span, text: string_from_chars(replacement.as_slice()) },
    }
}

/// The reports about the characters at the first `n` of `offsets` of a
/// literal with the text `text`, which starts at `base` of the source. An
/// offset counts the bytes from `shift` bytes before the text. An offset
/// at which no character of the text starts, or whose report would not lie
/// in the source, gives no report; inside of a JSX attribute nothing does.
pub open spec fn escape_reports(
    within_jsx_attribute: bool,
    base: u32,
    offsets: Seq<usize>,
    n: int,
    text: Seq<char>,
    shift: usize,
) -> Seq<ReportView>
    decreases n,
{
    if n <= 0 || n > offsets.len() {
        Seq::empty()
    } else {
        let before = escape_reports(within_jsx_attribute, base, offsets, n - 1, text, shift);
        let offset = offsets[n - 1];
        if offset < shift {
            before
        } else {
            let position = base + (offset - shift);
            match char_at_byte(text, offset - shift) {
                Some(c) => if !within_jsx_attribute && position >= 1 && position + utf8_len(c)
                    <= u32::MAX {
                    before.push(
                        useless_escape_report(
                            c,
                            Span {
                                start: (position - 1) as u32,
                                end: (position + utf8_len(c)) as u32,
                            },
                        ),
                    )
                } else {
                    before
                },
                None => before,
            }
        }
    }
}

fn check(
    within_jsx_attribute: bool,
    base: u32,
    offsets: &Vec<usize>,
    text: &Vec<char>,
    shift: usize,
) -> (reports: Vec<Report>)
    ensures
        report_views(reports@) == escape_reports(
            within_jsx_attribute,
            base,
            offsets@,
            offsets@.len() as int,
            text@,
            shift,
        ),
{
    let mut reports: Vec<Report> = Vec::new();
    let mut i: usize = 0;
    proof {
        assert(report_views(reports@) =~= Seq::empty());
    }
    while i < offsets.len()
        invariant
            i <= offsets.len(),
            report_views(reports@) == escape_reports(
                within_jsx_attribute,
                base,
                offsets@,
                i as int,
                text@,
                shift,
            ),
        decreases offsets.len() - i,
    {
        let offset = offsets[i];
        if offset >= shift {
            if let Some(c) = find_char_at_byte(text, offset - shift) {
                let position: u128 = base as u128 + (offset - shift) as u128;
                let len = c.len_utf8() as u128;
                if !within_jsx_attribute && position >= 1 && position + len <= 0xffff_ffff {
                    let span = Span::new((position - 1) as u32, (position + len) as u32);
                    let ghost before = reports@;
                    reports.push(report_escape(c, span));
                    proof {
                        assert(report_views(reports@) =~= report_views(before).push(
                            useless_escape_report(c, span),
                        ));
                    }
                }
            }
        }
        i += 1;
    }
    reports
}

/// The characters that may be escaped in a regular expression although the
/// escape is not needed.
#[derive(Debug, Default, Clone)]
pub struct NoUselessEscapeConfig {
    pub allow_regex_characters: Vec<char>,
}

#[derive(Debug, Default, Clone)]
pub struct NoUselessEscape(pub Box<NoUselessEscapeConfig>);

impl std::ops::Deref for NoUselessEscape {
    type Target = NoUselessEscapeConfig;

    fn deref(&self) -> (config: &NoUselessEscapeConfig)
        ensures
            *config == *self.0,
    {
        &self.0
    }
}

/// The first characters of the strings among the first `n` of `items`.
pub open spec fn first_chars(items: Seq<Value>, n: int) -> Seq<char>
    decreases n,
{
    if n <= 0 || n > items.len() {
        Seq::empty()
    } else {
        let before = first_chars(items, n - 1);
        match json_str(items[n - 1]) {
            Some(text) => if text.len() > 0 {
                before.push(text[0])
            } else {
                before
            },
            None => before,
        }
    }
}

/// The characters that the configuration `value` allows to be escaped: the
/// first characters of the strings listed under `allowRegexCharacters` in
/// the first element of the configuration.
pub open spec fn allowed_regex_characters(value: Value) -> Seq<char> {
    match json_array(value) {
        Some(array) => if array.len() > 0 {
            match json_field(array[0], "allowRegexCharacters"@) {
                Some(list) => match json_array(list) {
                    Some(items) => first_chars(items, items.len() as int),
                    None => Seq::empty(),
                },
                None => Seq::empty(),
            }
        } else {
            Seq::empty()
        },
        None => Seq::empty(),
    }
}

/// A template element: its range, and its text between the delimiters.
#[derive(Debug, PartialEq, Eq)]
pub struct TemplateElement {
    pub span: Span,
    pub text: String,
}

/// A node of the syntax tree, as far as the rule reads it.
#[derive(Debug, PartialEq, Eq)]
pub enum EscapeNode {
    RegExpLiteral {
        span: Span,
        /// The length of the text of the pattern, in bytes.
        pattern_len: usize,
        /// The number of flags.
        flags: usize,
        /// Whether the `v` flag is set.
        unicode_sets: bool,
        /// The pattern, if it could be read.
        pattern: Option<Vec<RegexNode>>,
    },
    StringLiteral {
        span: Span,
        /// The text of the literal, quotes included.
        text: String,
    },
    TemplateLiteral {
        quasis: Vec<TemplateElement>,
        /// Whether the literal is the template of a tagged template expression.
        tagged: bool,
    },
    Other,
}

/// The reports about the first `n` of `escapes`, but for the characters
/// that `allowed` lists.
pub open spec fn regex_reports(escapes: Seq<UselessEscape>, n: int, allowed: Seq<char>) -> Seq<
    ReportView,
>
    decreases n,
{
    if n <= 0 || n > escapes.len() {
        Seq::empty()
    } else {
        let before = regex_reports(escapes, n - 1, allowed);
        if allowed.contains(escapes[n - 1].escaped) {
            before
        } else {
            before.push(useless_escape_report(escapes[n - 1].escaped, escapes[n - 1].span))
        }
    }
}

/// The reports about the first `n` elements of a template.
pub open spec fn template_reports(
    within_jsx_attribute: bool,
    quasis: Seq<TemplateElement>,
    n: int,
) -> Seq<ReportView>
    decreases n,
{
    if n <= 0 || n > quasis.len() {
        Seq::empty()
    } else {
        let offsets = template_offsets(quasis[n - 1].text@);
        template_reports(within_jsx_attribute, quasis, n - 1) + escape_reports(
            within_jsx_attribute,
            quasis[n - 1].span.start,
            offsets,
            offsets.len() as int,
            quasis[n - 1].text@,
            1,
        )
    }
}

/// The number of bytes between the start and the end of `span`.
pub open spec fn span_size(span: Span) -> int {
    if span.end >= span.start {
        span.end - span.start
    } else {
        0
    }
}

/// What the rule reports for `node`.
pub open spec fn useless_escape_reports(
    allowed: Seq<char>,
    node: EscapeNode,
    within_jsx_attribute: bool,
    source: Seq<char>,
) -> Seq<ReportView> {
    match node {
        EscapeNode::RegExpLiteral { span, pattern_len, flags, unicode_sets, pattern } => {
            if pattern_len + flags != span_size(span) && pattern is Some {
                let escapes = useless_escapes(
                    pattern->0@,
                    pattern->0@.len() as int,
                    Seq::empty(),
                    source,
                    unicode_sets,
                );
                regex_reports(escapes, escapes.len() as int, allowed)
            } else {
                Seq::empty()
            }
        },
        EscapeNode::StringLiteral { span, text } => {
            let offsets = string_offsets(text@);
            escape_reports(within_jsx_attribute, span.start, offsets, offsets.len() as int, text@, 0)
        },
        EscapeNode::TemplateLiteral { quasis, tagged } => if tagged {
            Seq::empty()
        } else {
            template_reports(within_jsx_attribute, quasis@, quasis@.len() as int)
        },
        EscapeNode::Other => Seq::empty(),
    }
}

proof fn lemma_reports_concat(head: Seq<Report>, tail: Seq<Report>)
    ensures
        report_views(head + tail) == report_views(head) + report_views(tail),
{
    assert(report_views(head + tail) =~= report_views(head) + report_views(tail));
}

impl NoUselessEscape {
    /// Reads the configuration of the rule.
    pub fn from_configuration(value: Value) -> (rule: Self)
        ensures
            rule.0.allow_regex_characters@ == allowed_regex_characters(value),
    {
        let mut allow_regex_characters: Vec<char> = Vec::new();
        if let Some(array) = as_array(&value) {
            if array.len() > 0 {
                if let Some(list) = get_field(&array[0], "allowRegexCharacters") {
                    if let Some(items) = as_array(list) {
                        let mut i: usize = 0;
                        while i < items.len()
                            invariant
                                i <= items.len(),
                                allow_regex_characters@ == first_chars(items@, i as int),
                            decreases items.len() - i,
                        {
                            if let Some(text) = as_str(&items[i]) {
                                let chars = str_chars(text);
                                if chars.len() > 0 {
                                    allow_regex_characters.push(chars[0]);
                                }
                            }
                            i += 1;
                        }
                    }
                }
            }
        }
        NoUselessEscape(Box::new(NoUselessEscapeConfig { allow_regex_characters }))
    }

    fn regex_reports(&self, escapes: &Vec<UselessEscape>) -> (reports: Vec<Report>)
        ensures
            report_views(reports@) == regex_reports(
                escapes@,
                escapes@.len() as int,
                self.0.allow_regex_characters@,
            ),
    {
        let mut reports: Vec<Report> = Vec::new();
        let mut i: usize = 0;
        proof {
            assert(report_views(reports@) =~= Seq::empty());
        }
        while i < escapes.len()
            invariant
                i <= escapes.len(),
                report_views(reports@) == regex_reports(
                    escapes@,
                    i as int,
                    self.0.allow_regex_characters@,
                ),
            decreases escapes.len() - i,
        {
            let escape = escapes[i];
            if !vec_contains(&self.0.allow_regex_characters, escape.escaped) {
                let ghost before = reports@;
                reports.push(report_escape(escape.escaped, escape.span));
                proof {
                    assert(report_views(reports@) =~= report_views(before).push(
                        useless_escape_report(escape.escaped, escape.span),
                    ));
                }
            }
            i += 1;
        }
        reports
    }

    /// Checks `node`: reports each character of a regular expression, a
    /// string or a template that is escaped without need, together with the
    /// change that takes the backslash out.
    pub fn run(&self, node: &EscapeNode, within_jsx_attribute: bool, source_text: &str) -> (reports:
        Vec<Report>)
        ensures
            report_views(reports@) == useless_escape_reports(
                self.0.allow_regex_characters@,
                *node,
                within_jsx_attribute,
                source_text@,
            ),
    {
        match node {
            EscapeNode::RegExpLiteral { span, pattern_len, flags, unicode_sets, pattern } => {
                let size: u32 = if span.end >= span.start {
                    span.end - span.start
                } else {
                    0
                };
                if *pattern_len as u128 + *flags as u128 != size as u128 {
                    if let Some(pattern) = pattern {
                        let source = str_chars(source_text);
                        let mut finder = UselessEscapeFinder::new(&source, *unicode_sets);
                        finder.visit_nodes(pattern.as_slice());
                        proof {
                            lemma_concat_assoc(
                                Seq::empty(),
                                Seq::empty(),
                                useless_escapes(
                                    pattern@,
                                    pattern@.len() as int,
                                    Seq::empty(),
                                    source@,
                                    *unicode_sets,
                                ),
                            );
                            lemma_empty_is_first(
                                useless_escapes(
                                    pattern@,
                                    pattern@.len() as int,
                                    Seq::empty(),
                                    source@,
                                    *unicode_sets,
                                ),
                            );
                            assert(finder.character_classes@ =~= Seq::empty());
                        }
                        return self.regex_reports(&finder.useless_escapes);
                    }
                }
                let reports: Vec<Report> = Vec::new();
                proof {
                    assert(report_views(reports@) =~= Seq::empty());
                }
                reports
            },
            EscapeNode::StringLiteral { span, text } => {
                let offsets = check_string(text.as_str());
                let chars = str_chars(text.as_str());
                check(within_jsx_attribute, span.start, &offsets, &chars, 0)
            },
            EscapeNode::TemplateLiteral { quasis, tagged } => {
                let mut reports: Vec<Report> = Vec::new();
                proof {
                    assert(report_views(reports@) =~= Seq::empty());
                }
                if !*tagged {
                    let mut i: usize = 0;
                    while i < quasis.len()
                        invariant
                            i <= quasis.len(),
                            report_views(reports@) == template_reports(
                                within_jsx_attribute,
                                quasis@,
                                i as int,
                            ),
                        decreases quasis.len() - i,
                    {
                        let template_element = &quasis[i];
                        let offsets = check_template(template_element.text.as_str());
                        let chars = str_chars(template_element.text.as_str());
                        let mut more = check(
                            within_jsx_attribute,
                            template_element.span.start,
                            &offsets,
                            &chars,
                            1,
                        );
                        proof {
                            lemma_reports_concat(reports@, more@);
                        }
                        reports.append(&mut more);
                        i += 1;
                    }
                }
                reports
            },
            EscapeNode::Other => {
                let reports: Vec<Report> = Vec::new();
                proof {
                    assert(report_views(reports@) =~= Seq::empty());
                }
                reports
            },
        }
    }
}

proof fn lemma_empty_is_first(found: Seq<UselessEscape>)
    ensures
        Seq::<UselessEscape>::empty() + found == found,
{
    assert(Seq::<UselessEscape>::empty() + found =~= found);
}

fn vec_contains(set: &Vec<char>, c: char) -> (r: bool)
    ensures
        r == set@.contains(c),
{
    let mut j: usize = 0;
    while j < set.len()
        invariant
            j <= set.len(),
            forall|k: int| 0 <= k < j ==> set@[k] != c,
        decreases set.len() - j,
    {
        if set[j] == c {
            return true;
        }
        j += 1;
    }
    false
}

} // verus!
