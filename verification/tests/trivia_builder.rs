use oxc::linter::diagnostic::Span;
use oxc::parser::comment::{
    Comment, CommentContent, CommentKind, CommentNewlines, CommentPosition,
};
use oxc::parser::lexer::trivia_builder::{
    contains_license_or_preserve_comment, read_annotation, TriviaBuilder,
};
use oxc::parser::lexer::{Kind, Token};

const LEADING_AND_TRAILING: CommentNewlines = CommentNewlines { leading: true, trailing: true };
const LEADING: CommentNewlines = CommentNewlines { leading: true, trailing: false };
const TRAILING: CommentNewlines = CommentNewlines { leading: false, trailing: true };
const NONE: CommentNewlines = CommentNewlines { leading: false, trailing: false };

/// Reads `source_text` as a lexer does, and tells the builder of each
/// comment, line break and token.
fn get_comments(source_text: &str) -> Vec<Comment> {
    let bytes = source_text.as_bytes();
    let mut builder = TriviaBuilder::default();
    let mut i = 0;
    while i < bytes.len() {
        let rest = &bytes[i..];
        if rest.starts_with(b"//") {
            let end = rest.iter().position(|&b| b == b'\n').map_or(bytes.len(), |n| i + n);
            builder.add_line_comment(i as u32, end as u32, source_text);
            // The line break behind a line comment is skipped.
            i = (end + 1).min(bytes.len());
        } else if rest.starts_with(b"/*") {
            let end = i + 2 + source_text[i + 2..].find("*/").unwrap() + 2;
            builder.add_block_comment(i as u32, end as u32, source_text);
            i = end;
        } else if bytes[i] == b'\n' {
            builder.handle_newline();
            i += 1;
        } else if bytes[i].is_ascii_whitespace() {
            i += 1;
        } else if i == 0 && rest.starts_with(b"#!") {
            let end = rest.iter().position(|&b| b == b'\n').unwrap_or(bytes.len());
            builder.handle_token(Token::new(Kind::Other, 0));
            i = end;
        } else if bytes[i].is_ascii_alphanumeric() || bytes[i] == b'_' {
            let start = i;
            while i < bytes.len() && (bytes[i].is_ascii_alphanumeric() || bytes[i] == b'_') {
                i += 1;
            }
            builder.handle_token(Token::new(Kind::Other, start as u32));
        } else {
            let kind = match bytes[i] {
                b'=' => Kind::Eq,
                b'(' => Kind::LParen,
                _ => Kind::Other,
            };
            builder.handle_token(Token::new(kind, i as u32));
            i += 1;
        }
    }
    // The end of the file is a token, too.
    builder.handle_token(Token::new(Kind::Other, bytes.len() as u32));
    builder.comments
}

#[test]
fn comment_attachments() {
    let source_text = "
        /* Leading 1 */
        // Leading 2
        /* Leading 3 */ token /* Trailing 1 */ // Trailing 2
        // Leading of EOF token
        ";
    let comments = get_comments(source_text);
    let expected = [
        Comment {
            span: Span::new(9, 24),
            kind: CommentKind::Block,
            position: CommentPosition::Leading,
            attached_to: 70,
            newlines: LEADING_AND_TRAILING,
            content: CommentContent::Plain,
        },
        Comment {
            span: Span::new(33, 45),
            kind: CommentKind::Line,
            position: CommentPosition::Leading,
            attached_to: 70,
            newlines: LEADING_AND_TRAILING,
            content: CommentContent::Plain,
        },
        Comment {
            span: Span::new(54, 69),
            kind: CommentKind::Block,
            position: CommentPosition::Leading,
            attached_to: 70,
            newlines: LEADING,
            content: CommentContent::Plain,
        },
        Comment {
            span: Span::new(76, 92),
            kind: CommentKind::Block,
            position: CommentPosition::Trailing,
            attached_to: 0,
            newlines: NONE,
            content: CommentContent::Plain,
        },
        Comment {
            span: Span::new(93, 106),
            kind: CommentKind::Line,
            position: CommentPosition::Trailing,
            attached_to: 0,
            newlines: TRAILING,
            content: CommentContent::Plain,
        },
        Comment {
            span: Span::new(115, 138),
            kind: CommentKind::Line,
            position: CommentPosition::Leading,
            attached_to: 147,
            newlines: LEADING_AND_TRAILING,
            content: CommentContent::Plain,
        },
    ];

    assert_eq!(comments.len(), expected.len());
    for (comment, expected) in comments.iter().copied().zip(expected) {
        assert_eq!(comment, expected, "{:?}", comment.span);
    }
}

#[test]
fn comment_attachments2() {
    let source_text = "#!/usr/bin/env node
/* Leading 1 */
token /* Trailing 1 */
        ";
    let comments = get_comments(source_text);
    let expected = vec![
        Comment {
            span: Span::new(20, 35),
            kind: CommentKind::Block,
            position: CommentPosition::Leading,
            attached_to: 36,
            newlines: LEADING_AND_TRAILING,
            content: CommentContent::Plain,
        },
        Comment {
            span: Span::new(42, 58),
            kind: CommentKind::Block,
            position: CommentPosition::Trailing,
            attached_to: 0,
            newlines: TRAILING,
            content: CommentContent::Plain,
        },
    ];
    assert_eq!(comments, expected);
}

#[test]
fn comment_attachments3() {
    let source_text = "
/*
 * A
 **/
/*
 * B
 **/
 token
        ";
    let comments = get_comments(source_text);
    let expected = vec![
        Comment {
            span: Span::new(1, 13),
            kind: CommentKind::Block,
            position: CommentPosition::Leading,
            attached_to: 28,
            newlines: LEADING_AND_TRAILING,
            content: CommentContent::Plain,
        },
        Comment {
            span: Span::new(14, 26),
            kind: CommentKind::Block,
            position: CommentPosition::Leading,
            attached_to: 28,
            newlines: LEADING_AND_TRAILING,
            content: CommentContent::Plain,
        },
    ];
    assert_eq!(comments, expected);
}

#[test]
fn leading_comments_after_eq() {
    let source_text = "
            const v1 = // Leading comment 1
            foo();
            function foo(param =// Leading comment 2
            new Foo()
            ) {}
        ";
    let comments = get_comments(source_text);
    let expected = vec![
        Comment {
            span: Span::new(24, 44),
            kind: CommentKind::Line,
            position: CommentPosition::Leading,
            attached_to: 57,
            newlines: TRAILING,
            content: CommentContent::Plain,
        },
        Comment {
            span: Span::new(96, 116),
            kind: CommentKind::Line,
            position: CommentPosition::Leading,
            attached_to: 129,
            newlines: TRAILING,
            content: CommentContent::Plain,
        },
    ];
    assert_eq!(comments, expected);
}

#[test]
fn leading_comments_after_left_parenthesis() {
    let source_text = "
            call(// Leading comment 1
                arguments)
            (// Leading comment 2
                arguments)
        ";
    let comments = get_comments(source_text);
    let expected = vec![
        Comment {
            span: Span::new(18, 38),
            kind: CommentKind::Line,
            position: CommentPosition::Leading,
            attached_to: 55,
            newlines: TRAILING,
            content: CommentContent::Plain,
        },
        Comment {
            span: Span::new(79, 99),
            kind: CommentKind::Line,
            position: CommentPosition::Leading,
            attached_to: 116,
            newlines: TRAILING,
            content: CommentContent::Plain,
        },
    ];
    assert_eq!(comments, expected);
}

#[test]
fn comment_parsing() {
    let data = [
        ("/*! legal */", CommentContent::Legal),
        ("/* @preserve */", CommentContent::Legal),
        ("/* @license */", CommentContent::Legal),
        ("/* foo @preserve */", CommentContent::Legal),
        ("/* foo @license */", CommentContent::Legal),
        ("/** foo @preserve */", CommentContent::JsdocLegal),
        ("/** foo @license */", CommentContent::JsdocLegal),
        ("/** jsdoc */", CommentContent::Jsdoc),
        ("/**/", CommentContent::Plain),
        ("/***/", CommentContent::Plain),
        ("/*@*/", CommentContent::Plain),
        ("/*@xreserve*/", CommentContent::Plain),
        ("/*@preserve*/", CommentContent::Legal),
        ("/*@voidzeroignoreme*/", CommentContent::Plain),
        ("/****/", CommentContent::Plain),
        ("/* @vite-ignore */", CommentContent::Vite),
        ("/* @vite-xxx */", CommentContent::Vite),
        ("/* webpackChunkName: 'my-chunk-name' */", CommentContent::Webpack),
        ("/* webpack */", CommentContent::Plain),
        ("/* @__PURE__ */", CommentContent::Pure),
        ("/* @__NO_SIDE_EFFECTS__ */", CommentContent::NoSideEffects),
        ("/* #__PURE__ */", CommentContent::Pure),
        ("/* #__NO_SIDE_EFFECTS__ */", CommentContent::NoSideEffects),
    ];

    for (source_text, expected) in data {
        let comments = get_comments(source_text);
        assert_eq!(comments.len(), 1, "{source_text}");
        assert_eq!(comments[0].content, expected, "{source_text}");
    }
}

#[test]
fn line_comments_are_annotated_too() {
    let data = [
        ("// @license", CommentContent::Legal),
        ("//! legal", CommentContent::Legal),
        ("//* not jsdoc", CommentContent::Plain),
        ("// v8 ignore next", CommentContent::CoverageIgnore),
        ("// c8 ignore next", CommentContent::CoverageIgnore),
        ("// node:coverage disable", CommentContent::CoverageIgnore),
        ("// istanbul ignore next", CommentContent::CoverageIgnore),
        ("// \t@__PURE__", CommentContent::Pure),
        ("// @__PUR", CommentContent::Plain),
        ("// #vite", CommentContent::Plain),
        ("// webpackA", CommentContent::Webpack),
        ("// webpacka", CommentContent::Plain),
    ];
    for (source_text, expected) in data {
        let comments = get_comments(source_text);
        assert_eq!(comments.len(), 1, "{source_text}");
        assert_eq!(comments[0].content, expected, "{source_text}");
    }
}

#[test]
fn pure_and_no_side_effects_comments_are_remembered() {
    let mut builder = TriviaBuilder::default();
    assert!(!builder.previous_token_has_pure_comment());
    assert!(!builder.previous_token_has_no_side_effects_comment());
    let source = "/* @__PURE__ */ /* #__NO_SIDE_EFFECTS__ */ /* other */";
    builder.add_block_comment(0, 15, source);
    assert!(builder.previous_token_has_pure_comment());
    assert!(!builder.previous_token_has_no_side_effects_comment());
    builder.add_block_comment(16, 42, source);
    assert!(builder.previous_token_has_no_side_effects_comment());
    builder.add_block_comment(43, 54, source);
    assert!(builder.previous_token_has_pure_comment());
    assert_eq!(builder.comments.len(), 3);
}

#[test]
fn comment_that_was_read_before_is_not_kept_again() {
    let mut builder = TriviaBuilder::default();
    let source = "/* a */ /* b */";
    builder.add_block_comment(0, 7, source);
    builder.add_block_comment(8, 15, source);
    builder.add_block_comment(0, 7, source);
    builder.add_block_comment(8, 15, source);
    assert_eq!(builder.comments.len(), 2);
}

#[test]
fn irregular_whitespace_is_collected() {
    let mut builder = TriviaBuilder::default();
    builder.add_irregular_whitespace(3, 4);
    builder.add_irregular_whitespace(9, 12);
    assert_eq!(builder.irregular_whitespaces, vec![Span::new(3, 4), Span::new(9, 12)]);
}

#[test]
fn license_and_preserve_are_found_by_their_at_sign() {
    assert!(contains_license_or_preserve_comment(b" @license "));
    assert!(contains_license_or_preserve_comment(b"@license!"));
    assert!(contains_license_or_preserve_comment(b"@preserve"));
    // The `@` must stand among all but the last eight bytes.
    assert!(!contains_license_or_preserve_comment(b" @license"));
    assert!(!contains_license_or_preserve_comment(b" @preserve"[..9].as_ref()));
    assert!(contains_license_or_preserve_comment(b"a @b @license MIT"));
    assert!(contains_license_or_preserve_comment(b"@@preserve"));
    // Fewer than nine bytes never do.
    assert!(!contains_license_or_preserve_comment(b"@license"));
    assert!(!contains_license_or_preserve_comment(b" license "));
    assert!(!contains_license_or_preserve_comment(b" @licence "));
    assert!(!contains_license_or_preserve_comment(b"preserve @"));
    assert!(!contains_license_or_preserve_comment(b""));
}

#[test]
fn annotation_of_a_text() {
    let read = read_annotation(CommentContent::Plain, true, b" @__PURE__ ");
    assert_eq!(read.content, CommentContent::Pure);
    assert!(read.pure_comment && !read.no_side_effects_comment);
    let read = read_annotation(CommentContent::Plain, true, b"#__NO_SIDE_EFFECTS__");
    assert_eq!(read.content, CommentContent::NoSideEffects);
    assert!(!read.pure_comment && read.no_side_effects_comment);
    // What was known before stays where the text says nothing.
    let read = read_annotation(CommentContent::Vite, false, b" nothing to see ");
    assert_eq!(read.content, CommentContent::Vite);
    let read = read_annotation(CommentContent::Plain, false, b"* jsdoc only in blocks");
    assert_eq!(read.content, CommentContent::Plain);
}

#[test]
fn comment_without_its_delimiters() {
    let line = Comment::new(10, 20, CommentKind::Line);
    assert_eq!(line.content_span(), Span::new(12, 20));
    assert!(line.is_line() && !line.is_block());
    let block = Comment::new(10, 20, CommentKind::Block);
    assert_eq!(block.content_span(), Span::new(12, 18));
    assert!(block.is_block() && !block.is_line());
    assert_eq!(block.position, CommentPosition::Trailing);
    assert_eq!(block.attached_to, 0);
    assert_eq!(block.newlines, NONE);
    assert_eq!(block.content, CommentContent::Plain);
}
