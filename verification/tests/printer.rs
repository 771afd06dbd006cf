use oxc::formatter::format_element::document::Document;
use oxc::formatter::format_element::tag::{
    Condition, DedentMode, Group, GroupMode, LabelId, Tag,
};
use oxc::formatter::format_element::{
    BestFittingElement, FormatElement, FormatElements, Interned, LineMode,
    MalformedBestFittingError, PrintMode,
};
use oxc::formatter::printer::error::{PrintError, StructuralIntegrityError};
use oxc::formatter::printer::options::{IndentStyle, LineEnding, PrinterOptions};
use oxc::formatter::printer::{print_elements, Printer};
use oxc::formatter::format_element::tag::TagKind;

fn text(text: &'static str) -> FormatElement<'static> {
    FormatElement::StaticText { text }
}

fn soft() -> FormatElement<'static> {
    FormatElement::Line(LineMode::Soft)
}

fn soft_or_space() -> FormatElement<'static> {
    FormatElement::Line(LineMode::SoftOrSpace)
}

fn hard() -> FormatElement<'static> {
    FormatElement::Line(LineMode::Hard)
}

fn tag(tag: Tag) -> FormatElement<'static> {
    FormatElement::Tag(tag)
}

fn group(mut content: Vec<FormatElement<'static>>) -> Vec<FormatElement<'static>> {
    let mut elements = vec![tag(Tag::StartGroup(Group::new()))];
    elements.append(&mut content);
    elements.push(tag(Tag::EndGroup));
    elements
}

fn indent(mut content: Vec<FormatElement<'static>>) -> Vec<FormatElement<'static>> {
    let mut elements = vec![tag(Tag::StartIndent)];
    elements.append(&mut content);
    elements.push(tag(Tag::EndIndent));
    elements
}

fn line_suffix(mut content: Vec<FormatElement<'static>>) -> Vec<FormatElement<'static>> {
    let mut elements = vec![tag(Tag::StartLineSuffix)];
    elements.append(&mut content);
    elements.push(tag(Tag::EndLineSuffix));
    elements
}

fn concat(parts: Vec<Vec<FormatElement<'static>>>) -> Vec<FormatElement<'static>> {
    parts.into_iter().flatten().collect()
}

fn array_document() -> Vec<FormatElement<'static>> {
    group(concat(vec![
        vec![text("const x = [")],
        indent(vec![soft(), text("1,"), soft_or_space(), text("2")]),
        vec![soft(), text("]")],
    ]))
}

fn options(width: u16) -> PrinterOptions {
    PrinterOptions::default().with_max_line_width(width)
}

fn print(elements: &[FormatElement<'static>], width: u16) -> String {
    print_elements(elements, &options(width)).unwrap().into_code()
}

fn print_error(elements: &[FormatElement<'static>]) -> PrintError {
    print_elements(elements, &options(80)).unwrap_err()
}

#[test]
fn group_that_fits_is_printed_flat() {
    assert_eq!(print(&array_document(), 80), "const x = [1, 2]");
}

#[test]
fn group_that_does_not_fit_is_expanded() {
    assert_eq!(print(&array_document(), 10), "const x = [\n  1,\n  2\n]");
}

#[test]
fn group_is_flat_exactly_up_to_the_width_of_its_content() {
    // `const x = [1, 2]` is 16 columns wide.
    assert_eq!(print(&array_document(), 16), "const x = [1, 2]");
    assert_eq!(print(&array_document(), 15), "const x = [\n  1,\n  2\n]");
}

fn call_variants() -> Vec<FormatElement<'static>> {
    let flat = vec![text("f(a, b)")];
    let expanded = concat(vec![
        vec![text("f(")],
        indent(vec![hard(), text("a,"), hard(), text("b")]),
        vec![hard(), text(")")],
    ]);
    vec![FormatElement::BestFitting(BestFittingElement::new(vec![flat, expanded]).unwrap())]
}

#[test]
fn best_fitting_prints_the_expanded_variant_alone() {
    assert_eq!(print(&call_variants(), 5), "f(\n  a,\n  b\n)");
    assert_eq!(print(&call_variants(), 6), "f(\n  a,\n  b\n)");
    assert_eq!(print(&call_variants(), 7), "f(a, b)");
}

#[test]
fn best_fitting_prints_the_first_variant_that_fits() {
    let variants = vec![
        vec![text("aaaa bbbb cccc")],
        vec![text("aaaa bbbb"), hard(), text("cccc")],
        vec![text("aaaa"), hard(), text("bbbb"), hard(), text("cccc")],
    ];
    let element = |variants: Vec<Vec<FormatElement<'static>>>| {
        vec![FormatElement::BestFitting(BestFittingElement::new(variants).unwrap())]
    };
    assert_eq!(print(&element(variants), 14), "aaaa bbbb cccc");
    let variants = vec![
        vec![text("aaaa bbbb cccc")],
        vec![text("aaaa bbbb cc")],
        vec![text("aaaa"), hard(), text("bbbb"), hard(), text("cccc")],
    ];
    assert_eq!(print(&element(variants), 13), "aaaa bbbb cc");
    let variants = vec![
        vec![text("aaaa bbbb cccc")],
        vec![text("aaaa bbbb cc")],
        vec![text("aaaa"), hard(), text("bbbb"), hard(), text("cccc")],
    ];
    assert_eq!(print(&element(variants), 11), "aaaa\nbbbb\ncccc");
}

#[test]
fn best_fitting_measures_from_the_current_column() {
    let mut elements = vec![text("let y = ")];
    elements.append(&mut call_variants());
    assert_eq!(print(&elements, 15), "let y = f(a, b)");
    assert_eq!(print(&elements, 14), "let y = f(\n  a,\n  b\n)");
}

#[test]
fn best_fitting_inside_of_a_flat_group_prints_the_most_flat_variant() {
    let elements = group(concat(vec![vec![text("x")], call_variants()]));
    assert_eq!(print(&elements, 80), "xf(a, b)");
    // The group does not fit, so the element chooses by itself.
    assert_eq!(print(&elements, 7), "xf(\n  a,\n  b\n)");
}

#[test]
fn printing_twice_gives_the_same_text() {
    let elements = array_document();
    for width in [1u16, 10, 16, 80] {
        let first = print_elements(&elements, &options(width)).unwrap();
        let second = print_elements(&elements, &options(width)).unwrap();
        assert_eq!(first, second);
        assert_eq!(first.as_code(), second.as_code());
    }
}

#[test]
fn flat_group_ends_within_the_line_width() {
    for width in 1u16..40 {
        let printed = print(&array_document(), width);
        if !printed.contains('\n') {
            assert!(printed.chars().count() <= width as usize, "{width}: {printed}");
        }
    }
}

#[test]
fn token_wider_than_the_line_is_printed_anyway() {
    let elements = group(vec![text("unbreakable_token_wider_than_budget")]);
    assert_eq!(print(&elements, 5), "unbreakable_token_wider_than_budget");
}

#[test]
fn group_with_a_hard_line_is_expanded_whatever_the_width() {
    let elements = group(vec![text("a"), soft_or_space(), text("b"), hard(), text("c")]);
    assert_eq!(print(&elements, 80), "a\nb\nc");
}

#[test]
fn group_with_an_empty_line_is_expanded_whatever_the_width() {
    let elements =
        group(vec![text("a"), soft_or_space(), text("b"), FormatElement::Line(LineMode::Empty)]);
    assert_eq!(print(&elements, 80), "a\nb\n\n");
}

#[test]
fn group_with_a_multiline_text_is_expanded_whatever_the_width() {
    let elements = group(vec![text("a"), soft_or_space(), text("`x\ny`")]);
    assert_eq!(print(&elements, 80), "a\n`x\ny`");
}

#[test]
fn group_with_an_expand_parent_marker_is_expanded_whatever_the_width() {
    let elements = group(vec![text("a"), soft_or_space(), FormatElement::ExpandParent, text("b")]);
    assert_eq!(print(&elements, 80), "a\nb");
}

#[test]
fn group_around_a_group_that_breaks_is_expanded() {
    let inner = group(vec![text("b"), hard(), text("c")]);
    let elements = group(concat(vec![vec![text("a"), soft_or_space()], inner]));
    assert_eq!(print(&elements, 80), "a\nb\nc");
}

#[test]
fn group_that_was_built_expanded_is_expanded() {
    let elements = vec![
        tag(Tag::StartGroup(Group::new().with_mode(GroupMode::Expand))),
        text("a"),
        soft_or_space(),
        text("b"),
        tag(Tag::EndGroup),
    ];
    assert_eq!(print(&elements, 80), "a\nb");
    let elements = vec![
        tag(Tag::StartGroup(Group::new().with_mode(GroupMode::Propagated))),
        text("a"),
        soft(),
        text("b"),
        tag(Tag::EndGroup),
    ];
    assert_eq!(print(&elements, 80), "a\nb");
}

#[test]
fn inner_group_may_be_flat_in_an_expanded_group() {
    let inner = group(vec![text("bb"), soft_or_space(), text("cc")]);
    let elements = group(concat(vec![
        vec![text("aaaaaaaa"), soft_or_space()],
        inner,
        vec![soft_or_space(), text("dddddddd")],
    ]));
    assert_eq!(print(&elements, 10), "aaaaaaaa\nbb cc\ndddddddd");
}

#[test]
fn breaks_of_a_variant_that_is_not_the_most_flat_do_not_expand_the_group() {
    let elements = group(concat(vec![vec![text("a"), soft_or_space()], call_variants()]));
    assert_eq!(print(&elements, 80), "a f(a, b)");
}

#[test]
fn line_suffix_is_printed_before_the_next_line_break() {
    let elements = concat(vec![
        vec![text("a")],
        line_suffix(vec![text(" // one")]),
        vec![text(";")],
        line_suffix(vec![text(" // two")]),
        vec![hard(), text("b")],
    ]);
    assert_eq!(print(&elements, 80), "a; // one // two\nb");
}

#[test]
fn line_suffix_is_printed_at_a_boundary() {
    let elements = concat(vec![
        vec![text("a")],
        line_suffix(vec![text(" /* c */")]),
        vec![FormatElement::LineSuffixBoundary, text("b"), hard(), text("c")],
    ]);
    assert_eq!(print(&elements, 80), "a /* c */b\nc");
}

#[test]
fn line_suffix_is_printed_at_the_end_of_the_document() {
    let elements = concat(vec![vec![text("a")], line_suffix(vec![text(" // end")]), vec![text(";")]]);
    assert_eq!(print(&elements, 80), "a; // end");
}

#[test]
fn line_suffix_takes_no_width_in_a_group() {
    let elements = group(concat(vec![
        vec![text("aaaa")],
        line_suffix(vec![text(" // a long comment")]),
        vec![soft_or_space(), text("bbbb")],
    ]));
    assert_eq!(print(&elements, 9), "aaaa bbbb // a long comment");
}

#[test]
fn boundary_behind_a_line_suffix_expands_the_group() {
    let elements = group(concat(vec![
        vec![text("a")],
        line_suffix(vec![text(" // c")]),
        vec![soft_or_space(), FormatElement::LineSuffixBoundary, text("b")],
    ]));
    assert_eq!(print(&elements, 80), "a // c\nb");
    let elements =
        group(vec![text("a"), soft_or_space(), FormatElement::LineSuffixBoundary, text("b")]);
    assert_eq!(print(&elements, 80), "a b");
}

#[test]
fn interned_content_is_printed_as_if_it_stood_in_place() {
    let content = || vec![soft(), text("1,"), soft_or_space(), text("2")];
    for width in [5u16, 10, 16, 80] {
        let inline = group(concat(vec![
            vec![text("const x = [")],
            indent(content()),
            vec![soft(), text("]")],
        ]));
        let interned = group(concat(vec![
            vec![text("const x = [")],
            indent(vec![FormatElement::Interned(Interned::new(content()))]),
            vec![soft(), text("]")],
        ]));
        assert_eq!(print(&inline, width), print(&interned, width));
    }
}

#[test]
fn interned_content_may_be_printed_more_than_once() {
    let shared = Interned::new(group(vec![text("a"), soft_or_space(), text("b")]));
    let elements = vec![
        FormatElement::Interned(shared.clone()),
        hard(),
        FormatElement::Interned(shared.clone()),
    ];
    assert_eq!(print(&elements, 80), "a b\na b");
    assert_eq!(print(&elements, 2), "a\nb\na\nb");
}

#[test]
fn interned_elements_are_equal_if_they_share_their_content() {
    let first = Interned::new(vec![text("a")]);
    let second = Interned::new(vec![text("a")]);
    assert!(first == first.clone());
    assert!(first != second);
}

#[test]
fn zero_line_width_is_rejected() {
    let error = print_elements(&array_document(), &options(0)).unwrap_err();
    assert_eq!(error, PrintError::Configuration);
    assert_eq!(Printer::new(options(0)), Err(PrintError::Configuration));
    assert!(Printer::new(options(1)).is_ok());
    assert!(!options(0).is_valid());
    assert!(options(1).is_valid());
}

#[test]
fn configuration_is_looked_at_before_the_document() {
    let elements = vec![tag(Tag::EndGroup)];
    assert_eq!(print_elements(&elements, &options(0)).unwrap_err(), PrintError::Configuration);
}

#[test]
fn end_tag_without_start_tag_is_rejected() {
    let elements = vec![text("a"), tag(Tag::EndGroup)];
    assert_eq!(
        print_error(&elements),
        PrintError::StructuralIntegrity(StructuralIntegrityError::StartTagMissing {
            kind: TagKind::Group
        })
    );
}

#[test]
fn end_tag_of_another_kind_is_rejected() {
    let elements = vec![tag(Tag::StartGroup(Group::new())), text("a"), tag(Tag::EndIndent)];
    assert_eq!(
        print_error(&elements),
        PrintError::StructuralIntegrity(StructuralIntegrityError::StartEndTagMismatch {
            start_kind: TagKind::Group,
            end_kind: TagKind::Indent
        })
    );
}

#[test]
fn start_tag_without_end_tag_is_rejected() {
    let elements = vec![tag(Tag::StartGroup(Group::new())), tag(Tag::StartIndent), text("a")];
    assert_eq!(
        print_error(&elements),
        PrintError::StructuralIntegrity(StructuralIntegrityError::UnclosedRegion {
            kind: TagKind::Indent
        })
    );
}

#[test]
fn interned_content_must_nest_by_itself() {
    let elements = vec![
        tag(Tag::StartGroup(Group::new())),
        FormatElement::Interned(Interned::new(vec![text("a"), tag(Tag::EndGroup)])),
    ];
    assert_eq!(
        print_error(&elements),
        PrintError::StructuralIntegrity(StructuralIntegrityError::StartTagMissing {
            kind: TagKind::Group
        })
    );
}

#[test]
fn best_fitting_needs_two_variants() {
    assert_eq!(
        BestFittingElement::new(vec![vec![text("a")]]),
        Err(MalformedBestFittingError { variants: 1 })
    );
    assert_eq!(BestFittingElement::new(vec![]), Err(MalformedBestFittingError { variants: 0 }));
    let malformed = BestFittingElement { variants: vec![vec![text("a")]] };
    assert_eq!(
        print_error(&[FormatElement::BestFitting(malformed)]),
        PrintError::MalformedBestFitting(MalformedBestFittingError { variants: 1 })
    );
}

#[test]
fn best_fitting_accessors() {
    let element =
        BestFittingElement::from_vec_unchecked(vec![vec![text("a")], vec![text("b")], vec![text("c")]]);
    assert_eq!(element.most_flat(), &[text("a")]);
    assert_eq!(element.most_expanded(), &[text("c")]);
    assert_eq!(element.variants().len(), 3);
}

#[test]
fn error_messages() {
    assert_eq!(PrintError::Configuration.message(), "the maximum line width must be positive");
    assert_eq!(
        print_error(&[tag(Tag::EndFill)]).message(),
        "end tag without a matching start tag"
    );
}

#[test]
fn line_ending_is_the_configured_one() {
    let crlf = options(10).with_line_ending(LineEnding::Crlf);
    assert_eq!(
        print_elements(&array_document(), &crlf).unwrap().as_code(),
        "const x = [\r\n  1,\r\n  2\r\n]"
    );
    let cr = options(10).with_line_ending(LineEnding::Cr);
    assert_eq!(
        print_elements(&array_document(), &cr).unwrap().as_code(),
        "const x = [\r  1,\r  2\r]"
    );
}

#[test]
fn line_feed_in_a_text_is_printed_as_the_line_ending_without_indentation() {
    let elements = indent(vec![hard(), text("`a\nb`"), text("c")]);
    assert_eq!(print(&elements, 80), "\n  `a\nb`c");
    let crlf = options(80).with_line_ending(LineEnding::Crlf);
    assert_eq!(print_elements(&elements, &crlf).unwrap().as_code(), "\r\n  `a\r\nb`c");
}

#[test]
fn column_starts_anew_behind_a_line_feed_in_a_text() {
    // Behind `b` the column is 1, so that the group of five columns fits in six.
    let elements = concat(vec![
        vec![text("aaaaa\nb")],
        group(vec![text("cc"), soft_or_space(), text("dd")]),
    ]);
    assert_eq!(print(&elements, 6), "aaaaa\nbcc dd");
    assert_eq!(print(&elements, 5), "aaaaa\nbcc\ndd");
}

#[test]
fn indentation_follows_style_and_width() {
    let elements = indent(concat(vec![vec![hard(), text("a")], indent(vec![hard(), text("b")])]));
    assert_eq!(print(&elements, 80), "\n  a\n    b");
    let wide = options(80).with_indent_width(4);
    assert_eq!(print_elements(&elements, &wide).unwrap().as_code(), "\n    a\n        b");
    let tabs = options(80).with_indent_style(IndentStyle::Tab);
    assert_eq!(print_elements(&elements, &tabs).unwrap().as_code(), "\n\ta\n\t\tb");
}

#[test]
fn tab_indentation_counts_as_wide_as_the_indent_width() {
    let tabs = options(8).with_indent_style(IndentStyle::Tab).with_indent_width(4);
    let elements = indent(concat(vec![
        vec![hard()],
        group(vec![text("aa"), soft_or_space(), text("bb")]),
    ]));
    // One tab is four columns, `aa bb` five more: nine in all.
    assert_eq!(print_elements(&elements, &tabs).unwrap().as_code(), "\n\taa\n\tbb");
    let tabs = options(9).with_indent_style(IndentStyle::Tab).with_indent_width(4);
    assert_eq!(print_elements(&elements, &tabs).unwrap().as_code(), "\n\taa bb");
}

#[test]
fn dedent_moves_the_indentation_back() {
    let dedent_level = vec![
        tag(Tag::StartDedent(DedentMode::Level)),
        hard(),
        text("c"),
        tag(Tag::EndDedent),
    ];
    let elements = indent(indent(concat(vec![vec![hard(), text("b")], dedent_level])));
    assert_eq!(print(&elements, 80), "\n    b\n  c");
    let dedent_root =
        vec![tag(Tag::StartDedent(DedentMode::Root)), hard(), text("c"), tag(Tag::EndDedent)];
    let elements = indent(indent(concat(vec![vec![hard(), text("b")], dedent_root])));
    assert_eq!(print(&elements, 80), "\n    b\nc");
    let below_root = vec![
        tag(Tag::StartDedent(DedentMode::Level)),
        hard(),
        text("c"),
        tag(Tag::EndDedent),
    ];
    assert_eq!(print(&below_root, 80), "\nc");
}

#[test]
fn empty_line_prints_two_line_endings() {
    let elements = indent(vec![text("a"), FormatElement::Line(LineMode::Empty), text("b")]);
    assert_eq!(print(&elements, 80), "a\n\n  b");
}

#[test]
fn space_is_dropped_at_the_start_of_a_line_and_hard_space_is_not() {
    let elements = vec![FormatElement::Space, text("a"), FormatElement::Space, text("b")];
    assert_eq!(print(&elements, 80), "a b");
    let elements = vec![text("a"), hard(), FormatElement::Space, text("b")];
    assert_eq!(print(&elements, 80), "a\nb");
    let elements = vec![text("a"), hard(), FormatElement::HardSpace, text("b")];
    assert_eq!(print(&elements, 80), "a\n b");
    let elements = vec![FormatElement::HardSpace, FormatElement::Space, text("b")];
    assert_eq!(print(&elements, 80), "  b");
}

#[test]
fn soft_lines_outside_of_a_group_are_line_breaks() {
    let elements = vec![text("a"), soft(), text("b"), soft_or_space(), text("c")];
    assert_eq!(print(&elements, 80), "a\nb\nc");
}

#[test]
fn conditional_content_is_printed_in_its_mode_only() {
    let if_breaks = |mode: PrintMode, content: &'static str| {
        vec![
            tag(Tag::StartConditionalContent(Condition::new(mode))),
            text(content),
            tag(Tag::EndConditionalContent),
        ]
    };
    let elements = group(concat(vec![
        vec![text("[")],
        indent(vec![soft(), text("a")]),
        if_breaks(PrintMode::Expanded, ","),
        if_breaks(PrintMode::Flat, " "),
        vec![soft(), text("]")],
    ]));
    assert_eq!(print(&elements, 80), "[a ]");
    assert_eq!(print(&elements, 3), "[\n  a,\n]");
}

#[test]
fn content_for_the_expanded_mode_takes_no_width_in_a_flat_group() {
    let elements = group(vec![
        text("aa"),
        tag(Tag::StartConditionalContent(Condition::new(PrintMode::Expanded))),
        text("a long text that is printed in an expanded group only"),
        tag(Tag::EndConditionalContent),
        soft_or_space(),
        text("bb"),
    ]);
    assert_eq!(print(&elements, 5), "aa bb");
}

#[test]
fn labelled_content_is_printed_as_it_stands() {
    let elements = vec![
        tag(Tag::StartLabelled(LabelId::new(7))),
        text("a"),
        tag(Tag::EndLabelled),
        text("b"),
    ];
    assert_eq!(print(&elements, 80), "ab");
}

fn fill(words: &[&'static str]) -> Vec<FormatElement<'static>> {
    let mut elements = vec![tag(Tag::StartFill)];
    for (i, word) in words.iter().enumerate() {
        if i > 0 {
            elements.push(soft_or_space());
        }
        elements.push(text(word));
    }
    elements.push(tag(Tag::EndFill));
    elements
}

#[test]
fn fill_puts_on_each_line_as_much_as_fits() {
    let words = ["aaa", "bbb", "ccc", "ddd", "eee"];
    assert_eq!(print(&fill(&words), 80), "aaa bbb ccc ddd eee");
    assert_eq!(print(&fill(&words), 11), "aaa bbb ccc\nddd eee");
    assert_eq!(print(&fill(&words), 7), "aaa bbb\nccc ddd\neee");
    assert_eq!(print(&fill(&words), 3), "aaa\nbbb\nccc\nddd\neee");
}

#[test]
fn fill_inside_of_a_flat_group_is_flat() {
    let elements = group(fill(&["aaa", "bbb", "ccc"]));
    assert_eq!(print(&elements, 11), "aaa bbb ccc");
    assert_eq!(print(&elements, 10), "aaa bbb\nccc");
}

#[test]
fn printer_prints_documents() {
    let printer = Printer::new(options(10)).unwrap();
    let document = Document::new(array_document());
    assert_eq!(printer.print(&document).unwrap().as_code(), "const x = [\n  1,\n  2\n]");
    assert_eq!(document.elements().len(), 11);
    assert!(!document.will_break());
    assert_eq!(document.into_elements().len(), 11);
    let printer = Printer { options: options(0) };
    assert_eq!(printer.print(&Document::new(vec![])), Err(PrintError::Configuration));
}

#[test]
fn empty_document_prints_nothing() {
    assert_eq!(print(&[], 80), "");
}

#[test]
fn dynamic_and_located_text_are_printed_verbatim() {
    let source = String::from("dynamic");
    let elements = vec![
        FormatElement::DynamicText { text: source.as_str() },
        FormatElement::Space,
        FormatElement::LocatedTokenText {
            source_position: 3,
            slice: oxc::formatter::TokenText::new(String::from("tökén")),
        },
    ];
    let printed = print_elements(&elements, &options(80)).unwrap();
    assert_eq!(printed.as_code(), "dynamic tökén");
}

#[test]
fn width_counts_characters_not_bytes() {
    let elements = group(vec![text("äöü"), soft_or_space(), text("ß")]);
    assert_eq!(print(&elements, 5), "äöü ß");
    assert_eq!(print(&elements, 4), "äöü\nß");
}

#[test]
fn default_options() {
    let options = PrinterOptions::default();
    assert_eq!(options.max_line_width, 80);
    assert_eq!(options.indent_width, 2);
    assert_eq!(options.indent_style, IndentStyle::Space);
    assert_eq!(options.line_ending, LineEnding::Lf);
}
