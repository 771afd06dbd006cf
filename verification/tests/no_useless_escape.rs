use oxc::linter::diagnostic::{Report, Span};
use oxc::linter::rules::eslint::no_useless_escape::{
    check_character, check_string, check_template, Character, CharacterClass, EscapeNode,
    NoUselessEscape, RegexNode, TemplateElement, UselessEscapeFinder,
};
use serde_json::Value;

/// `[{ "allowRegexCharacters": [..] }]`
fn allow(characters: &[&str]) -> Option<Value> {
    let mut options = serde_json::Map::new();
    options.insert(
        "allowRegexCharacters".to_string(),
        Value::Array(characters.iter().map(|c| Value::String(c.to_string())).collect()),
    );
    Some(Value::Array(vec![Value::Object(options)]))
}

fn span(start: usize, end: usize) -> Span {
    Span::new(start as u32, end as u32)
}

/// Reads the pattern of a regular expression, which starts at `at`, up to
/// the `end` character that closes it.
fn regex_nodes(source: &str, at: &mut usize, end: char, unicode_sets: bool) -> Vec<RegexNode> {
    let mut nodes = vec![];
    while let Some(c) = source[*at..].chars().next() {
        let start = *at;
        if c == end {
            break;
        } else if c == '\\' {
            let escaped = source[start + 1..].chars().next().unwrap();
            *at += 1 + escaped.len_utf8();
            let text = source[start..*at].to_string();
            nodes.push(RegexNode::Character(Character { span: span(start, *at), text }));
        } else if c == '[' && (end == '/' || unicode_sets) {
            *at += 1;
            let negative = source[*at..].starts_with('^');
            if negative {
                *at += 1;
            }
            let body = regex_nodes(source, at, ']', unicode_sets);
            *at += 1;
            let class = CharacterClass { span: span(start, *at), negative };
            nodes.push(RegexNode::CharacterClass(class, body));
        } else {
            *at += c.len_utf8();
            let text = c.to_string();
            nodes.push(RegexNode::Character(Character { span: span(start, *at), text }));
        }
    }
    nodes
}

/// Reads the elements of a template whose text starts at `at`.
fn template_elements(source: &str, at: &mut usize, nodes: &mut Vec<(EscapeNode, bool)>) -> Vec<TemplateElement> {
    let mut quasis = vec![];
    let mut start = *at;
    loop {
        let rest = &source[*at..];
        if rest.starts_with('`') {
            quasis.push(TemplateElement { span: span(start, *at), text: source[start..*at].to_string() });
            *at += 1;
            return quasis;
        } else if rest.starts_with('\\') {
            *at += 1 + rest[1..].chars().next().unwrap().len_utf8();
        } else if rest.starts_with("${") {
            quasis.push(TemplateElement { span: span(start, *at), text: source[start..*at].to_string() });
            *at += 2;
            scan(source, at, Some('}'), false, nodes);
            *at += 1;
            start = *at;
        } else {
            *at += rest.chars().next().unwrap().len_utf8();
        }
    }
}

/// Reads the literals of `source` from `at` on, up to the `end` character.
fn scan(source: &str, at: &mut usize, end: Option<char>, jsx: bool, nodes: &mut Vec<(EscapeNode, bool)>) {
    let mut previous = ' ';
    while let Some(c) = source[*at..].chars().next() {
        let start = *at;
        if Some(c) == end {
            return;
        }
        if c == '"' || c == '\'' {
            *at += 1;
            loop {
                let next = source[*at..].chars().next().unwrap();
                *at += next.len_utf8();
                if next == '\\' {
                    *at += source[*at..].chars().next().unwrap().len_utf8();
                } else if next == c {
                    break;
                }
            }
            let text = source[start..*at].to_string();
            let attribute = jsx && previous == '=';
            nodes.push((EscapeNode::StringLiteral { span: span(start, *at), text }, attribute));
        } else if c == '`' {
            *at += 1;
            let tagged = previous.is_alphanumeric();
            let quasis = template_elements(source, at, nodes);
            nodes.push((EscapeNode::TemplateLiteral { quasis, tagged }, false));
        } else if c == '/' && !jsx && "=(,;:[!&|?{}".contains(previous) || c == '/' && start == 0 {
            *at += 1;
            let pattern_start = *at;
            let mut probe = *at;
            let flags_at = {
                regex_nodes(source, &mut probe, '/', false);
                probe + 1
            };
            let flags: String =
                source[flags_at..].chars().take_while(|c| c.is_ascii_alphabetic()).collect();
            let unicode_sets = flags.contains('v');
            let pattern = regex_nodes(source, at, '/', unicode_sets);
            let pattern_len = *at - pattern_start;
            *at += 1 + flags.len();
            nodes.push((
                EscapeNode::RegExpLiteral {
                    span: span(start, *at),
                    pattern_len,
                    flags: flags.len(),
                    unicode_sets,
                    pattern: Some(pattern),
                },
                false,
            ));
        } else {
            *at += c.len_utf8();
        }
        if !c.is_whitespace() {
            previous = source[..*at].chars().last().unwrap();
        }
    }
}

/// What the rule reports for `source`.
fn lint(source: &str, config: Option<Value>) -> Vec<Report> {
    let rule = match config {
        Some(config) => NoUselessEscape::from_configuration(config),
        None => NoUselessEscape::default(),
    };
    let mut nodes = vec![];
    scan(source, &mut 0, None, source.starts_with('<'), &mut nodes);
    nodes.iter().flat_map(|(node, attribute)| rule.run(node, *attribute, source)).collect()
}

/// `source` with what mends the reports.
fn fix(source: &str, config: Option<Value>) -> String {
    let mut reports = lint(source, config);
    reports.sort_by_key(|report| report.fix.span.start);
    let mut fixed = source.to_string();
    for report in reports.iter().rev() {
        let range = report.fix.span.start as usize..report.fix.span.end as usize;
        fixed.replace_range(range, &report.fix.text);
    }
    fixed
}

#[test]
fn no_useless_escape_test() {
    let pass = vec![
        ("var foo = /\\./", None),
        ("var foo = /\\//g", None),
        (r#"var foo = /""/"#, None),
        ("var foo = /''/", None),
        ("var foo = /([A-Z])\\t+/g", None),
        ("var foo = /([A-Z])\\n+/g", None),
        ("var foo = /([A-Z])\\v+/g", None),
        ("var foo = /\\D/", None),
        ("var foo = /\\W/", None),
        ("var foo = /\\w/", None),
        ("var foo = /\\\\/g", None),
        ("var foo = /\\w\\$\\*\\./", None),
        ("var foo = /\\^\\+\\./", None),
        ("var foo = /\\|\\}\\{\\./", None),
        ("var foo = /]\\[\\(\\)\\//", None),
        (r#"var foo = "\x123""#, None),
        (r#"var foo = "\u00a9""#, None),
        (r#"var foo = "\377""#, None),
        (r#"var foo = "\"""#, None),
        (r#"var foo = "xs\u2111""#, None),
        (r#"var foo = "foo \\ bar";"#, None),
        (r#"var foo = "\t";"#, None),
        (r#"var foo = "foo \b bar";"#, None),
        ("var foo = '\\n';", None),
        ("var foo = 'foo \\r bar';", None),
        ("var foo = '\\v';", None),
        ("var foo = '\\f';", None),
        ("var foo = '\\\n';", None),
        ("var foo = '\\\r\n';", None),
        (r#"<foo attr="\d"/>"#, None),
        ("<div> Testing: \\ </div>", None),
        ("<div> Testing: &#x5C </div>", None),
        ("<foo attr='\\d'></foo>", None),
        ("<> Testing: \\ </>", None),
        ("<> Testing: &#x5C </>", None),
        ("var foo = `\\x123`", None),
        ("var foo = `\\u00a9`", None),
        ("var foo = `xs\\u2111`", None),
        ("var foo = `foo \\\\ bar`;", None),
        ("var foo = `\\t`;", None),
        ("var foo = `foo \\b bar`;", None),
        ("var foo = `\\n`;", None),
        ("var foo = `foo \\r bar`;", None),
        ("var foo = `\\v`;", None),
        ("var foo = `\\f`;", None),
        ("var foo = `\\\n`;", None),
        ("var foo = `\\\r\n`;", None),
        ("var foo = `${foo} \\x123`", None),
        ("var foo = `${foo} \\u00a9`", None),
        ("var foo = `${foo} xs\\u2111`", None),
        ("var foo = `${foo} \\\\ ${bar}`;", None),
        ("var foo = `${foo} \\b ${bar}`;", None),
        ("var foo = `${foo}\\t`;", None),
        ("var foo = `${foo}\\n`;", None),
        ("var foo = `${foo}\\r`;", None),
        ("var foo = `${foo}\\v`;", None),
        ("var foo = `${foo}\\f`;", None),
        ("var foo = `${foo}\\\n`;", None),
        ("var foo = `${foo}\\\r\n`;", None),
        ("var foo = `\\``", None),
        ("var foo = `\\`${foo}\\``", None),
        ("var foo = `\\${{${foo}`;", None),
        ("var foo = `$\\{{${foo}`;", None),
        ("var foo = String.raw`\\.`", None),
        ("var foo = myFunc`\\.`", None),
        (r"var foo = /[\d]/", None),
        (r"var foo = /[a\-b]/", None),
        (r"var foo = /foo\?/", None),
        (r"var foo = /example\.com/", None),
        (r"var foo = /foo\|bar/", None),
        (r"var foo = /\^bar/", None),
        (r"var foo = /[\^bar]/", None),
        (r"var foo = /\(bar\)/", None),
        (r"var foo = /[[\]]/", None),
        (r"var foo = /[[]\./", None),
        (r"var foo = /[\]\]]/", None),
        (r"var foo = /\[abc]/", None),
        (r"var foo = /\[foo\.bar]/", None),
        (r"var foo = /vi/m", None),
        (r"var foo = /\B/", None),
        (r"var foo = /\0/", None),
        ("var foo = /\\1/", None),
        ("var foo = /(a)\\1/", None),
        ("var foo = /(a)\\12/", None),
        ("var foo = /[\\0]/", None),
        ("var foo = 'foo \\  bar'", None),
        ("var foo = 'foo \\  bar'", None),
        (r"/]/", None),
        (r"/\]/", None),
        (r"/\]/u", None),
        (r"var foo = /foo\]/", None),
        (r"var foo = /[[]\]/", None),
        (r"var foo = /\[foo\.bar\]/", None),
        // ES2018
        (r"var foo = /(?<a>)\k<a>/", None),
        (r"var foo = /(\\?<a>)/", None),
        (r"var foo = /\p{ASCII}/u", None),
        (r"var foo = /\P{ASCII}/u", None),
        (r"var foo = /[\p{ASCII}]/u", None),
        (r"var foo = /[\P{ASCII}]/u", None),
        // Carets
        (r"/[^^]/", None),
        (r"/[^^]/u", None),
        // ES2024
        (r"/[\q{abc}]/v", None),
        (r"/[\(]/v", None),
        (r"/[\)]/v", None),
        (r"/[\{]/v", None),
        (r"/[\]]/v", None),
        (r"/[\}]/v", None),
        (r"/[\/]/v", None),
        (r"/[\-]/v", None),
        (r"/[\|]/v", None),
        (r"/[\$$]/v", None),
        (r"/[\&&]/v", None),
        (r"/[\!!]/v", None),
        (r"/[\##]/v", None),
        (r"/[\%%]/v", None),
        (r"/[\**]/v", None),
        (r"/[\++]/v", None),
        (r"/[\,,]/v", None),
        (r"/[\..]/v", None),
        (r"/[\::]/v", None),
        (r"/[\;;]/v", None),
        (r"/[\<<]/v", None),
        (r"/[\==]/v", None),
        (r"/[\>>]/v", None),
        (r"/[\??]/v", None),
        (r"/[\@@]/v", None),
        ("/[\\``]/v", None),
        (r"/[\~~]/v", None),
        (r"/[^\^^]/v", None),
        (r"/[_\^^]/v", None),
        (r"/[$\$]/v", None),
        (r"/[&\&]/v", None),
        (r"/[!\!]/v", None),
        (r"/[#\#]/v", None),
        (r"/[%\%]/v", None),
        (r"/[*\*]/v", None),
        (r"/[+\+]/v", None),
        (r"/[,\,]/v", None),
        (r"/[.\.]/v", None),
        (r"/[:\:]/v", None),
        (r"/[;\;]/v", None),
        (r"/[<\<]/v", None),
        (r"/[=\=]/v", None),
        (r"/[>\>]/v", None),
        (r"/[?\?]/v", None),
        (r"/[@\@]/v", None),
        ("/[`\\`]/v", None),
        (r"/[~\~]/v", None),
        (r"/[^^\^]/v", None),
        (r"/[_^\^]/v", None),
        (r"/[\&&&\&]/v", None),
        (r"/[[\-]\-]/v", None),
        (r"/[\^]/v", None),
        ("var foo = /\\#/;", allow(&["#"])),
        ("var foo = /\\;/;", allow(&[";"])),
        ("var foo = /\\#\\;/;", allow(&["#", ";"])),
        (r"var foo = /[ab\-]/", allow(&["-"])),
        (r"var foo = /[\-ab]/", allow(&["-"])),
        (r"var foo = /[ab\?]/", allow(&["?"])),
        (r"var foo = /[ab\.]/", allow(&["."])),
        (r"var foo = /[a\|b]/", allow(&["|"])),
        (r"var foo = /\-/", allow(&["-"])),
        (r"var foo = /[\-]/", allow(&["-"])),
        (r"var foo = /[ab\$]/", allow(&["$"])),
        (r"var foo = /[\(paren]/", allow(&["("])),
        (r"var foo = /[\[]/", allow(&["["])),
        (r"var foo = /[\/]/", allow(&["/"])),
        (r"var foo = /[\B]/", allow(&["B"])),
        (r"var foo = /[a][\-b]/", allow(&["-"])),
        (r"var foo = /\-[]/", allow(&["-"])),
        (r"var foo = /[a\^]/", allow(&["^"])),
        (r"/[^\^]/", allow(&["^"])),
        (r"/[^\^]/u", allow(&["^"])),
        (r"/[\$]/v", allow(&["$"])),
        (r"/[\&\&]/v", allow(&["&"])),
        (r"/[\!!]/v", allow(&["!"])),
        (r"/[\##]/v", allow(&["#"])),
        (r"/[\%%]/v", allow(&["%"])),
        (r"/[\*\*]/v", allow(&["*"])),
        (r"/[\+\+]/v", allow(&["+"])),
        (r"/[\,,]/v", allow(&[","])),
        (r"/[\..]/v", allow(&["."])),
        (r"/[\:\:]/v", allow(&[":"])),
        (r"/[\;\;]/v", allow(&[";"])),
        (r"/[\<\<]/v", allow(&["<"])),
        (r"/[\=\=]/v", allow(&["="])),
        (r"/[\>\>]/v", allow(&[">"])),
        (r"/[\?\?]/v", allow(&["?"])),
        (r"/[\@\@]/v", allow(&["@"])),
        ("/[\\``]/v", allow(&["`"])),
        (r"/[\~\~]/v", allow(&["~"])),
        (r"/[^\^\^]/v", allow(&["^"])),
        (r"/[_\^\^]/v", allow(&["^"])),
        (r"/[\&\&&\&]/v", allow(&["&"])),
        (r"/[\p{ASCII}--\.]/v", allow(&["."])),
        (r"/[\p{ASCII}&&\.]/v", allow(&["."])),
        (r"/[\.--[.&]]/v", allow(&["."])),
        (r"/[\.&&[.&]]/v", allow(&["."])),
        (r"/[\.--\.--\.]/v", allow(&["."])),
        (r"/[\.&&\.&&\.]/v", allow(&["."])),
        (r"/[[\.&]--[\.&]]/v", allow(&["."])),
        (r"/[[\.&]&&[\.&]]/v", allow(&["."])),
    ];

    let fail = vec![
        ("var foo = /\\#/;", None),
        ("var foo = /\\;/;", None),
        (r#"var foo = "\'";"#, None),
        (r#"var foo = "\#/";"#, None),
        (r#"var foo = "\a""#, None),
        (r#"var foo = "\B";"#, None),
        (r#"var foo = "\@";"#, None),
        (r#"var foo = "foo \a bar";"#, None),
        (r#"var foo = '\"';"#, None),
        ("var foo = '\\#';", None),
        ("var foo = '\\$';", None),
        ("var foo = '\\p';", None),
        ("var foo = '\\p\\a\\@';", None),
        (r#"<foo attr={"\d"}/>"#, None),
        ("var foo = '\\`';", None),
        (r#"var foo = `\"`;"#, None),
        ("var foo = `\\'`;", None),
        ("var foo = `\\#`;", None),
        ("var foo = '\\`foo\\`';", None),
        (r#"var foo = `\"${foo}\"`;"#, None),
        ("var foo = `\\'${foo}\\'`;", None),
        ("var foo = `\\#${foo}`;", None),
        ("let foo = '\\ ';", None),
        ("let foo = /\\ /;", None),
        ("var foo = `\\$\\{{${foo}`;", None),
        ("var foo = `\\$a${foo}`;", None),
        ("var foo = `a\\{{${foo}`;", None),
        (r"var foo = /[ab\-]/", None),
        (r"var foo = /[\-ab]/", None),
        (r"var foo = /[ab\?]/", None),
        (r"var foo = /[ab\.]/", None),
        (r"var foo = /[a\|b]/", None),
        (r"var foo = /\-/", None),
        (r"var foo = /[\-]/", None),
        (r"var foo = /[ab\$]/", None),
        (r"var foo = /[\(paren]/", None),
        (r"var foo = /[\[]/", None),
        (r"var foo = /[\/]/", None),
        (r"var foo = /[\B]/", None),
        (r"var foo = /[a][\-b]/", None),
        (r"var foo = /\-[]/", None),
        (r"var foo = /[a\^]/", None),
        (
            "`multiline template
			literal with useless \\escape`",
            None,
        ),
        (
            "`multiline template
			literal with useless \\escape`",
            None,
        ),
        (
            "`template literal with line continuation \\
			and useless \\escape`",
            None,
        ),
        (
            "`template literal with line continuation \\
			and useless \\escape`",
            None,
        ),
        ("`template literal with mixed linebreaks \r\r\n\n\\and useless escape`", None),
        (
            "`template literal with mixed linebreaks in line continuations \\\n\\\r\\\r\n\\and useless escape`",
            None,
        ),
        ("`\\a```", None),
        (r#""use\ strict";"#, None),
        (r"var foo = /\（([^\）\（]+)\）$|\(([^\)\)]+)\)$/;", None),
        (r#"var stringLiteralWithNextLine = "line 1\line 2";"#, None),
        (r"var stringLiteralWithNextLine = `line 1\line 2`;", None),
        (r#"({ foo() { "foo"; "bar"; "ba\z" } })"#, None),
        // Carets
        (r"/[^\^]/", None),
        (r"/[^\^]/u", None),
        // ES2024
        (r"/[\$]/v", None),
        (r"/[\&\&]/v", None),
        (r"/[\!\!]/v", None),
        (r"/[\#\#]/v", None),
        (r"/[\%\%]/v", None),
        (r"/[\*\*]/v", None),
        (r"/[\+\+]/v", None),
        (r"/[\,\,]/v", None),
        (r"/[\.\.]/v", None),
        (r"/[\:\:]/v", None),
        (r"/[\;\;]/v", None),
        (r"/[\<\<]/v", None),
        (r"/[\=\=]/v", None),
        (r"/[\>\>]/v", None),
        (r"/[\?\?]/v", None),
        (r"/[\@\@]/v", None),
        ("/[\\`\\`]/v", None),
        (r"/[\~\~]/v", None),
        (r"/[^\^\^]/v", None),
        (r"/[_\^\^]/v", None),
        (r"/[\&\&&\&]/v", None),
        (r"/[\p{ASCII}--\.]/v", None),
        (r"/[\p{ASCII}&&\.]/v", None),
        (r"/[\.--[.&]]/v", None),
        (r"/[\.&&[.&]]/v", None),
        (r"/[\.--\.--\.]/v", None),
        (r"/[\.&&\.&&\.]/v", None),
        (r"/[[\.&]--[\.&]]/v", None),
        (r"/[[\.&]&&[\.&]]/v", None),
        (r#"var foo = "\#/";"#, allow(&["#"])),
        ("var foo = /\\#\\@/;", allow(&["#"])),
        (r"var foo = /[a\@b]/", allow(&["#"])),
        (r"/[\@\@]/v", allow(&["#"])),
    ];

    let fixes = vec![
        ("var foo = /\\#/;", "var foo = /#/;", None),
        ("var foo = /\\;/;", "var foo = /;/;", None),
        ("var foo = \"\\'\";", "var foo = \"'\";", None),
        ("var foo = \"\\#/\";", "var foo = \"#/\";", None),
        ("var foo = \"\\a\"", "var foo = \"a\"", None),
        ("var foo = \"\\B\";", "var foo = \"B\";", None),
        ("var foo = \"\\@\";", "var foo = \"@\";", None),
        ("var foo = \"foo \\a bar\";", "var foo = \"foo a bar\";", None),
        ("var foo = '\\\"';", "var foo = '\"';", None),
        ("var foo = '\\#';", "var foo = '#';", None),
        ("var foo = '\\$';", "var foo = '$';", None),
        ("var foo = '\\p';", "var foo = 'p';", None),
        ("var foo = '\\p\\a\\@';", "var foo = 'pa@';", None),
        ("<foo attr={\"\\d\"}/>", "<foo attr={\"d\"}/>", None),
        ("var foo = '\\`';", "var foo = '`';", None),
        ("var foo = `\\\"`;", "var foo = `\"`;", None),
        ("var foo = `\\'`;", "var foo = `'`;", None),
        ("var foo = `\\#`;", "var foo = `#`;", None),
        ("var foo = '\\`foo\\`';", "var foo = '`foo`';", None),
        ("var foo = `\\\"${foo}\\\"`;", "var foo = `\"${foo}\"`;", None),
        ("var foo = `\\'${foo}\\'`;", "var foo = `'${foo}'`;", None),
        ("var foo = `\\#${foo}`;", "var foo = `#${foo}`;", None),
        ("let foo = '\\ ';", "let foo = ' ';", None),
        ("let foo = /\\ /;", "let foo = / /;", None),
        ("var foo = `\\$\\{{${foo}`;", "var foo = `$\\{{${foo}`;", None),
        (r#""use\ strict";"#, r#""use strict";"#, None),
        (r#"({ foo() { "foo"; "bar"; "ba\z" } })"#, r#"({ foo() { "foo"; "bar"; "baz" } })"#, None),
        // Carets
        (r"/[^\^]/", r"/[^^]/", None),
        (r"/[^\^]/u", r"/[^^]/u", None),
        // ES2024
        (r"/[\$]/v", r"/[$]/v", None),
        (r"/[\&\&]/v", r"/[&\&]/v", None),
        (r"/[\!\!]/v", r"/[!\!]/v", None),
        (r"/[\#\#]/v", r"/[#\#]/v", None),
        (r"/[\%\%]/v", r"/[%\%]/v", None),
        (r"/[\*\*]/v", r"/[*\*]/v", None),
        (r"/[\+\+]/v", r"/[+\+]/v", None),
        (r"/[\,\,]/v", r"/[,\,]/v", None),
        (r"/[\.\.]/v", r"/[.\.]/v", None),
        (r"/[\:\:]/v", r"/[:\:]/v", None),
        (r"/[\;\;]/v", r"/[;\;]/v", None),
        (r"/[\<\<]/v", r"/[<\<]/v", None),
        (r"/[\=\=]/v", r"/[=\=]/v", None),
        (r"/[\>\>]/v", r"/[>\>]/v", None),
        (r"/[\?\?]/v", r"/[?\?]/v", None),
        (r"/[\@\@]/v", r"/[@\@]/v", None),
        (r"/[\`\`]/v", r"/[`\`]/v", None),
        (r"/[\~\~]/v", r"/[~\~]/v", None),
        (r"/[^\^\^]/v", r"/[^^\^]/v", None),
        (r"/[_\^\^]/v", r"/[_^\^]/v", None),
        (r"/[\&\&&\&]/v", r"/[&\&&\&]/v", None),
        (r"/[\p{ASCII}--\.]/v", r"/[\p{ASCII}--.]/v", None),
        (r"/[\p{ASCII}&&\.]/v", r"/[\p{ASCII}&&.]/v", None),
        (r"/[\.--[.&]]/v", r"/[.--[.&]]/v", None),
        (r"/[\.&&[.&]]/v", r"/[.&&[.&]]/v", None),
        (r"/[\.--\.--\.]/v", r"/[.--.--.]/v", None),
        (r"/[\.&&\.&&\.]/v", r"/[.&&.&&.]/v", None),
        (r"/[[\.&]--[\.&]]/v", r"/[[.&]--[.&]]/v", None),
        (r"/[[\.&]&&[\.&]]/v", r"/[[.&]&&[.&]]/v", None),
        (
            // https://github.com/oxc-project/oxc/issues/5227
            r"const regex = /(https?:\/\/github\.com\/(([^\s]+)\/([^\s]+))\/([^\s]+\/)?(issues|pull)\/([0-9]+))|(([^\s]+)\/([^\s]+))?#([1-9][0-9]*)($|[\s\:\;\-\(\=])/;",
            r"const regex = /(https?:\/\/github\.com\/(([^\s]+)\/([^\s]+))\/([^\s]+\/)?(issues|pull)\/([0-9]+))|(([^\s]+)\/([^\s]+))?#([1-9][0-9]*)($|[\s:;\-(=])/;",
            None,
        ),
    ];

    for (source, config) in pass {
        let reports = lint(source, config);
        assert!(reports.is_empty(), "{source}: {reports:?}");
    }
    for (source, config) in fail {
        assert!(!lint(source, config).is_empty(), "{source}");
    }
    for (source, expected, config) in fixes {
        assert_eq!(fix(source, config), expected, "{source}");
    }
}

#[test]
fn report_names_the_character_and_takes_the_backslash_out() {
    let reports = lint(r#"var foo = "\a";"#, None);
    assert_eq!(reports.len(), 1);
    assert_eq!(reports[0].diagnostic.message, "Unnecessary escape character 'a'");
    assert_eq!(reports[0].diagnostic.label, Some(Span::new(11, 13)));
    assert_eq!(reports[0].diagnostic.help, None);
    assert_eq!(reports[0].fix.span, Span::new(11, 13));
    assert_eq!(reports[0].fix.text, "a");
    let reports = lint("var foo = /\\'/;", None);
    assert_eq!(reports[0].diagnostic.message, "Unnecessary escape character '\\''");
}

#[test]
fn report_covers_a_character_of_more_than_one_byte() {
    let reports = lint("var foo = '\\ä';", None);
    assert_eq!(reports.len(), 1);
    assert_eq!(reports[0].diagnostic.label, Some(Span::new(11, 14)));
    assert_eq!(reports[0].fix.text, "ä");
    let reports = lint("var foo = `ä\\ö`;", None);
    assert_eq!(reports.len(), 1);
    assert_eq!(reports[0].diagnostic.label, Some(Span::new(13, 16)));
}

#[test]
fn offsets_of_useless_escapes_in_a_string() {
    assert_eq!(check_string(r#""\a""#), vec![2]);
    assert_eq!(check_string(r#""a\bc\d\e""#), vec![6, 8]);
    assert_eq!(check_string(r#""\"""#), Vec::<usize>::new());
    assert_eq!(check_string(r#"'\"'"#), vec![2]);
    assert_eq!(check_string(r#""\\a""#), Vec::<usize>::new());
    assert_eq!(check_string(r#""ä\ö\a""#), vec![4, 7]);
    assert_eq!(check_string(r#""\7""#), Vec::<usize>::new());
    // A backslash before the closing quote has nothing behind it.
    assert_eq!(check_string(r#""a\""#), Vec::<usize>::new());
    assert_eq!(check_string(""), Vec::<usize>::new());
    assert_eq!(check_string("\""), Vec::<usize>::new());
    assert_eq!(check_string("\"\""), Vec::<usize>::new());
}

#[test]
fn offsets_of_useless_escapes_in_a_template() {
    assert_eq!(check_template(r"\a"), vec![2]);
    assert_eq!(check_template(r"a\b\c"), vec![5]);
    assert_eq!(check_template(r"ä\ö"), vec![4]);
    assert_eq!(check_template(r"\`\7\\\n"), Vec::<usize>::new());
    assert_eq!(check_template(r"\${"), Vec::<usize>::new());
    assert_eq!(check_template(r"\$a"), vec![2]);
    assert_eq!(check_template(r"\$"), Vec::<usize>::new());
    assert_eq!(check_template(r"$\{"), Vec::<usize>::new());
    assert_eq!(check_template(r"a\{"), vec![3]);
    assert_eq!(check_template(r"\{"), vec![2]);
    assert_eq!(check_template(""), Vec::<usize>::new());
    assert_eq!(check_template("\\"), Vec::<usize>::new());
}

#[test]
fn escaped_character_of_a_pattern() {
    let source: Vec<char> = r"/[a\-b]\-/".chars().collect();
    let class = CharacterClass { span: Span::new(1, 7), negative: false };
    let inside = Character { span: Span::new(3, 5), text: r"\-".to_string() };
    let outside = Character { span: Span::new(7, 9), text: r"\-".to_string() };
    let plain = Character { span: Span::new(2, 3), text: "a".to_string() };
    assert_eq!(check_character(&source, &inside, Some(&class), false), None);
    assert_eq!(check_character(&source, &outside, None, false), Some(Span::new(7, 9)));
    assert_eq!(check_character(&source, &plain, Some(&class), false), None);
    // At the start or the end of a class the hyphen needs no backslash.
    let at_start = Character { span: Span::new(2, 4), text: r"\-".to_string() };
    assert_eq!(check_character(&source, &at_start, Some(&class), false), Some(Span::new(2, 4)));
    let at_end = Character { span: Span::new(4, 6), text: r"\-".to_string() };
    assert_eq!(check_character(&source, &at_end, Some(&class), false), Some(Span::new(4, 6)));
}

#[test]
fn finder_keeps_the_order_of_the_pattern() {
    let source = r"/\!([\@\d][\#])\;/";
    let mut at = 1;
    let nodes = regex_nodes(source, &mut at, '/', false);
    let chars: Vec<char> = source.chars().collect();
    let mut finder = UselessEscapeFinder::new(&chars, false);
    finder.visit_nodes(&nodes);
    let found: Vec<(u32, char)> =
        finder.useless_escapes.iter().map(|escape| (escape.span.start, escape.escaped)).collect();
    assert_eq!(found, vec![(1, '!'), (5, '@'), (11, '#'), (15, ';')]);
    assert!(finder.character_classes.is_empty());
}

#[test]
fn configuration_lists_the_characters_that_are_allowed() {
    let rule = NoUselessEscape::from_configuration(allow(&["#", "ab", "", ";"]).unwrap());
    assert_eq!(rule.allow_regex_characters, vec!['#', 'a', ';']);
    let mut options = serde_json::Map::new();
    options.insert(
        "allowRegexCharacters".to_string(),
        Value::Array(vec![Value::Bool(true), Value::String("x".to_string()), Value::Null]),
    );
    let rule = NoUselessEscape::from_configuration(Value::Array(vec![Value::Object(options)]));
    assert_eq!(rule.allow_regex_characters, vec!['x']);
    for value in [
        Value::Null,
        Value::Array(vec![]),
        Value::Array(vec![Value::String("#".to_string())]),
        Value::Array(vec![Value::Object(serde_json::Map::new())]),
        Value::Object(serde_json::Map::new()),
    ] {
        assert!(NoUselessEscape::from_configuration(value).allow_regex_characters.is_empty());
    }
}
