use yasg::expressions::{Expr, Path, Predicate::Exists};
use yasg::template_parser::parse;
use yasg::template_parser::TemplateNode::{ForEach, If, Sequence, Text, Var};
use yasg::template_tokenizer::TemplateToken;

#[test]
fn parse_handles_empty_input() {
    let tokens = vec![];
    let result = parse(&tokens).unwrap();
    assert_eq!(result.root, Sequence(Vec::new()));
}

#[test]
fn parse_handles_simple_text() {
    let text = "This is a simple text.";
    let tokens = vec![TemplateToken::Text(text)];
    let result = parse(&tokens).unwrap();
    assert_eq!(result.root, Sequence(vec![Box::new(Text(text))]));
}

#[test]
fn parse_handles_text_with_variables() {
    let tokens = vec![
        TemplateToken::Text("Hello, "),
        TemplateToken::Var(Path::from_segment("name")),
        TemplateToken::Text("! Welcome to "),
        TemplateToken::Var(Path::from_segments(vec!["place", "address"])),
        TemplateToken::Text("."),
    ];
    let result = parse(&tokens).unwrap();
    assert_eq!(
        result.root,
        Sequence(vec![
            Box::new(Text("Hello, ")),
            Box::new(Var(Path::from_segment("name"))),
            Box::new(Text("! Welcome to ")),
            Box::new(Var(Path::from_segments(vec!["place", "address"]))),
            Box::new(Text("."))
        ])
    );
}

#[test]
fn parse_handles_foreach() {
    let tokens = vec![
        TemplateToken::For("section", Path::from_segment("sections")),
        TemplateToken::Text("\n  Section. Title: "),
        TemplateToken::Var(Path::from_segments(vec!["section", "title"])),
        TemplateToken::Text("\n"),
        TemplateToken::EndFor("section"),
    ];
    let result = parse(&tokens).unwrap();
    assert_eq!(
        result.root,
        Sequence(vec![Box::new(ForEach(
            "section",
            Path {
                segments: vec!["sections"]
            },
            Box::new(Sequence(vec![
                Box::new(Text("\n  Section. Title: ")),
                Box::new(Var(Path::from_segments(vec!["section", "title"]))),
                Box::new(Text("\n"))
            ]))
        ))])
    );
}

#[test]
fn parse_handles_nested_foreach() {
    let tokens = vec![
        TemplateToken::For("section", Path::from_segment("sections")),
        TemplateToken::Text("\n  <ul>\n    "),
        TemplateToken::For("link", Path::from_segments(vec!["section", "links"])),
        TemplateToken::Text("\n      <li>\n        Link: "),
        TemplateToken::Var(Path::from_segments(vec!["link", "href"])),
        TemplateToken::Text("\n      </li>\n    "),
        TemplateToken::EndFor("link"),
        TemplateToken::Text("\n  </ul>\n"),
        TemplateToken::EndFor("section"),
    ];
    let result = parse(&tokens).unwrap();
    assert_eq!(
        result.root,
        Sequence(vec![Box::new(ForEach(
            "section",
            Path {
                segments: vec!["sections"]
            },
            Box::new(Sequence(vec![
                Box::new(Text("\n  <ul>\n    ")),
                Box::new(ForEach(
                    "link",
                    Path::from_segments(vec!["section", "links"]),
                    Box::new(Sequence(vec![
                        Box::new(Text("\n      <li>\n        Link: ")),
                        Box::new(Var(Path::from_segments(vec!["link", "href"]))),
                        Box::new(Text("\n      </li>\n    "))
                    ]))
                )),
                Box::new(Text("\n  </ul>\n"))
            ]))
        ))])
    );
}

#[test]
fn parse_nested_foreach_with_incorrect_closing_order_fails() {
    assert_invalid_syntax(
        &vec![
            TemplateToken::For("section", Path::from_segment("sections")),
            TemplateToken::Text("\n      <ul>\n        "),
            TemplateToken::For("link", Path::from_segments(vec!["section", "links"])),
            TemplateToken::Text("\n          <li>\n            Link: "),
            TemplateToken::Var(Path::from_segments(vec!["link", "href"])),
            TemplateToken::Text("\n          </li>\n        "),
            TemplateToken::EndFor("section"),
            TemplateToken::Text("\n      </ul>\n    "),
            TemplateToken::EndFor("link"),
        ],
        "Unexpected token EndFor(\"section\") nested in Some(For(\"link\", Path { segments: [\"section\", \"links\"] })).",
    );
}

#[test]
fn parse_endfor_without_for_fails() {
    assert_invalid_syntax(
        &vec![TemplateToken::EndFor("section")],
        "Unexpected token EndFor(\"section\") nested in None.",
    );
}

#[test]
fn parse_handles_if_statements() {
    let tokens = vec![
        TemplateToken::If(Expr::from(Exists, vec!["section", "subsections"])),
        TemplateToken::Text("\n  Subsections exist.\n"),
        TemplateToken::EndIf,
    ];
    let result = parse(&tokens).unwrap();
    assert_eq!(
        result.root,
        Sequence(vec![Box::new(If(
            Expr::from(Exists, vec!["section", "subsections"]),
            Box::new(Sequence(vec![Box::new(Text("\n  Subsections exist.\n"))]))
        ))])
    );
}

#[test]
fn parse_handles_foreach_nested_in_if() {
    let tokens = vec![
        TemplateToken::If(Expr::from(Exists, vec!["section", "subsections"])),
        TemplateToken::Text("\n  <ul>\n    "),
        TemplateToken::For(
            "subsection",
            Path::from_segments(vec!["section", "subsections"]),
        ),
        TemplateToken::Text("\n      <li>Subsection: "),
        TemplateToken::Var(Path::from_segments(vec!["subsection", "title"])),
        TemplateToken::Text("</li>\n    "),
        TemplateToken::EndFor("subsection"),
        TemplateToken::Text("\n  </ul>\n"),
        TemplateToken::EndIf,
    ];
    let result = parse(&tokens).unwrap();
    assert_eq!(
        result.root,
        Sequence(vec![Box::new(If(
            Expr::from(Exists, vec!["section", "subsections"]),
            Box::new(Sequence(vec![
                Box::new(Text("\n  <ul>\n    ")),
                Box::new(ForEach(
                    "subsection",
                    Path::from_segments(vec!["section", "subsections"]),
                    Box::new(Sequence(vec![
                        Box::new(Text("\n      <li>Subsection: ")),
                        Box::new(Var(Path::from_segments(vec!["subsection", "title"]))),
                        Box::new(Text("</li>\n    "))
                    ]))
                )),
                Box::new(Text("\n  </ul>\n"))
            ]))
        ))])
    );
}

#[test]
fn parse_with_incorrect_if_and_foreach_nesting_fails() {
    assert_invalid_syntax(
        &vec![
            TemplateToken::If(Expr::from(Exists, vec!["section", "subsections"])),
            TemplateToken::Text("\n  <ul>\n    "),
            TemplateToken::For(
                "subsection",
                Path::from_segments(vec!["section", "subsections"]),
            ),
            TemplateToken::Text("\n      <li>Subsection: "),
            TemplateToken::Var(Path::from_segments(vec!["subsection", "title"])),
            TemplateToken::Text("</li>\n    "),
            TemplateToken::EndIf,
            TemplateToken::Text("\n  </ul>\n"),
            TemplateToken::EndFor("subsection"),
        ],
        "Unexpected token EndIf nested in Some(For(\"subsection\", Path { segments: [\"section\", \"subsections\"] })).",
    );
}

#[test]
fn parse_endif_without_if_fails() {
    assert_invalid_syntax(
        &vec![TemplateToken::EndIf],
        "Unexpected token EndIf nested in None.",
    );
}

#[test]
fn parse_endfor_with_wrong_variable_fails() {
    assert_invalid_syntax(
        &vec![
            TemplateToken::For("a", Path::from_segment("as")),
            TemplateToken::EndFor("b"),
        ],
        "Unexpected token EndFor(\"b\") nested in Some(For(\"a\", Path { segments: [\"as\"] })).",
    );
    assert_invalid_syntax(
        &vec![
            TemplateToken::If(Expr::from(Exists, vec!["x"])),
            TemplateToken::EndFor("b"),
        ],
        "Unexpected token EndFor(\"b\") nested in Some(If(Expr { predicate: Exists, path: Path { segments: [\"x\"] } })).",
    );
}

#[test]
fn parse_of_unclosed_block_fails() {
    assert_invalid_syntax(
        &vec![
            TemplateToken::For("a", Path::from_segment("as")),
            TemplateToken::Text("x"),
        ],
        "Unexpected end of template nested in Some(For(\"a\", Path { segments: [\"as\"] })).",
    );
    assert_invalid_syntax(
        &vec![TemplateToken::If(Expr::from(Exists, vec!["x", "y"]))],
        "Unexpected end of template nested in Some(If(Expr { predicate: Exists, path: Path { segments: [\"x\", \"y\"] } })).",
    );
}

fn assert_invalid_syntax(tokens: &Vec<TemplateToken>, expected: &str) {
    let err = parse(tokens).unwrap_err();
    assert!(
        err.contains(expected),
        "Expected error for input '{:#?}', got: {}",
        tokens,
        err
    );
}
