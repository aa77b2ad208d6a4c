use yasg::data_file_parser::{DataNode, DataSet};
use yasg::expressions::{Expr, Path, Predicate::Exists};
use yasg::template_parser::TemplateNode::{ForEach, If, Sequence, Text, Var};
use yasg::template_parser::TemplateTree;
use yasg::visitor::visit;

fn mapping(entries: Vec<(&str, DataNode)>) -> DataNode {
    DataNode::Mapping(
        entries
            .into_iter()
            .map(|(k, v)| (k.to_string(), v))
            .collect(),
    )
}

fn string(s: &str) -> DataNode {
    DataNode::Str(s.to_string())
}

fn unwrap(result: Result<String, String>) -> String {
    assert!(result.is_ok(), "Error visiting NodeTree: {:?}", result.as_ref().err());
    result.unwrap()
}

#[test]
fn visit_simple_text() {
    let data = DataSet::from(&DataNode::Null);
    let tree = TemplateTree {
        root: Text("Hello, world!"),
    };
    let result = unwrap(visit(&tree, &data));
    assert_eq!("Hello, world!", result);
}

#[test]
fn visit_var_with_simple_path() {
    let data = mapping(vec![("name", string("Julia"))]);
    let data_set = DataSet::from(&data);
    let tree = TemplateTree {
        root: Sequence(vec![
            Box::new(Text("Hello, ")),
            Box::new(Var(Path::from_segments(vec!["name"]))),
            Box::new(Text("!")),
        ]),
    };
    let result = unwrap(visit(&tree, &data_set));
    assert_eq!(result, "Hello, Julia!");
}

#[test]
fn visit_var_fails_if_data_entry_doesnt_exist() {
    let data = mapping(vec![]);
    let data_set = DataSet::from(&data);
    let tree = TemplateTree {
        root: Sequence(vec![
            Box::new(Text("Hello, ")),
            Box::new(Var(Path::from_segments(vec!["name"]))),
            Box::new(Text("!")),
        ]),
    };
    let err = visit(&tree, &data_set).unwrap_err();
    assert!(
        err.contains("Path [name] is not defined in data file."),
        "Got error: {}",
        err
    );
}

#[test]
fn visit_var_fails_if_data_entry_isnt_string() {
    let data = mapping(vec![(
        "name",
        mapping(vec![("first", string("Julia")), ("last", string("Doe"))]),
    )]);
    let data_set = DataSet::from(&data);
    let tree = TemplateTree {
        root: Sequence(vec![
            Box::new(Text("Hello, ")),
            Box::new(Var(Path::from_segments(vec!["name"]))),
            Box::new(Text("!")),
        ]),
    };
    let err = visit(&tree, &data_set).unwrap_err();
    assert!(
        err.contains("Path [name] does not reference a string in data file."),
        "Got error: {}",
        err
    );
}

#[test]
fn visit_var_with_multi_segment_path() {
    let data = mapping(vec![("section", mapping(vec![("title", string("Go Basics"))]))]);
    let data_set = DataSet::from(&data);
    let tree = TemplateTree {
        root: Sequence(vec![
            Box::new(Text("Section title: ")),
            Box::new(Var(Path::from_segments(vec!["section", "title"]))),
            Box::new(Text(".")),
        ]),
    };
    let result = unwrap(visit(&tree, &data_set));
    assert_eq!(result, "Section title: Go Basics.");
}

#[test]
fn visit_foreach() {
    let data = mapping(vec![(
        "section",
        mapping(vec![(
            "links",
            DataNode::Sequence(vec![
                mapping(vec![("href", string("Go Basics"))]),
                mapping(vec![("href", string("Advanced Go"))]),
            ]),
        )]),
    )]);
    let data_set = DataSet::from(&data);
    let tree = TemplateTree {
        root: Sequence(vec![Box::new(ForEach(
            "link",
            Path::from_segments(vec!["section", "links"]),
            Box::new(Sequence(vec![
                Box::new(Text("- link: ")),
                Box::new(Var(Path::from_segments(vec!["link", "href"]))),
                Box::new(Text("\n")),
            ])),
        ))]),
    };
    let result = unwrap(visit(&tree, &data_set));
    assert_eq!(
        result,
        "\
- link: Go Basics
- link: Advanced Go
"
    );
}

#[test]
fn visit_if_exists() {
    let data = mapping(vec![("items", mapping(vec![("amount", string("2"))]))]);
    let data_set = DataSet::from(&data);
    let tree = TemplateTree {
        root: If(
            Expr::from(Exists, vec!["items", "amount"]),
            Box::new(Sequence(vec![
                Box::new(Text("We have ")),
                Box::new(Var(Path::from_segments(vec!["items", "amount"]))),
                Box::new(Text(" items left.")),
            ])),
        ),
    };
    let result = unwrap(visit(&tree, &data_set));
    assert_eq!(result, "We have 2 items left.");
}

#[test]
fn visit_if_not_exists() {
    let data = mapping(vec![("items", mapping(vec![("count", string("2"))]))]);
    let data_set = DataSet::from(&data);
    let tree = TemplateTree {
        root: If(
            Expr::from(Exists, vec!["items", "amount"]),
            Box::new(Sequence(vec![
                Box::new(Text("We have ")),
                Box::new(Var(Path::from_segments(vec!["items", "amount"]))),
                Box::new(Text(" items left.")),
            ])),
        ),
    };
    let result = unwrap(visit(&tree, &data_set));
    assert_eq!(result, "");
}

#[test]
fn visit_if_collection() {
    let data = mapping(vec![(
        "section",
        mapping(vec![(
            "subsections",
            DataNode::Sequence(vec![
                mapping(vec![("title", string("Subsection 1"))]),
                mapping(vec![("title", string("Subsection 2"))]),
            ]),
        )]),
    )]);
    let data_set = DataSet::from(&data);
    let tree = TemplateTree {
        root: If(
            Expr::from(Exists, vec!["section", "subsections"]),
            Box::new(Sequence(vec![
                Box::new(Text("Subsections:\n")),
                Box::new(ForEach(
                    "subsection",
                    Path::from_segments(vec!["section", "subsections"]),
                    Box::new(Sequence(vec![
                        Box::new(Text("- ")),
                        Box::new(Var(Path::from_segments(vec!["subsection", "title"]))),
                        Box::new(Text("\n")),
                    ])),
                )),
            ])),
        ),
    };
    let result = unwrap(visit(&tree, &data_set));
    assert_eq!(
        result,
        "\
Subsections:
- Subsection 1
- Subsection 2
"
    );
}

#[test]
fn visit_foreach_fails_on_a_non_sequence() {
    let data = mapping(vec![("links", string("none"))]);
    let data_set = DataSet::from(&data);
    let tree = TemplateTree {
        root: ForEach(
            "link",
            Path::from_segment("links"),
            Box::new(Sequence(vec![Box::new(Text("x"))])),
        ),
    };
    assert_eq!(
        visit(&tree, &data_set).unwrap_err(),
        "Path [links] does not reference a sequence in data file."
    );
}

#[test]
fn visit_foreach_over_an_empty_sequence_renders_nothing() {
    let data = mapping(vec![("links", DataNode::Sequence(vec![]))]);
    let data_set = DataSet::from(&data);
    let tree = TemplateTree {
        root: ForEach(
            "link",
            Path::from_segment("links"),
            Box::new(Sequence(vec![Box::new(Var(Path::from_segments(vec![
                "link", "href",
            ])))])),
        ),
    };
    assert_eq!(visit(&tree, &data_set).unwrap(), "");
}

#[test]
fn visit_inside_a_loop_sees_only_the_loop_variable() {
    let data = mapping(vec![
        ("title", string("T")),
        ("items", DataNode::Sequence(vec![mapping(vec![("name", string("a"))])])),
    ]);
    let data_set = DataSet::from(&data);
    let tree = TemplateTree {
        root: ForEach(
            "item",
            Path::from_segment("items"),
            Box::new(Sequence(vec![Box::new(Var(Path::from_segment("title")))])),
        ),
    };
    assert_eq!(
        visit(&tree, &data_set).unwrap_err(),
        "Path [title] is not defined in data file."
    );
}
