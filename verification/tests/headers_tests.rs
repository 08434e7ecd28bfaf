use yarn_slinger::compiler::{compile, CompilationJob};
use yarn_slinger::program::{Node, Program};

fn find_node<'a>(program: &'a Program, name: &str) -> &'a Node {
    let mut i = 0;
    while i < program.nodes.len() {
        if program.nodes[i].name == name {
            return &program.nodes[i];
        }
        i += 1;
    }
    panic!("no node named {name}");
}

const HEADERS_SOURCE: &str = "#file_header\n\
\n\
title: EmptyTags\n\
tags:\n\
---\n\
===\n\
\n\
title: ArbitraryHeaderWithValue\n\
arbitraryheader: some-arbitrary-text\n\
---\n\
===\n\
\n\
title: Tags\n\
tags: one two three\n\
---\n\
===\n\
\n\
title: SingleTagOnly\n\
---\n\
===\n\
\n\
// a comment outside the node\n\
title: Comments\n\
tags: one two three\n\
---\n\
// a comment inside the body\n\
===\n\
\n\
contains: lots\n\
title: LotsOfHeaders\n\
this: node\n\
of:\n\
blank:\n\
others: are\n\
headers:\n\
some: are\n\
not:\n\
---\n\
===\n";

#[test]
fn test_node_headers() {
    let path = "Headers.yarn";
    let result = compile(
        CompilationJob::new().with_file(path.to_string(), HEADERS_SOURCE.to_string()),
    );
    assert!(result.diagnostics.is_empty());
    let program = result.program.as_ref().unwrap();
    assert_eq!(program.nodes.len(), 6);

    for tag in &["one", "two", "three"].map(|s| s.to_owned()) {
        assert!(find_node(program, "Tags").tags.contains(tag));
    }

    let headers: Vec<(&str, Vec<(&str, &str)>)> = vec![
        ("EmptyTags", vec![("title", "EmptyTags"), ("tags", "")]),
        (
            "ArbitraryHeaderWithValue",
            vec![
                ("title", "ArbitraryHeaderWithValue"),
                ("arbitraryheader", "some-arbitrary-text"),
            ],
        ),
        ("Tags", vec![("title", "Tags"), ("tags", "one two three")]),
        ("SingleTagOnly", vec![("title", "SingleTagOnly")]),
        (
            "Comments",
            vec![("title", "Comments"), ("tags", "one two three")],
        ),
        (
            "LotsOfHeaders",
            vec![
                ("contains", "lots"),
                ("title", "LotsOfHeaders"),
                ("this", "node"),
                ("of", ""),
                ("blank", ""),
                ("others", "are"),
                ("headers", ""),
                ("some", "are"),
                ("not", ""),
            ],
        ),
    ];
    assert_eq!(program.nodes.len(), headers.len());
    for (node_name, expected_headers) in headers {
        let node = find_node(program, node_name);
        assert_eq!(node.headers.len(), expected_headers.len());
        for header in &node.headers {
            let expected_header = expected_headers
                .iter()
                .find(|(k, _)| k == &header.key.as_str())
                .unwrap();
            assert_eq!(header.value, expected_header.1);
        }
    }

    assert_eq!(1, result.file_tags.len());
    assert_eq!(result.file_tags[0].file_name, path);
    assert!(result.file_tags[0].tags.contains(&"file_header".to_owned()));
    assert_eq!(1, result.file_tags[0].tags.len());
}

#[test]
fn tags_header_splits_on_whitespace() {
    let source = "title: Tagged\ntags: one two three\n---\n===\n";
    let result = compile(
        CompilationJob::new().with_file("t.yarn".to_string(), source.to_string()),
    );
    let program = result.program.unwrap();
    let node = find_node(&program, "Tagged");
    assert_eq!(node.tags, vec!["one".to_string(), "two".to_string(), "three".to_string()]);
}

#[test]
fn node_without_tags_header_has_no_tags() {
    let source = "title: Plain\nother: header\n---\nA line.\n===\n";
    let result = compile(
        CompilationJob::new().with_file("t.yarn".to_string(), source.to_string()),
    );
    let program = result.program.unwrap();
    let node = find_node(&program, "Plain");
    assert!(node.tags.is_empty());
}

#[test]
fn node_without_title_is_an_error() {
    let source = "tags: one\n---\nA line.\n===\n";
    let result = compile(
        CompilationJob::new().with_file("t.yarn".to_string(), source.to_string()),
    );
    assert!(result.program.is_none());
    assert!(!result.diagnostics.is_empty());
}

#[test]
fn header_line_without_colon_is_an_error() {
    let source = "title: Broken\nnot a header\n---\n===\n";
    let result = compile(
        CompilationJob::new().with_file("t.yarn".to_string(), source.to_string()),
    );
    assert!(result.program.is_none());
}

#[test]
fn unterminated_node_is_an_error() {
    let source = "title: Unfinished\n---\nA line.\n";
    let result = compile(
        CompilationJob::new().with_file("t.yarn".to_string(), source.to_string()),
    );
    assert!(result.program.is_none());
}

#[test]
fn duplicate_headers_are_preserved_in_order() {
    let source = "title: Doubled\nmood: happy\nmood: sad\n---\n===\n";
    let result = compile(
        CompilationJob::new().with_file("t.yarn".to_string(), source.to_string()),
    );
    let program = result.program.unwrap();
    let node = find_node(&program, "Doubled");
    assert_eq!(node.headers.len(), 3);
    assert_eq!(node.headers[1].key, "mood");
    assert_eq!(node.headers[1].value, "happy");
    assert_eq!(node.headers[2].key, "mood");
    assert_eq!(node.headers[2].value, "sad");
}

