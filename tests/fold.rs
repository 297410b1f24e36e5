use spek::fold::{Diagnostic, SpekError};
use spek::markdown::tree_of;
use spek::spek::{Spek, SpekItem, SpekModule};
use spek::tree::{DocNode, NodeKind};

fn text(s: &str) -> DocNode {
    DocNode::leaf(NodeKind::Text(s.to_string()))
}

fn heading(level: u8, s: &str) -> DocNode {
    DocNode::with_children(NodeKind::Heading(level), vec![text(s)])
}

fn para(s: &str) -> DocNode {
    DocNode::with_children(NodeKind::Paragraph, vec![text(s)])
}

fn entry(s: &str, nested: Vec<DocNode>) -> DocNode {
    let mut children = vec![para(s)];
    children.extend(nested);
    DocNode::with_children(NodeKind::Item, children)
}

fn list(bullet: u8, entries: Vec<DocNode>) -> DocNode {
    DocNode::with_children(NodeKind::List(bullet), entries)
}

fn doc(children: Vec<DocNode>) -> DocNode {
    DocNode::with_children(NodeKind::Other("document".to_string()), children)
}

fn test_item(item: &SpekItem) -> (String, Vec<String>) {
    match item {
        SpekItem::Test { name, subs } => (name.clone(), subs.clone()),
        SpekItem::Doc(t) => panic!("expected a test, found doc {:?}", t),
    }
}

fn doc_item(item: &SpekItem) -> String {
    match item {
        SpekItem::Doc(t) => t.clone(),
        SpekItem::Test { name, .. } => panic!("expected a doc, found test {:?}", name),
    }
}

fn strings(v: &[&str]) -> Vec<String> {
    v.iter().map(|s| s.to_string()).collect()
}

#[test]
fn test_from_markdown() {
    let (spek, diagnostics) = Spek::from_markdown(
        r"
# Module 1

Docs for the module

* [ ] star 1
  * star 1.1
  * star 1.2
* [ ] star 2

Text

- dash 1
  - dash 1.1
",
    )
    .unwrap();

    assert_eq!(spek.modules.len(), 1);
    let m = &spek.modules[0];
    assert_eq!(m.filename, "module_1");
    assert_eq!(m.name, "Module 1");
    assert_eq!(m.doc, Some("Docs for the module".to_string()));
    assert_eq!(m.items.len(), 3);
    assert_eq!(
        test_item(&m.items[0]),
        ("star 1".to_string(), strings(&["star 1.1", "star 1.2"]))
    );
    assert_eq!(test_item(&m.items[1]), ("star 2".to_string(), vec![]));
    assert_eq!(doc_item(&m.items[2]), "Text");
    assert_eq!(diagnostics, vec![Diagnostic::SkippedList { bullet: b'-' }]);
}

#[test]
fn plain_markdown_list() {
    let (spek, diagnostics) =
        Spek::from_markdown("# Module 1\n\nDocs for the module\n\n* star 1\n  * star 1.1\n  * star 1.2\n* star 2\n\nText\n\n- dash 1\n  - dash 1.1\n")
            .unwrap();
    let m = &spek.modules[0];
    assert_eq!(m.filename, "module_1");
    assert_eq!(
        test_item(&m.items[0]),
        ("star 1".to_string(), strings(&["star 1.1", "star 1.2"]))
    );
    assert_eq!(test_item(&m.items[1]), ("star 2".to_string(), vec![]));
    assert_eq!(doc_item(&m.items[2]), "Text");
    assert_eq!(diagnostics.len(), 1);
}

#[test]
fn heading_then_paragraph_gives_one_module() {
    let (spek, diagnostics) =
        Spek::from_document(&doc(vec![heading(1, "Alpha Beta"), para("About it")])).unwrap();
    assert_eq!(spek.modules.len(), 1);
    let m = &spek.modules[0];
    assert_eq!(m.name, "Alpha Beta");
    assert_eq!(m.filename, "alpha_beta");
    assert_eq!(m.doc, Some("About it".to_string()));
    assert!(m.items.is_empty());
    assert!(diagnostics.is_empty());
}

#[test]
fn asterisk_list_gives_one_test_per_entry() {
    let root = doc(vec![
        heading(1, "M"),
        para("d"),
        list(
            b'*',
            vec![
                entry("a", vec![list(b'*', vec![entry("a1", vec![]), entry("a2", vec![])])]),
                entry("b", vec![]),
                entry("c", vec![list(b'-', vec![entry("c1", vec![])])]),
            ],
        ),
    ]);
    let (spek, _) = Spek::from_document(&root).unwrap();
    let items = &spek.modules[0].items;
    assert_eq!(items.len(), 3);
    assert_eq!(test_item(&items[0]), ("a".to_string(), strings(&["a1", "a2"])));
    assert_eq!(test_item(&items[1]), ("b".to_string(), vec![]));
    assert_eq!(test_item(&items[2]), ("c".to_string(), strings(&["c1"])));
}

#[test]
fn dash_list_is_skipped_and_fold_goes_on() {
    let root = doc(vec![
        heading(1, "M"),
        para("d"),
        list(b'-', vec![entry("x", vec![])]),
        para("after"),
        list(b'+', vec![entry("y", vec![])]),
    ]);
    let (spek, diagnostics) = Spek::from_document(&root).unwrap();
    let items = &spek.modules[0].items;
    assert_eq!(items.len(), 1);
    assert_eq!(doc_item(&items[0]), "after");
    assert_eq!(
        diagnostics,
        vec![Diagnostic::SkippedList { bullet: b'-' }, Diagnostic::SkippedList { bullet: b'+' }]
    );
}

#[test]
fn floating_paragraph_goes_to_last_module() {
    let root = doc(vec![
        heading(1, "First"),
        para("one"),
        heading(1, "Second"),
        para("two"),
        para("floating"),
    ]);
    let (spek, _) = Spek::from_document(&root).unwrap();
    assert_eq!(spek.modules.len(), 2);
    assert!(spek.modules[0].items.is_empty());
    assert_eq!(spek.modules[1].items.len(), 1);
    assert_eq!(doc_item(&spek.modules[1].items[0]), "floating");
}

#[test]
fn folding_twice_gives_equal_trees() {
    let input = "# A\n\ndoc\n\n* t1\n* t2\n\nmore\n";
    let (a, da) = Spek::from_markdown(input).unwrap();
    let (b, db) = Spek::from_markdown(input).unwrap();
    assert_eq!(format!("{:?}", a), format!("{:?}", b));
    assert_eq!(da, db);
}

#[test]
fn paragraphs_without_heading_are_rejected() {
    let r = Spek::from_document(&doc(vec![para("a"), para("b")]));
    assert!(matches!(r, Err(SpekError::NoModule)));
    assert!(matches!(Spek::from_markdown("just text\n\nmore text\n"), Err(SpekError::NoModule)));
}

#[test]
fn list_before_any_heading_is_rejected() {
    let r = Spek::from_document(&doc(vec![list(b'*', vec![entry("a", vec![])])]));
    assert!(matches!(r, Err(SpekError::NoModule)));
}

#[test]
fn heading_without_doc_before_list() {
    let root = doc(vec![heading(1, "M"), list(b'*', vec![entry("a", vec![])])]);
    let (spek, _) = Spek::from_document(&root).unwrap();
    assert_eq!(spek.modules.len(), 1);
    assert_eq!(spek.modules[0].doc, None);
    assert_eq!(test_item(&spek.modules[0].items[0]), ("a".to_string(), vec![]));
}

#[test]
fn pending_headings_become_modules_without_doc() {
    let root = doc(vec![heading(1, "One"), heading(1, "Two"), para("d"), heading(1, "Three")]);
    let (spek, _) = Spek::from_document(&root).unwrap();
    let names: Vec<&str> = spek.modules.iter().map(|m| m.name.as_str()).collect();
    assert_eq!(names, vec!["One", "Two", "Three"]);
    assert_eq!(spek.modules[0].doc, None);
    assert_eq!(spek.modules[1].doc, Some("d".to_string()));
    assert_eq!(spek.modules[2].doc, None);
}

#[test]
fn empty_document_gives_empty_tree() {
    let (spek, diagnostics) = Spek::from_document(&doc(vec![])).unwrap();
    assert!(spek.modules.is_empty());
    assert!(diagnostics.is_empty());
}

#[test]
fn heading_of_level_two_is_rejected() {
    let r = Spek::from_document(&doc(vec![heading(2, "Sub")]));
    assert!(matches!(r, Err(SpekError::UnsupportedHeading { level: 2 })));
}

#[test]
fn heading_without_text_is_rejected() {
    let h = DocNode::leaf(NodeKind::Heading(1));
    assert!(matches!(Spek::from_document(&doc(vec![h])), Err(SpekError::MissingText)));
}

#[test]
fn entry_with_two_segments_is_rejected() {
    let e = entry("a", vec![list(b'*', vec![]), list(b'*', vec![])]);
    let root = doc(vec![heading(1, "M"), list(b'*', vec![e])]);
    assert!(matches!(Spek::from_document(&root), Err(SpekError::TooManySegments)));
}

#[test]
fn unsupported_node_is_reported_by_kind() {
    let quote = DocNode::leaf(NodeKind::Other("block_quote".to_string()));
    match Spek::from_document(&doc(vec![heading(1, "M"), quote])) {
        Err(SpekError::Unsupported { kind }) => assert_eq!(kind, "block_quote"),
        other => panic!("unexpected {:?}", other),
    }
    match Spek::from_markdown("# M\n\n> quoted\n") {
        Err(SpekError::Unsupported { kind }) => assert_eq!(kind, "block_quote"),
        other => panic!("unexpected {:?}", other),
    }
}

#[test]
fn module_slug_is_lowercase_and_file_safe() {
    let m = SpekModule::new("Hello World/Two".to_string(), None);
    assert_eq!(m.filename, "hello_world_two");
    assert_eq!(m.name, "Hello World/Two");
    let n = SpekModule::new("con".to_string(), None);
    assert_eq!(n.filename, "con_");
}

#[test]
fn tree_is_rebuilt_from_its_encoding() {
    let nodes = vec![
        (NodeKind::Other("document".to_string()), 1),
        (NodeKind::Paragraph, 1),
        (NodeKind::Text("hi".to_string()), 0),
    ];
    let t = tree_of(&nodes).unwrap();
    assert!(matches!(t.kind, NodeKind::Other(_)));
    assert_eq!(t.children.len(), 1);
    assert_eq!(t.children[0].children.len(), 1);
    let short = vec![(NodeKind::Item, 2), (NodeKind::Paragraph, 0)];
    assert!(matches!(tree_of(&short), Err(SpekError::Malformed)));
    let long = vec![(NodeKind::Paragraph, 0), (NodeKind::Paragraph, 0)];
    assert!(matches!(tree_of(&long), Err(SpekError::Malformed)));
}
