use downlint::document::kind_among;
use downlint::document::Node;
use downlint::document::NodeEvent;
use downlint::document::NodeHeading;
use downlint::document::NodeValue;
use downlint::Document;
use downlint::Sourcepos;

fn heading(level: u8) -> NodeValue {
    NodeValue::Heading(NodeHeading { level, setext: false })
}

#[test]
fn from_events_links_parents_and_children() {
    let events = vec![
        NodeEvent::Enter(NodeValue::Document, Sourcepos::new(1, 1, 3, 4)),
        NodeEvent::Enter(heading(1), Sourcepos::new(1, 1, 1, 7)),
        NodeEvent::Enter(NodeValue::Text("Title".to_owned()), Sourcepos::new(1, 3, 1, 7)),
        NodeEvent::Leave,
        NodeEvent::Leave,
        NodeEvent::Enter(NodeValue::Paragraph, Sourcepos::new(3, 1, 3, 4)),
        NodeEvent::Leave,
        NodeEvent::Leave,
    ];
    let doc = Document::from_events("a.md".to_owned(), "# Title\n\nText".to_owned(), events);
    let expected = vec![
        Node {
            value: NodeValue::Document,
            position: Sourcepos::new(1, 1, 3, 4),
            parent: None,
            children: vec![1, 3],
        },
        Node { value: heading(1), position: Sourcepos::new(1, 1, 1, 7), parent: Some(0), children: vec![2] },
        Node {
            value: NodeValue::Text("Title".to_owned()),
            position: Sourcepos::new(1, 3, 1, 7),
            parent: Some(1),
            children: vec![],
        },
        Node {
            value: NodeValue::Paragraph,
            position: Sourcepos::new(3, 1, 3, 4),
            parent: Some(0),
            children: vec![],
        },
    ];
    assert_eq!(doc.nodes(), &expected);
    assert_eq!(doc.path(), "a.md");
    assert_eq!(doc.text(), "# Title\n\nText");
}

#[test]
fn from_events_never_leaves_the_root() {
    let events = vec![
        NodeEvent::Enter(NodeValue::Document, Sourcepos::new(1, 1, 1, 1)),
        NodeEvent::Leave,
        NodeEvent::Leave,
        NodeEvent::Enter(NodeValue::Paragraph, Sourcepos::new(2, 1, 2, 1)),
        NodeEvent::Leave,
        NodeEvent::Enter(NodeValue::ThematicBreak, Sourcepos::new(3, 1, 3, 3)),
    ];
    let doc = Document::from_events("a.md".to_owned(), String::new(), events);
    let nodes = doc.nodes();
    assert_eq!(nodes.len(), 3);
    assert_eq!(nodes[0].children, vec![1, 2]);
    assert_eq!(nodes[1].parent, Some(0));
    assert_eq!(nodes[2].parent, Some(0));
}

#[test]
fn from_events_without_events_has_no_nodes() {
    let doc = Document::from_events("a.md".to_owned(), String::new(), vec![]);
    assert_eq!(doc.nodes().len(), 0);
    assert_eq!(doc.lines().len(), 0);
    assert_eq!(doc.front_matter(), None);
}

#[test]
fn lines_are_split_at_line_feeds() {
    let doc = Document::from_events("a.md".to_owned(), "a\r\nb\n\nc".to_owned(), vec![]);
    assert_eq!(doc.lines(), &vec!["a".to_owned(), "b".to_owned(), String::new(), "c".to_owned()]);
}

#[test]
fn lines_ignore_one_final_line_ending() {
    let doc = Document::from_events("a.md".to_owned(), "a\nb\n".to_owned(), vec![]);
    assert_eq!(doc.lines(), &vec!["a".to_owned(), "b".to_owned()]);
    let blank = Document::from_events("a.md".to_owned(), "a\n\n".to_owned(), vec![]);
    assert_eq!(blank.lines(), &vec!["a".to_owned(), String::new()]);
}

#[test]
fn lines_keep_a_carriage_return_without_line_feed() {
    let doc = Document::from_events("a.md".to_owned(), "a\rb\nc\r".to_owned(), vec![]);
    assert_eq!(doc.lines(), &vec!["a\rb".to_owned(), "c\r".to_owned()]);
}

#[test]
fn lines_of_a_document_match_the_standard_library() {
    let texts = [
        "",
        "\n",
        "a",
        "a\n",
        "a\r",
        "\r\n\r\n",
        "x\r\r\ny",
        "a\rb\nc\r",
        "é\nü\r\n",
        "a\n\nb\n\n\n",
    ];
    for text in texts {
        let doc = Document::from_events("a.md".to_owned(), text.to_owned(), vec![]);
        let expected: Vec<String> = text.lines().map(|line| line.to_owned()).collect();
        assert_eq!(doc.lines(), &expected);
    }
}

#[test]
fn new_parses_markdown() {
    let doc = Document::new("a.md".to_owned(), "# Title\n\nSome *text*\n".to_owned());
    let nodes = doc.nodes();
    assert_eq!(nodes[0].value, NodeValue::Document);
    assert_eq!(nodes[0].parent, None);
    assert_eq!(nodes[0].children.len(), 2);
    let title = &nodes[nodes[0].children[0]];
    assert_eq!(title.value, heading(1));
    assert_eq!(title.position, Sourcepos::new(1, 1, 1, 7));
    assert_eq!(nodes[title.children[0]].value, NodeValue::Text("Title".to_owned()));
    let paragraph = &nodes[nodes[0].children[1]];
    assert_eq!(paragraph.value, NodeValue::Paragraph);
    assert_eq!(paragraph.position, Sourcepos::new(3, 1, 3, 11));
    assert_eq!(paragraph.children.len(), 2);
    assert_eq!(nodes[paragraph.children[1]].value, NodeValue::Emph);
}

#[test]
fn new_parses_every_kind_that_rules_read() {
    let text = "> quote\n\n1. one\n\n```\ncode\n```\n\n<div>\n\n`span` <b> [link](x) ![image](y) **strong**\n\n---\n";
    let doc = Document::new("a.md".to_owned(), text.to_owned());
    let has = |wanted: fn(&NodeValue) -> bool| doc.nodes().iter().any(|node| wanted(&node.value));
    assert!(has(|value| matches!(value, NodeValue::BlockQuote)));
    assert!(has(|value| matches!(value, NodeValue::List(list) if list.ordered && list.start == 1)));
    assert!(has(|value| matches!(value, NodeValue::Item(item) if item.ordered && item.start == 1)));
    assert!(has(|value| matches!(value, NodeValue::CodeBlock(code) if code.fenced && code.literal == "code\n")));
    assert!(has(|value| matches!(value, NodeValue::HtmlBlock(html) if html.block_type == 6)));
    assert!(has(|value| matches!(value, NodeValue::Code(literal) if literal == "span")));
    assert!(has(|value| matches!(value, NodeValue::HtmlInline(html) if html == "<b>")));
    assert!(has(|value| matches!(value, NodeValue::Link)));
    assert!(has(|value| matches!(value, NodeValue::Image)));
    assert!(has(|value| matches!(value, NodeValue::Strong)));
    assert!(has(|value| matches!(value, NodeValue::ThematicBreak)));
}

#[test]
fn new_splits_front_matter_off() {
    let text = "---\ntitle: x\n---\n\n# Title\n";
    let doc = Document::new("a.md".to_owned(), text.to_owned());
    assert_eq!(doc.front_matter(), Some(&"---\ntitle: x\n---\n\n".to_owned()));
    let nodes = doc.nodes();
    assert_eq!(nodes[nodes[0].children[1]].position, Sourcepos::new(5, 1, 5, 7));
}

#[test]
fn with_delimiter_none_keeps_front_matter_as_markdown() {
    let text = "---\ntitle: x\n---\n\n# Title\n";
    let doc = Document::with_delimiter("a.md".to_owned(), text.to_owned(), None);
    assert_eq!(doc.front_matter(), None);
    assert_eq!(doc.nodes()[doc.nodes()[0].children[0]].value, NodeValue::ThematicBreak);
}

#[test]
fn from_bytes_reads_utf8() {
    let doc = Document::from_bytes("a.md".to_owned(), "# é\n".as_bytes().to_vec()).unwrap();
    assert_eq!(doc.text(), "# é\n");
    assert_eq!(doc.path(), "a.md");
    assert_eq!(doc.nodes()[1].value, heading(1));
}

#[test]
fn from_bytes_rejects_bytes_that_are_not_utf8() {
    let error = Document::from_bytes("a.md".to_owned(), vec![b'#', b' ', 0xff, 0xfe]).unwrap_err();
    assert_eq!(error.path(), "a.md");
    assert_eq!(error.message(), "invalid utf-8 sequence of 1 bytes from index 2");
}

#[test]
fn kind_is_the_first_that_a_reader_knows() {
    let text = || Some(NodeValue::Text("x".to_owned()));
    assert_eq!(kind_among(None, None, None, None), NodeValue::Other);
    assert_eq!(kind_among(Some(NodeValue::Paragraph), None, None, None), NodeValue::Paragraph);
    assert_eq!(kind_among(None, Some(heading(2)), None, None), heading(2));
    assert_eq!(kind_among(None, None, Some(NodeValue::ThematicBreak), None), NodeValue::ThematicBreak);
    assert_eq!(kind_among(None, None, None, text()), NodeValue::Text("x".to_owned()));
    assert_eq!(kind_among(Some(NodeValue::Document), Some(heading(1)), None, text()), NodeValue::Document);
    assert_eq!(kind_among(None, None, Some(NodeValue::Table), text()), NodeValue::Table);
}
