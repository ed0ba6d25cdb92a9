//! One source file as text and syntax tree.
//!
//! The tree is an arena: nodes are stored in document order and refer to each
//! other by index. It is built from the flat sequence of enter and leave
//! events that a Markdown parser reports while it walks its own tree.

use vstd::prelude::*;
use vstd::utf8::decode_utf8;
use vstd::utf8::encode_utf8;
use vstd::utf8::valid_utf8;

use crate::collection::reversed;
use crate::error::ErrorView;
use crate::error::IoError;
use crate::position::Sourcepos;
use crate::text::line_views;
use crate::text::lines_of;
use crate::text::split_lines;

verus! {

/// What a list or a list item says about its numbering.
#[derive(Debug, Clone, Copy, PartialEq, Eq, Structural)]
pub struct NodeList {
    /// Whether the list is numbered (if not, it is a bullet list).
    pub ordered: bool,
    /// For numbered lists, the number that the list or the item starts at.
    pub start: usize,
}

/// What a heading says about itself.
#[derive(Debug, Clone, Copy, PartialEq, Eq, Structural)]
pub struct NodeHeading {
    pub level: u8,
    /// Whether the heading is underlined (if not, it starts with hashes).
    pub setext: bool,
}

/// A code block and its raw contents.
#[derive(Debug, Clone, PartialEq, Eq)]
pub struct NodeCodeBlock {
    /// Whether the block is delimited by fences (if not, it is indented).
    pub fenced: bool,
    pub literal: String,
}

/// A block of raw HTML.
#[derive(Debug, Clone, PartialEq, Eq)]
pub struct NodeHtmlBlock {
    /// Which of the seven start conditions of CommonMark opened the block.
    pub block_type: u8,
    pub literal: String,
}

/// The kind of a node, with the data that the rules read from it.
#[derive(Debug, Clone, PartialEq, Eq)]
pub enum NodeValue {
    Document,
    FrontMatter(String),
    BlockQuote,
    List(NodeList),
    Item(NodeList),
    CodeBlock(NodeCodeBlock),
    HtmlBlock(NodeHtmlBlock),
    Paragraph,
    Heading(NodeHeading),
    ThematicBreak,
    Table,
    Text(String),
    Code(String),
    HtmlInline(String),
    Emph,
    Strong,
    Link,
    Image,
    /// Any kind that no rule looks at.
    Other,
}

/// One step of a walk over a syntax tree.
#[derive(Debug, Clone, PartialEq, Eq)]
pub enum NodeEvent {
    /// A node begins; its children follow, up to the matching `Leave`.
    Enter(NodeValue, Sourcepos),
    /// The node entered last, and not left yet, ends.
    Leave,
}

/// A node of the arena.
#[derive(Debug, Clone, PartialEq, Eq)]
pub struct Node {
    pub value: NodeValue,
    pub position: Sourcepos,
    /// The index of the parent; the root has none.
    pub parent: Option<usize>,
    /// The indices of the children, in document order.
    pub children: Vec<usize>,
}

/// The mathematical content of a [`Node`].
pub struct NodeModel {
    pub value: NodeValue,
    pub position: Sourcepos,
    pub parent: Option<usize>,
    pub children: Seq<usize>,
}

impl View for Node {
    type V = NodeModel;

    open spec fn view(&self) -> NodeModel {
        NodeModel {
            value: self.value,
            position: self.position,
            parent: self.parent,
            children: self.children@,
        }
    }
}

/// The contents of an arena, node by node.
pub open spec fn models(nodes: Seq<Node>) -> Seq<NodeModel> {
    nodes.map_values(|node: Node| node@)
}

/// A tree under construction: the nodes entered so far, and the path of
/// nodes that are still open, from the root down.
pub struct TreeState {
    pub nodes: Seq<NodeModel>,
    pub open: Seq<usize>,
}

/// `node` with one more child.
pub open spec fn with_child(node: NodeModel, child: usize) -> NodeModel {
    NodeModel { children: node.children.push(child), ..node }
}

/// The effect of one event. An entered node becomes the last child of the
/// innermost open node. The root is never left, so every later node is its
/// descendant.
pub open spec fn tree_step(state: TreeState, event: NodeEvent) -> TreeState {
    match event {
        NodeEvent::Enter(value, position) => {
            let index = state.nodes.len() as usize;
            if state.open.len() > 0 {
                let parent = state.open.last();
                let node = NodeModel {
                    value,
                    position,
                    parent: Some(parent),
                    children: Seq::empty(),
                };
                TreeState {
                    nodes: state.nodes.update(
                        parent as int,
                        with_child(state.nodes[parent as int], index),
                    ).push(node),
                    open: state.open.push(index),
                }
            } else {
                let node = NodeModel { value, position, parent: None, children: Seq::empty() };
                TreeState { nodes: state.nodes.push(node), open: state.open.push(index) }
            }
        },
        NodeEvent::Leave => {
            if state.open.len() > 1 {
                TreeState { nodes: state.nodes, open: state.open.drop_last() }
            } else {
                state
            }
        },
    }
}

/// The state after all of `events`.
pub open spec fn tree_state(events: Seq<NodeEvent>) -> TreeState
    decreases events.len(),
{
    if events.len() == 0 {
        TreeState { nodes: Seq::empty(), open: Seq::empty() }
    } else {
        tree_step(tree_state(events.drop_last()), events.last())
    }
}

/// The tree that `events` describe.
pub open spec fn tree_of(events: Seq<NodeEvent>) -> Seq<NodeModel> {
    tree_state(events).nodes
}

/// Node `i` has its place in `tree`: the root comes first, every other node
/// comes after its parent, and children are nodes of the tree that name
/// their parent.
pub open spec fn node_wf(tree: Seq<NodeModel>, i: int) -> bool {
    &&& i == 0 <==> tree[i].parent is None
    &&& tree[i].parent matches Some(p) ==> p < i
    &&& forall|k: int|
        0 <= k < tree[i].children.len() ==> {
            &&& i < #[trigger] tree[i].children[k] < tree.len()
            &&& tree[tree[i].children[k] as int].parent == Some(i as usize)
        }
}

/// Every node has its place in `tree`.
pub open spec fn tree_wf(tree: Seq<NodeModel>) -> bool {
    forall|i: int| 0 <= i < tree.len() ==> #[trigger] node_wf(tree, i)
}

/// The open path of a state lies within its well-formed tree, and is empty
/// only before the first node.
pub open spec fn state_wf(state: TreeState) -> bool {
    &&& tree_wf(state.nodes)
    &&& state.nodes.len() <= usize::MAX
    &&& forall|k: int| 0 <= k < state.open.len() ==> #[trigger] state.open[k] < state.nodes.len()
    &&& state.nodes.len() == 0 <==> state.open.len() == 0
}

/// One event keeps a state well-formed.
pub proof fn lemma_tree_step_wf(state: TreeState, event: NodeEvent)
    requires
        state_wf(state),
        state.nodes.len() < usize::MAX,
    ensures
        state_wf(tree_step(state, event)),
{
    let next = tree_step(state, event);
    match event {
        NodeEvent::Enter(value, position) => {
            let index = state.nodes.len() as int;
            assert forall|i: int| 0 <= i < next.nodes.len() implies #[trigger] node_wf(
                next.nodes,
                i,
            ) by {
                if i < index {
                    assert(node_wf(state.nodes, i));
                    if state.open.len() > 0 && i == state.open.last() {
                        assert forall|k: int| 0 <= k < next.nodes[i].children.len() implies {
                            &&& i < #[trigger] next.nodes[i].children[k] < next.nodes.len()
                            &&& next.nodes[next.nodes[i].children[k] as int].parent == Some(
                                i as usize,
                            )
                        } by {
                            if k < state.nodes[i].children.len() {
                                assert(next.nodes[i].children[k] == state.nodes[i].children[k]);
                            }
                        }
                    } else {
                        assert forall|k: int| 0 <= k < next.nodes[i].children.len() implies {
                            &&& i < #[trigger] next.nodes[i].children[k] < next.nodes.len()
                            &&& next.nodes[next.nodes[i].children[k] as int].parent == Some(
                                i as usize,
                            )
                        } by {
                            assert(next.nodes[i].children[k] == state.nodes[i].children[k]);
                        }
                    }
                }
            }
        },
        NodeEvent::Leave => {},
    }
}

/// Whatever the events are, they describe a well-formed tree.
pub proof fn lemma_tree_state_wf(events: Seq<NodeEvent>)
    requires
        events.len() <= usize::MAX,
    ensures
        state_wf(tree_state(events)),
        tree_state(events).nodes.len() <= events.len(),
    decreases events.len(),
{
    if events.len() > 0 {
        lemma_tree_state_wf(events.drop_last());
        lemma_tree_step_wf(tree_state(events.drop_last()), events.last());
    }
}

/// A file's path, its text and lines, and its syntax tree.
#[derive(Debug, PartialEq, Eq)]
pub struct Document {
    path: String,
    text: String,
    lines: Vec<String>,
    nodes: Vec<Node>,
}

/// The mathematical content of a [`Document`].
pub struct DocumentView {
    pub path: Seq<char>,
    pub text: Seq<char>,
    pub lines: Seq<Seq<char>>,
    pub tree: Seq<NodeModel>,
}

/// What holds of every document: its lines are those of its text, and its
/// tree is well-formed.
pub open spec fn document_wf(doc: DocumentView) -> bool {
    &&& doc.lines == split_lines(doc.text)
    &&& tree_wf(doc.tree)
}

impl View for Document {
    type V = DocumentView;

    closed spec fn view(&self) -> DocumentView {
        DocumentView {
            path: self.path@,
            text: self.text@,
            lines: line_views(self.lines@),
            tree: models(self.nodes@),
        }
    }
}

/// The events that `comrak::parse_document` reports for `text`, with front
/// matter between lines of `delimiter` split off where one is given.
pub uninterp spec fn parsed_events(text: Seq<char>, delimiter: Option<Seq<char>>) -> Seq<NodeEvent>;

/// `comrak::nodes::Ast`, which holds the kind and the span of a parsed
/// node. Nothing of it is visible but through the functions below.
#[verifier::external_type_specification]
#[verifier::external_body]
pub struct ExAst(comrak::nodes::Ast);

/// Reads `comrak::nodes::Ast::sourcepos`. Nothing is claimed of the numbers.
#[verifier::external_body]
fn ast_position(ast: &comrak::nodes::Ast) -> Sourcepos {
    let pos = ast.sourcepos;
    Sourcepos::new(pos.start.line, pos.start.column, pos.end.line, pos.end.column)
}

/// Tells the container kinds of `comrak::nodes::NodeValue` apart. Nothing is
/// claimed of the result.
#[verifier::external_body]
fn ast_container(ast: &comrak::nodes::Ast) -> Option<NodeValue> {
    match &ast.value {
        comrak::nodes::NodeValue::Document => Some(NodeValue::Document),
        comrak::nodes::NodeValue::FrontMatter(text) => Some(NodeValue::FrontMatter(text.clone())),
        comrak::nodes::NodeValue::BlockQuote => Some(NodeValue::BlockQuote),
        comrak::nodes::NodeValue::Paragraph => Some(NodeValue::Paragraph),
        comrak::nodes::NodeValue::ThematicBreak => Some(NodeValue::ThematicBreak),
        comrak::nodes::NodeValue::Table(_) => Some(NodeValue::Table),
        _ => None,
    }
}

/// Tells lists and list items of `comrak::nodes::NodeValue` apart, keeping
/// `list_type` and `start`. Nothing is claimed of the result.
#[verifier::external_body]
fn ast_list(ast: &comrak::nodes::Ast) -> Option<NodeValue> {
    match &ast.value {
        comrak::nodes::NodeValue::List(list) => Some(NodeValue::List(NodeList {
            ordered: matches!(list.list_type, comrak::nodes::ListType::Ordered),
            start: list.start,
        })),
        comrak::nodes::NodeValue::Item(list) => Some(NodeValue::Item(NodeList {
            ordered: matches!(list.list_type, comrak::nodes::ListType::Ordered),
            start: list.start,
        })),
        _ => None,
    }
}

/// Tells headings, code blocks and HTML blocks of `comrak::nodes::NodeValue`
/// apart, keeping the fields that the rules read. Nothing is claimed of the
/// result.
#[verifier::external_body]
fn ast_leaf_block(ast: &comrak::nodes::Ast) -> Option<NodeValue> {
    match &ast.value {
        comrak::nodes::NodeValue::Heading(heading) => Some(NodeValue::Heading(NodeHeading {
            level: heading.level,
            setext: heading.setext,
        })),
        comrak::nodes::NodeValue::CodeBlock(code) => Some(NodeValue::CodeBlock(NodeCodeBlock {
            fenced: code.fenced,
            literal: code.literal.clone(),
        })),
        comrak::nodes::NodeValue::HtmlBlock(html) => Some(NodeValue::HtmlBlock(NodeHtmlBlock {
            block_type: html.block_type,
            literal: html.literal.clone(),
        })),
        _ => None,
    }
}

/// Tells the inline kinds of `comrak::nodes::NodeValue` apart, keeping their
/// text. Nothing is claimed of the result.
#[verifier::external_body]
fn ast_inline(ast: &comrak::nodes::Ast) -> Option<NodeValue> {
    match &ast.value {
        comrak::nodes::NodeValue::Text(text) => Some(NodeValue::Text(text.clone())),
        comrak::nodes::NodeValue::Code(code) => Some(NodeValue::Code(code.literal.clone())),
        comrak::nodes::NodeValue::HtmlInline(html) => Some(NodeValue::HtmlInline(html.clone())),
        comrak::nodes::NodeValue::Emph => Some(NodeValue::Emph),
        comrak::nodes::NodeValue::Strong => Some(NodeValue::Strong),
        comrak::nodes::NodeValue::Link(_) => Some(NodeValue::Link),
        comrak::nodes::NodeValue::Image(_) => Some(NodeValue::Image),
        _ => None,
    }
}

/// The kind of a parsed node, as the rules see it: what [`kind_among`]
/// makes of what the four readers above tell of the node. The readers tell
/// what the parser holds, of which nothing can be promised.
fn node_value(ast: &comrak::nodes::Ast) -> NodeValue {
    let container = ast_container(ast);
    let list = ast_list(ast);
    let leaf_block = ast_leaf_block(ast);
    let inline = ast_inline(ast);
    kind_among(container, list, leaf_block, inline)
}

/// The event of entering a parsed node: an `Enter` with the kind and the
/// span of the node, never a `Leave`.
fn enter_event(ast: &comrak::nodes::Ast) -> (event: NodeEvent)
    ensures
        event is Enter,
{
    NodeEvent::Enter(node_value(ast), ast_position(ast))
}

/// The kind of a node of which the readers of containers, of lists, of
/// leaf blocks and of inlines tell `container`, `list`, `leaf_block` and
/// `inline`: the first of these that a reader knows, and `Other` where no
/// reader knows the node.
pub open spec fn first_kind(
    container: Option<NodeValue>,
    list: Option<NodeValue>,
    leaf_block: Option<NodeValue>,
    inline: Option<NodeValue>,
) -> NodeValue {
    match (container, list, leaf_block, inline) {
        (Some(value), _, _, _) => value,
        (None, Some(value), _, _) => value,
        (None, None, Some(value), _) => value,
        (None, None, None, Some(value)) => value,
        (None, None, None, None) => NodeValue::Other,
    }
}

/// Chooses the kind of a node from what the readers of containers, of
/// lists, of leaf blocks and of inlines tell of it.
pub fn kind_among(
    container: Option<NodeValue>,
    list: Option<NodeValue>,
    leaf_block: Option<NodeValue>,
    inline: Option<NodeValue>,
) -> (value: NodeValue)
    ensures
        value == first_kind(container, list, leaf_block, inline),
{
    if let Some(value) = container {
        value
    } else if let Some(value) = list {
        value
    } else if let Some(value) = leaf_block {
        value
    } else if let Some(value) = inline {
        value
    } else {
        NodeValue::Other
    }
}

/// Runs `comrak::parse_document` on `text`, with
/// `extension.front_matter_delimiter` set to `delimiter` and every other
/// option at its default, and walks the result with
/// `comrak::arena_tree::Node::traverse`. The parser is a function of the text
/// and the options alone, so the events are named after them.
#[verifier::external_body]
fn parse_events(text: &str, delimiter: Option<String>) -> (events: Vec<NodeEvent>)
    ensures
        events@ == parsed_events(text@, delimiter.deep_view()),
{
    let arena = comrak::Arena::new();
    let mut options = comrak::Options::default();
    options.extension.front_matter_delimiter = delimiter;
    let root = comrak::parse_document(&arena, text, &options);
    root.traverse().map(|edge| match edge {
        comrak::arena_tree::NodeEdge::Start(node) => enter_event(&node.data.borrow()),
        comrak::arena_tree::NodeEdge::End(_) => NodeEvent::Leave,
    }).collect()
}

/// The delimiter of front matter that [`Document::new`] splits off.
pub open spec fn front_matter_delimiter() -> Seq<char> {
    "---"@
}

/// The text of the front matter: that of the root's first child, if it is
/// front matter.
pub open spec fn front_matter_of(tree: Seq<NodeModel>) -> Option<Seq<char>> {
    if tree.len() > 0 && tree[0].children.len() > 0 {
        match tree[tree[0].children[0] as int].value {
            NodeValue::FrontMatter(text) => Some(text@),
            _ => None,
        }
    } else {
        None
    }
}

/// The document that [`Document::new`] makes of a path and a text.
pub open spec fn document_of(path: Seq<char>, text: Seq<char>) -> DocumentView {
    DocumentView {
        path,
        text,
        lines: split_lines(text),
        tree: tree_of(parsed_events(text, Some(front_matter_delimiter()))),
    }
}

/// What `String::from_utf8` says, through `to_string` of its error, of bytes
/// that are not UTF-8.
pub uninterp spec fn utf8_error_text(bytes: Seq<u8>) -> Seq<char>;

/// Reads `bytes` as text with `String::from_utf8`, which accepts them
/// exactly if they are valid UTF-8 and keeps them as they are. Of bytes that
/// are not, it says why, which `to_string` writes out; what it says depends
/// on the bytes alone.
#[verifier::external_body]
fn text_of(bytes: Vec<u8>) -> (text: Result<String, String>)
    ensures
        text is Ok <==> valid_utf8(bytes@),
        text matches Ok(s) ==> encode_utf8(s@) == bytes@,
        text matches Err(message) ==> message@ == utf8_error_text(bytes@),
{
    String::from_utf8(bytes).map_err(|error| error.to_string())
}

impl Document {
    #[verifier::type_invariant]
    spec fn inv(&self) -> bool {
        &&& line_views(self.lines@) == split_lines(self.text@)
        &&& tree_wf(models(self.nodes@))
    }

    /// The document of `path` with the given `text`, parsed as Markdown with
    /// front matter between lines of `---`.
    pub fn new(path: String, text: String) -> (doc: Document)
        ensures
            doc@ == document_of(path@, text@),
            document_wf(doc@),
    {
        let delimiter = "---".to_owned();
        Document::with_delimiter(path, text, Some(delimiter))
    }

    /// The document of `path` whose text `bytes` hold in UTF-8, parsed as
    /// [`Document::new`] parses it. Bytes that are not UTF-8 are an error of
    /// reading.
    pub fn from_bytes(path: String, bytes: Vec<u8>) -> (result: Result<Document, IoError>)
        ensures
            result is Ok <==> valid_utf8(bytes@),
            result matches Ok(doc) ==> doc@ == document_of(path@, decode_utf8(bytes@)),
            result matches Ok(doc) ==> document_wf(doc@),
            result matches Err(error) ==> error@ == (ErrorView {
                path: path@,
                message: utf8_error_text(bytes@),
            }),
    {
        broadcast use vstd::utf8::encode_utf8_decode_utf8;

        match text_of(bytes) {
            Ok(text) => Ok(Document::new(path, text)),
            Err(message) => Err(IoError::new(path, message)),
        }
    }

    /// The document of `path` with the given `text`, parsed as Markdown.
    /// Where a `delimiter` is given, front matter between lines of it is
    /// split off.
    pub fn with_delimiter(path: String, text: String, delimiter: Option<String>) -> (doc: Document)
        ensures
            doc@.path == path@,
            doc@.text == text@,
            doc@.lines == split_lines(text@),
            doc@.tree == tree_of(parsed_events(text@, delimiter.deep_view())),
            document_wf(doc@),
    {
        let events = parse_events(text.as_str(), delimiter);
        Document::from_events(path, text, events)
    }

    /// The document of `path` with the given `text` and the tree that
    /// `events` describe.
    pub fn from_events(path: String, text: String, events: Vec<NodeEvent>) -> (doc: Document)
        ensures
            doc@.path == path@,
            doc@.text == text@,
            doc@.lines == split_lines(text@),
            doc@.tree == tree_of(events@),
            document_wf(doc@),
    {
        let lines = lines_of(text.as_str());
        let mut nodes: Vec<Node> = Vec::new();
        let mut open: Vec<usize> = Vec::new();
        let ghost all = events@;
        let count = events.len();
        let mut rest = reversed(events);
        let mut done: usize = 0;
        proof {
            assert(models(nodes@) =~= tree_state(all.take(0)).nodes);
            assert(open@ =~= tree_state(all.take(0)).open);
            assert(all.skip(0) =~= all);
        }
        while rest.len() > 0
            invariant
                all.len() == count,
                done + rest.len() == all.len(),
                rest@ == all.skip(done as int).reverse(),
                models(nodes@) == tree_state(all.take(done as int)).nodes,
                open@ == tree_state(all.take(done as int)).open,
            decreases rest.len(),
        {
            let ghost before = models(nodes@);
            let ghost state = tree_state(all.take(done as int));
            proof {
                lemma_tree_state_wf(all.take(done as int));
                assert(all.take(done + 1).drop_last() =~= all.take(done as int));
                assert(all.take(done + 1).last() == all[done as int]);
                assert(rest@.last() == all.skip(done as int)[0]);
            }
            let event = rest.pop().unwrap();
            proof {
                assert(rest@ =~= all.skip(done + 1).reverse());
            }
            match event {
                NodeEvent::Enter(value, position) => {
                    let index = nodes.len();
                    if open.len() > 0 {
                        let parent = open[open.len() - 1];
                        nodes[parent].children.push(index);
                        nodes.push(
                            Node { value, position, parent: Some(parent), children: Vec::new() },
                        );
                    } else {
                        nodes.push(Node { value, position, parent: None, children: Vec::new() });
                    }
                    open.push(index);
                    proof {
                        assert(models(nodes@) =~= tree_step(state, event).nodes);
                    }
                },
                NodeEvent::Leave => {
                    if open.len() > 1 {
                        open.pop();
                    }
                    proof {
                        assert(open@ =~= tree_step(state, event).open);
                    }
                },
            }
            done = done + 1;
        }
        proof {
            assert(all.take(done as int) =~= all);
            lemma_tree_state_wf(all);
        }
        Document { path, text, lines, nodes }
    }

    pub fn path(&self) -> (path: &String)
        ensures
            path@ == self@.path,
    {
        &self.path
    }

    pub fn text(&self) -> (text: &String)
        ensures
            text@ == self@.text,
    {
        &self.text
    }

    /// The lines of the text, without their line endings.
    pub fn lines(&self) -> (lines: &Vec<String>)
        ensures
            line_views(lines@) == self@.lines,
            document_wf(self@),
    {
        proof {
            use_type_invariant(self);
        }
        &self.lines
    }

    /// The nodes of the tree, in document order; the root comes first.
    pub fn nodes(&self) -> (nodes: &Vec<Node>)
        ensures
            models(nodes@) == self@.tree,
            document_wf(self@),
    {
        proof {
            use_type_invariant(self);
        }
        &self.nodes
    }

    /// The text of the front matter, if the document begins with one.
    pub fn front_matter(&self) -> (front_matter: Option<&String>)
        ensures
            front_matter.deep_view() == front_matter_of(self@.tree),
    {
        proof {
            use_type_invariant(self);
        }
        if self.nodes.len() > 0 && self.nodes[0].children.len() > 0 {
            proof {
                assert(node_wf(models(self.nodes@), 0));
                assert(models(self.nodes@)[0].children[0] < self.nodes.len());
            }
            let first = self.nodes[0].children[0];
            match &self.nodes[first].value {
                NodeValue::FrontMatter(text) => Some(text),
                _ => None,
            }
        } else {
            None
        }
    }
}

} // verus!
