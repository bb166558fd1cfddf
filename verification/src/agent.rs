//! The agent's event stream.
//!
//! The agent process writes one JSON document per line. Each line becomes an
//! [`AgentOutput`]: text with ANSI sequences for the terminal grid, and a
//! [`BlockUpdate`] for the block that shows the conversation.
use crate::json::{json_document, json_get, json_tree, parse_json, text_member, JsonTree};
use crate::text::{chars_of, crlf, lemma_crlf_concat, to_crlf};
use serde_json::Value;
use vstd::prelude::*;
use vstd::string::StringExecFns;

verus! {

/// What a single stream event produces.
pub struct AgentOutput {
    /// ANSI text to echo into the terminal grid. `None` for events that
    /// produce no visible output.
    pub text: Option<String>,
    /// Structured update for the block that shows the conversation.
    pub update: BlockUpdate,
}

/// Structured block update extracted from a stream event.
#[derive(Debug, Clone, PartialEq, Eq)]
pub enum BlockUpdate {
    /// The event changes no block.
    Nothing,
    TextDelta(String),
    ToolStart { name: String },
    ToolInput(String),
    ContentBlockStop,
}

/// The contents of a [`BlockUpdate`].
pub enum UpdateView {
    Nothing,
    TextDelta(Seq<char>),
    ToolStart { name: Seq<char> },
    ToolInput(Seq<char>),
    ContentBlockStop,
}

/// The contents of an [`AgentOutput`].
pub struct OutputView {
    pub text: Option<Seq<char>>,
    pub update: UpdateView,
}

impl View for BlockUpdate {
    type V = UpdateView;

    open spec fn view(&self) -> UpdateView {
        match self {
            BlockUpdate::Nothing => UpdateView::Nothing,
            BlockUpdate::TextDelta(raw) => UpdateView::TextDelta(raw@),
            BlockUpdate::ToolStart { name } => UpdateView::ToolStart { name: name@ },
            BlockUpdate::ToolInput(partial) => UpdateView::ToolInput(partial@),
            BlockUpdate::ContentBlockStop => UpdateView::ContentBlockStop,
        }
    }
}

impl View for AgentOutput {
    type V = OutputView;

    open spec fn view(&self) -> OutputView {
        OutputView {
            text: match self.text {
                Some(text) => Some(text@),
                None => None,
            },
            update: self.update@,
        }
    }
}

/// What the logic reads of one line of the stream. A field is `None` where the
/// document holds no such member, or for text, where the member is no string.
pub struct StreamLine<'a> {
    pub kind: Option<&'a str>,
    pub event: Option<StreamEvent<'a>>,
}

/// The event inside a line of kind `stream_event`.
pub struct StreamEvent<'a> {
    pub kind: Option<&'a str>,
    pub delta: Option<Delta<'a>>,
    pub content_block: Option<ContentBlock<'a>>,
}

/// The part of a content block that an event adds.
pub struct Delta<'a> {
    pub kind: Option<&'a str>,
    pub text: Option<&'a str>,
    pub partial_json: Option<&'a str>,
}

/// The content block that an event opens.
pub struct ContentBlock<'a> {
    pub kind: Option<&'a str>,
    pub name: Option<&'a str>,
}

/// The contents of a [`StreamLine`].
pub struct LineView {
    pub kind: Option<Seq<char>>,
    pub event: Option<EventView>,
}

/// The contents of a [`StreamEvent`].
pub struct EventView {
    pub kind: Option<Seq<char>>,
    pub delta: Option<DeltaView>,
    pub content_block: Option<ContentBlockView>,
}

/// The contents of a [`Delta`].
pub struct DeltaView {
    pub kind: Option<Seq<char>>,
    pub text: Option<Seq<char>>,
    pub partial_json: Option<Seq<char>>,
}

/// The contents of a [`ContentBlock`].
pub struct ContentBlockView {
    pub kind: Option<Seq<char>>,
    pub name: Option<Seq<char>>,
}

impl<'a> View for Delta<'a> {
    type V = DeltaView;

    open spec fn view(&self) -> DeltaView {
        DeltaView {
            kind: chars_of(self.kind),
            text: chars_of(self.text),
            partial_json: chars_of(self.partial_json),
        }
    }
}

impl<'a> View for ContentBlock<'a> {
    type V = ContentBlockView;

    open spec fn view(&self) -> ContentBlockView {
        ContentBlockView { kind: chars_of(self.kind), name: chars_of(self.name) }
    }
}

impl<'a> View for StreamEvent<'a> {
    type V = EventView;

    open spec fn view(&self) -> EventView {
        EventView {
            kind: chars_of(self.kind),
            delta: match self.delta {
                Some(delta) => Some(delta@),
                None => None,
            },
            content_block: match self.content_block {
                Some(block) => Some(block@),
                None => None,
            },
        }
    }
}

impl<'a> View for StreamLine<'a> {
    type V = LineView;

    open spec fn view(&self) -> LineView {
        LineView {
            kind: chars_of(self.kind),
            event: match self.event {
                Some(event) => Some(event@),
                None => None,
            },
        }
    }
}

/// The members of a document that a line is made of.
pub open spec fn line_of(document: JsonTree) -> LineView {
    LineView {
        kind: document.text_member("type"@),
        event: match document.member("event"@) {
            Some(event) => Some(event_of(event)),
            None => None,
        },
    }
}

/// The members of a document's `event` that a line holds.
pub open spec fn event_of(event: JsonTree) -> EventView {
    EventView {
        kind: event.text_member("type"@),
        delta: match event.member("delta"@) {
            Some(delta) => Some(delta_of(delta)),
            None => None,
        },
        content_block: match event.member("content_block"@) {
            Some(block) => Some(content_block_of(block)),
            None => None,
        },
    }
}

/// The members of an event's `delta` that a line holds.
pub open spec fn delta_of(delta: JsonTree) -> DeltaView {
    DeltaView {
        kind: delta.text_member("type"@),
        text: delta.text_member("text"@),
        partial_json: delta.text_member("partial_json"@),
    }
}

/// The members of an event's `content_block` that a line holds.
pub open spec fn content_block_of(block: JsonTree) -> ContentBlockView {
    ContentBlockView { kind: block.text_member("type"@), name: block.text_member("name"@) }
}

/// `text`, or `default` where there is none.
pub open spec fn text_or(text: Option<Seq<char>>, default: Seq<char>) -> Seq<char> {
    match text {
        Some(chars) => chars,
        None => default,
    }
}

/// The output of an event that shows nothing and changes no block.
pub open spec fn no_output() -> OutputView {
    OutputView { text: None, update: UpdateView::Nothing }
}

/// Agent text is echoed with terminal line endings; the tool's partial input
/// is echoed dimmed. Both go to the block unchanged.
pub open spec fn delta_output(delta: DeltaView) -> OutputView {
    if delta.kind == Some("text_delta"@) {
        let raw = text_or(delta.text, ""@);
        OutputView { text: Some(crlf(raw)), update: UpdateView::TextDelta(raw) }
    } else if delta.kind == Some("input_json_delta"@) {
        let partial = text_or(delta.partial_json, ""@);
        OutputView {
            text: Some("\x1b[2m"@ + partial + "\x1b[0m"@),
            update: UpdateView::ToolInput(partial),
        }
    } else {
        no_output()
    }
}

/// A tool invocation is announced on a line of its own, in bold yellow.
pub open spec fn content_block_output(block: ContentBlockView) -> OutputView {
    if block.kind == Some("tool_use"@) {
        let name = text_or(block.name, "tool"@);
        OutputView {
            text: Some("\r\n\x1b[1;33m⚡ "@ + name + "\x1b[0m "@),
            update: UpdateView::ToolStart { name },
        }
    } else {
        no_output()
    }
}

/// The output of the event inside a line.
pub open spec fn event_output(event: EventView) -> OutputView {
    if event.kind == Some("content_block_delta"@) {
        match event.delta {
            Some(delta) => delta_output(delta),
            None => no_output(),
        }
    } else if event.kind == Some("content_block_start"@) {
        match event.content_block {
            Some(block) => content_block_output(block),
            None => no_output(),
        }
    } else if event.kind == Some("content_block_stop"@) {
        OutputView { text: Some("\r\n"@), update: UpdateView::ContentBlockStop }
    } else {
        no_output()
    }
}

/// The output of a line. Only lines of kind `stream_event` that hold an event
/// have one.
pub open spec fn line_output(line: LineView) -> OutputView {
    match line.event {
        Some(event) => if line.kind == Some("stream_event"@) {
            event_output(event)
        } else {
            no_output()
        },
        None => no_output(),
    }
}

fn nothing() -> (out: AgentOutput)
    ensures
        out@ == no_output(),
{
    AgentOutput { text: None, update: BlockUpdate::Nothing }
}

/// `before`, `middle` and `after`, one after another.
fn joined(before: &str, middle: &str, after: &str) -> (out: String)
    ensures
        out@ == before@ + middle@ + after@,
{
    let mut out = before.to_owned();
    out.append(middle);
    out.append(after);
    out
}

/// Whether there is a text and it is `expected`.
fn is_text(text: Option<&str>, expected: &str) -> (same: bool)
    ensures
        same == (chars_of(text) == Some(expected@)),
{
    match text {
        Some(chars) => *chars == *expected,
        None => false,
    }
}

/// The output of a delta.
fn output_of_delta(delta: &Delta) -> (out: AgentOutput)
    ensures
        out@ == delta_output(delta@),
{
    if is_text(delta.kind, "text_delta") {
        let raw = delta.text.unwrap_or("");
        AgentOutput { text: Some(to_crlf(raw)), update: BlockUpdate::TextDelta(raw.to_owned()) }
    } else if is_text(delta.kind, "input_json_delta") {
        let partial = delta.partial_json.unwrap_or("");
        AgentOutput {
            text: Some(joined("\x1b[2m", partial, "\x1b[0m")),
            update: BlockUpdate::ToolInput(partial.to_owned()),
        }
    } else {
        nothing()
    }
}

/// The output of a content block that an event opens.
fn output_of_content_block(block: &ContentBlock) -> (out: AgentOutput)
    ensures
        out@ == content_block_output(block@),
{
    if is_text(block.kind, "tool_use") {
        let name = block.name.unwrap_or("tool");
        AgentOutput {
            text: Some(joined("\r\n\x1b[1;33m⚡ ", name, "\x1b[0m ")),
            update: BlockUpdate::ToolStart { name: name.to_owned() },
        }
    } else {
        nothing()
    }
}

/// The output of the event inside a line.
fn output_of_event(event: &StreamEvent) -> (out: AgentOutput)
    ensures
        out@ == event_output(event@),
{
    if is_text(event.kind, "content_block_delta") {
        match &event.delta {
            Some(delta) => output_of_delta(delta),
            None => nothing(),
        }
    } else if is_text(event.kind, "content_block_start") {
        match &event.content_block {
            Some(block) => output_of_content_block(block),
            None => nothing(),
        }
    } else if is_text(event.kind, "content_block_stop") {
        AgentOutput { text: Some("\r\n".to_owned()), update: BlockUpdate::ContentBlockStop }
    } else {
        nothing()
    }
}

/// The output of a line.
pub fn output_of_line(line: &StreamLine) -> (out: AgentOutput)
    ensures
        out@ == line_output(line@),
{
    match &line.event {
        Some(event) => if is_text(line.kind, "stream_event") {
            output_of_event(event)
        } else {
            nothing()
        },
        None => nothing(),
    }
}

/// Reads the members of a document that a line is made of.
pub fn read_line<'a>(json: &'a Value) -> (line: StreamLine<'a>)
    ensures
        line@ == line_of(json_tree(*json)),
{
    StreamLine {
        kind: text_member(json, "type"),
        event: match json_get(json, "event") {
            Some(event) => Some(read_event(event)),
            None => None,
        },
    }
}

fn read_event<'a>(event: &'a Value) -> (read: StreamEvent<'a>)
    ensures
        read@ == event_of(json_tree(*event)),
{
    StreamEvent {
        kind: text_member(event, "type"),
        delta: match json_get(event, "delta") {
            Some(delta) => Some(
                Delta {
                    kind: text_member(delta, "type"),
                    text: text_member(delta, "text"),
                    partial_json: text_member(delta, "partial_json"),
                },
            ),
            None => None,
        },
        content_block: match json_get(event, "content_block") {
            Some(block) => Some(
                ContentBlock { kind: text_member(block, "type"), name: text_member(block, "name") },
            ),
            None => None,
        },
    }
}

/// Turns a parsed line of the stream into the text for the terminal and the
/// update for the block.
pub fn parse_event(json: &Value) -> (out: AgentOutput)
    ensures
        out@ == line_output(line_of(json_tree(*json))),
{
    output_of_line(&read_line(json))
}

/// Whether an output is handed on: it shows something or changes a block.
pub open spec fn is_delivered(out: OutputView) -> bool {
    out.text is Some || out.update !is Nothing
}

/// What is handed on for one line of the agent's standard output. Empty lines,
/// lines that are no JSON document and lines without output are dropped.
pub open spec fn delivery(line: Seq<char>) -> Option<OutputView> {
    match json_document(line) {
        Some(document) => {
            let out = line_output(line_of(document));
            if line.len() != 0 && is_delivered(out) {
                Some(out)
            } else {
                None
            }
        },
        None => None,
    }
}

/// Drops an output that shows nothing and changes no block.
pub fn deliverable(out: AgentOutput) -> (kept: Option<AgentOutput>)
    ensures
        kept == (if is_delivered(out@) {
            Some(out)
        } else {
            None
        }),
        kept is None <==> out.text is None && out.update is Nothing,
        kept is Some ==> kept == Some(out),
{
    let changes = match &out.update {
        BlockUpdate::Nothing => false,
        _ => true,
    };
    if out.text.is_some() || changes {
        Some(out)
    } else {
        None
    }
}

/// What is handed on for one line of the agent's standard output.
pub fn deliver_line(line: &str) -> (out: Option<AgentOutput>)
    ensures
        match out {
            Some(output) => delivery(line@) == Some(output@),
            None => delivery(line@) is None,
        },
{
    if line.is_empty() {
        return None;
    }
    match parse_json(line) {
        Ok(json) => deliverable(parse_event(&json)),
        Err(_) => None,
    }
}

/// The session that a line of the given members starts: that of a line of kind
/// `system` and subtype `init`, where it names one.
pub open spec fn session_of(
    kind: Option<Seq<char>>,
    subtype: Option<Seq<char>>,
    session_id: Option<Seq<char>>,
) -> Option<Seq<char>> {
    if kind == Some("system"@) && subtype == Some("init"@) {
        session_id
    } else {
        None
    }
}

/// The session that a document starts.
pub open spec fn document_session(document: JsonTree) -> Option<Seq<char>> {
    session_of(
        document.text_member("type"@),
        document.text_member("subtype"@),
        document.text_member("session_id"@),
    )
}

/// The session that a line of the agent's standard output starts.
pub open spec fn line_session(line: Seq<char>) -> Option<Seq<char>> {
    match json_document(line) {
        Some(document) => document_session(document),
        None => None,
    }
}

/// The session that a line of the given members starts.
pub fn session_of_members<'a>(
    kind: Option<&'a str>,
    subtype: Option<&'a str>,
    session_id: Option<&'a str>,
) -> (id: Option<&'a str>)
    ensures
        chars_of(id) == session_of(chars_of(kind), chars_of(subtype), chars_of(session_id)),
{
    if is_text(kind, "system") && is_text(subtype, "init") {
        session_id
    } else {
        None
    }
}

/// The session that a line of the agent's standard output starts, where it
/// starts one.
pub fn started_session(line: &str) -> (id: Option<String>)
    ensures
        match id {
            Some(session) => line_session(line@) == Some(session@),
            None => line_session(line@) is None,
        },
{
    match parse_json(line) {
        Ok(json) => {
            let kind = text_member(&json, "type");
            let subtype = text_member(&json, "subtype");
            let session_id = text_member(&json, "session_id");
            match session_of_members(kind, subtype, session_id) {
                Some(session) => Some(session.to_owned()),
                None => None,
            }
        },
        Err(_) => None,
    }
}

/// The outcome of one attempt to read a line of the agent's standard output.
pub enum StdoutRead {
    Line(String),
    Failed,
    Closed,
}

/// What the reader of the agent's standard output does next.
pub enum ReaderAction {
    /// Hand the output on, then read the next line.
    Deliver(AgentOutput),
    /// Read the next line.
    Skip,
    /// Read no further, and report this exit code.
    Exit(i32),
}

/// The contents of a [`StdoutRead`].
pub enum ReadView {
    Line(Seq<char>),
    Failed,
    Closed,
}

/// The contents of a [`ReaderAction`].
pub enum ActionView {
    Deliver(OutputView),
    Skip,
    Exit(int),
}

impl View for StdoutRead {
    type V = ReadView;

    open spec fn view(&self) -> ReadView {
        match self {
            StdoutRead::Line(line) => ReadView::Line(line@),
            StdoutRead::Failed => ReadView::Failed,
            StdoutRead::Closed => ReadView::Closed,
        }
    }
}

impl View for ReaderAction {
    type V = ActionView;

    open spec fn view(&self) -> ActionView {
        match self {
            ReaderAction::Deliver(out) => ActionView::Deliver(out@),
            ReaderAction::Skip => ActionView::Skip,
            ReaderAction::Exit(code) => ActionView::Exit(*code as int),
        }
    }
}

/// The step of the reader: a line is handed on or skipped; the end of the
/// output and a failed read both end the session with exit code 0.
pub open spec fn reader_step(read: ReadView) -> ActionView {
    match read {
        ReadView::Line(line) => match delivery(line) {
            Some(out) => ActionView::Deliver(out),
            None => ActionView::Skip,
        },
        ReadView::Failed | ReadView::Closed => ActionView::Exit(0),
    }
}

/// The step of the reader of the agent's standard output.
pub fn next_action(read: &StdoutRead) -> (action: ReaderAction)
    ensures
        action@ == reader_step(read@),
{
    match read {
        StdoutRead::Line(line) => match deliver_line(line.as_str()) {
            Some(out) => ReaderAction::Deliver(out),
            None => ReaderAction::Skip,
        },
        StdoutRead::Failed => ReaderAction::Exit(0),
        StdoutRead::Closed => ReaderAction::Exit(0),
    }
}

/// The arguments that run `prompt` once, with streamed JSON events and access
/// to the tools.
pub open spec fn agent_args_spec(prompt: Seq<char>) -> Seq<Seq<char>> {
    seq![
        "-p"@,
        prompt,
        "--output-format"@,
        "stream-json"@,
        "--verbose"@,
        "--include-partial-messages"@,
        "--allowedTools"@,
        "Bash,Read,Edit,Write,Grep,Glob"@,
    ]
}

/// The arguments of the agent program for one prompt.
pub fn agent_args(prompt: &str) -> (args: Vec<String>)
    ensures
        args@.len() == agent_args_spec(prompt@).len(),
        forall|i: int|
            0 <= i < args@.len() ==> (#[trigger] args@[i])@ == agent_args_spec(prompt@)[i],
{
    let mut args: Vec<String> = Vec::new();
    args.push("-p".to_owned());
    args.push(prompt.to_owned());
    args.push("--output-format".to_owned());
    args.push("stream-json".to_owned());
    args.push("--verbose".to_owned());
    args.push("--include-partial-messages".to_owned());
    args.push("--allowedTools".to_owned());
    args.push("Bash,Read,Edit,Write,Grep,Glob".to_owned());
    args
}

/// The outputs that a run of the reader hands on, in order, for a sequence of
/// reads: those of the lines before the first read that ends the session.
pub open spec fn run_deliveries(reads: Seq<ReadView>) -> Seq<OutputView>
    decreases reads.len(),
{
    if reads.len() == 0 {
        seq![]
    } else {
        match reader_step(reads.first()) {
            ActionView::Deliver(out) => seq![out] + run_deliveries(reads.drop_first()),
            ActionView::Skip => run_deliveries(reads.drop_first()),
            ActionView::Exit(_) => seq![],
        }
    }
}

/// An event shows something in the terminal exactly when it changes a block.
pub proof fn lemma_text_iff_update(line: LineView)
    ensures
        line_output(line).text is Some <==> line_output(line).update !is Nothing,
{
}

/// Lines of any kind but `stream_event` produce no output.
pub proof fn lemma_only_stream_events(line: LineView)
    requires
        line.kind != Some("stream_event"@),
    ensures
        line_output(line) == no_output(),
{
}

/// A line that starts a session hands nothing on.
pub proof fn lemma_session_start_is_skipped(line: Seq<char>)
    requires
        line_session(line) is Some,
    ensures
        delivery(line) is None,
{
    reveal_strlit("system");
    reveal_strlit("stream_event");
    assert("system"@.len() != "stream_event"@.len());
}

/// Text deltas echoed one by one look like their concatenation echoed at once.
pub proof fn lemma_text_deltas_concatenate(first: DeltaView, second: DeltaView, both: DeltaView)
    requires
        first.kind == Some("text_delta"@),
        second.kind == Some("text_delta"@),
        both.kind == Some("text_delta"@),
        text_or(both.text, ""@) == text_or(first.text, ""@) + text_or(second.text, ""@),
    ensures
        delta_output(both).text == Some(
            delta_output(first).text->0 + delta_output(second).text->0,
        ),
{
    lemma_crlf_concat(text_or(first.text, ""@), text_or(second.text, ""@));
}

/// The reader hands outputs on in the order of their lines: where every read
/// of `before` is a line, what follows adds to its outputs and changes none.
pub proof fn lemma_deliveries_in_order(before: Seq<ReadView>, after: Seq<ReadView>)
    requires
        forall|i: int| 0 <= i < before.len() ==> #[trigger] before[i] is Line,
    ensures
        run_deliveries(before + after) == run_deliveries(before) + run_deliveries(after),
    decreases before.len(),
{
    if before.len() == 0 {
        assert(before + after == after);
        assert(run_deliveries(before) + run_deliveries(after) == run_deliveries(after));
    } else {
        assert(before[0] is Line);
        assert((before + after).drop_first() == before.drop_first() + after);
        lemma_deliveries_in_order(before.drop_first(), after);
        assert(run_deliveries(before + after) == run_deliveries(before) + run_deliveries(after));
    }
}

/// Nothing is handed on after the end of the output or a failed read.
pub proof fn lemma_nothing_after_exit(before: Seq<ReadView>, end: ReadView, after: Seq<ReadView>)
    requires
        end !is Line,
    ensures
        run_deliveries(before + seq![end] + after) == run_deliveries(before),
    decreases before.len(),
{
    let reads = before + seq![end] + after;
    if before.len() == 0 {
        assert(reads.first() == end);
    } else {
        assert(reads.first() == before.first());
        assert(reads.drop_first() == before.drop_first() + seq![end] + after);
        lemma_nothing_after_exit(before.drop_first(), end, after);
    }
}

/// Whether a JSON value is an object that holds `value` under `key`.
pub open spec fn holds(tree: JsonTree, key: Seq<char>, value: JsonTree) -> bool {
    match tree {
        JsonTree::Object(members) => members.dom().contains(key) && members[key] == value,
        _ => false,
    }
}

/// Whether a JSON value is an object that holds a string under `key`.
pub open spec fn holds_text(tree: JsonTree, key: Seq<char>) -> bool {
    exists|chars: Seq<char>| holds(tree, key, JsonTree::Text(chars))
}

proof fn lemma_holds(tree: JsonTree, key: Seq<char>)
    ensures
        forall|value: JsonTree| #[trigger]
            holds(tree, key, value) <==> tree.member(key) == Some(value),
        forall|chars: Seq<char>| #[trigger]
            holds(tree, key, JsonTree::Text(chars)) <==> tree.text_member(key) == Some(chars),
        holds_text(tree, key) <==> tree.text_member(key) is Some,
{
    if tree.text_member(key) is Some {
        assert(holds(tree, key, JsonTree::Text(tree.text_member(key)->0)));
    }
}

/// The literals that the stream's kinds are compared with are all different.
proof fn lemma_kinds_differ()
    ensures
        "content_block_delta"@ != "content_block_start"@,
        "content_block_delta"@ != "content_block_stop"@,
        "content_block_start"@ != "content_block_stop"@,
        "text_delta"@ != "input_json_delta"@,
        ""@ == Seq::<char>::empty(),
{
    reveal_strlit("content_block_delta");
    reveal_strlit("content_block_start");
    reveal_strlit("content_block_stop");
    reveal_strlit("text_delta");
    reveal_strlit("input_json_delta");
    reveal_strlit("");
    assert("content_block_delta"@[14] != "content_block_start"@[14]);
    assert("content_block_delta"@.len() != "content_block_stop"@.len());
    assert("content_block_start"@.len() != "content_block_stop"@.len());
    assert("text_delta"@.len() != "input_json_delta"@.len());
}

/// A text delta goes to the block character for character, and to the terminal
/// with terminal line endings. A delta without a text is an empty one.
pub proof fn lemma_text_delta(document: JsonTree, event: JsonTree, delta: JsonTree, raw: Seq<char>)
    requires
        holds(document, "type"@, JsonTree::Text("stream_event"@)),
        holds(document, "event"@, event),
        holds(event, "type"@, JsonTree::Text("content_block_delta"@)),
        holds(event, "delta"@, delta),
        holds(delta, "type"@, JsonTree::Text("text_delta"@)),
        holds(delta, "text"@, JsonTree::Text(raw)) || (!holds_text(delta, "text"@) && raw.len()
            == 0),
    ensures
        line_output(line_of(document)).update == UpdateView::TextDelta(raw),
        line_output(line_of(document)).text == Some(crlf(raw)),
{
    lemma_kinds_differ();
    lemma_holds(document, "type"@);
    lemma_holds(document, "event"@);
    lemma_holds(event, "type"@);
    lemma_holds(event, "delta"@);
    lemma_holds(delta, "type"@);
    lemma_holds(delta, "text"@);
    assert(raw.len() == 0 ==> raw == ""@);
}

/// A piece of a tool's input goes to the block character for character, and to
/// the terminal between the sequences for dim and for normal text.
pub proof fn lemma_tool_input(
    document: JsonTree,
    event: JsonTree,
    delta: JsonTree,
    partial: Seq<char>,
)
    requires
        holds(document, "type"@, JsonTree::Text("stream_event"@)),
        holds(document, "event"@, event),
        holds(event, "type"@, JsonTree::Text("content_block_delta"@)),
        holds(event, "delta"@, delta),
        holds(delta, "type"@, JsonTree::Text("input_json_delta"@)),
        holds(delta, "partial_json"@, JsonTree::Text(partial)) || (!holds_text(
            delta,
            "partial_json"@,
        ) && partial.len() == 0),
    ensures
        line_output(line_of(document)).update == UpdateView::ToolInput(partial),
        line_output(line_of(document)).text == Some(
            seq!['\x1b', '[', '2', 'm'] + partial + seq!['\x1b', '[', '0', 'm'],
        ),
{
    lemma_kinds_differ();
    lemma_holds(document, "type"@);
    lemma_holds(document, "event"@);
    lemma_holds(event, "type"@);
    lemma_holds(event, "delta"@);
    lemma_holds(delta, "type"@);
    lemma_holds(delta, "partial_json"@);
    assert(partial.len() == 0 ==> partial == ""@);
    reveal_strlit("\x1b[2m");
    reveal_strlit("\x1b[0m");
    assert("\x1b[2m"@ == seq!['\x1b', '[', '2', 'm']);
    assert("\x1b[0m"@ == seq!['\x1b', '[', '0', 'm']);
}

/// The start of a tool's use names the tool to the block, and shows its name in
/// bold yellow on a line of its own. A tool without a name is called `tool`.
pub proof fn lemma_tool_start(
    document: JsonTree,
    event: JsonTree,
    block: JsonTree,
    name: Seq<char>,
)
    requires
        holds(document, "type"@, JsonTree::Text("stream_event"@)),
        holds(document, "event"@, event),
        holds(event, "type"@, JsonTree::Text("content_block_start"@)),
        holds(event, "content_block"@, block),
        holds(block, "type"@, JsonTree::Text("tool_use"@)),
        holds(block, "name"@, JsonTree::Text(name)) || (!holds_text(block, "name"@) && name
            == seq!['t', 'o', 'o', 'l']),
    ensures
        line_output(line_of(document)).update == (UpdateView::ToolStart { name }),
        line_output(line_of(document)).text == Some(
            seq!['\r', '\n', '\x1b', '[', '1', ';', '3', '3', 'm', '⚡', ' '] + name + seq![
                '\x1b',
                '[',
                '0',
                'm',
                ' ',
            ],
        ),
{
    lemma_kinds_differ();
    lemma_holds(document, "type"@);
    lemma_holds(document, "event"@);
    lemma_holds(event, "type"@);
    lemma_holds(event, "content_block"@);
    lemma_holds(block, "type"@);
    lemma_holds(block, "name"@);
    reveal_strlit("tool");
    assert("tool"@ == seq!['t', 'o', 'o', 'l']);
    reveal_strlit("\r\n\x1b[1;33m⚡ ");
    reveal_strlit("\x1b[0m ");
    assert("\r\n\x1b[1;33m⚡ "@ == seq!['\r', '\n', '\x1b', '[', '1', ';', '3', '3', 'm', '⚡', ' ']);
    assert("\x1b[0m "@ == seq!['\x1b', '[', '0', 'm', ' ']);
}

/// The end of a content block is told to the block, and ends the line.
pub proof fn lemma_block_stop(document: JsonTree, event: JsonTree)
    requires
        holds(document, "type"@, JsonTree::Text("stream_event"@)),
        holds(document, "event"@, event),
        holds(event, "type"@, JsonTree::Text("content_block_stop"@)),
    ensures
        line_output(line_of(document)).update == UpdateView::ContentBlockStop,
        line_output(line_of(document)).text == Some(seq!['\r', '\n']),
{
    lemma_kinds_differ();
    lemma_holds(document, "type"@);
    lemma_holds(document, "event"@);
    lemma_holds(event, "type"@);
    reveal_strlit("\r\n");
    assert("\r\n"@ == seq!['\r', '\n']);
}

/// Whether an event is a delta of text or of a tool's input, the start of a
/// tool's use, or the end of a content block.
pub open spec fn is_output_event(event: JsonTree) -> bool {
    ||| holds(event, "type"@, JsonTree::Text("content_block_delta"@)) && exists|delta: JsonTree|
        #[trigger] holds(event, "delta"@, delta) && (holds(
            delta,
            "type"@,
            JsonTree::Text("text_delta"@),
        ) || holds(delta, "type"@, JsonTree::Text("input_json_delta"@)))
    ||| holds(event, "type"@, JsonTree::Text("content_block_start"@)) && exists|block: JsonTree|
        #[trigger] holds(event, "content_block"@, block) && holds(
            block,
            "type"@,
            JsonTree::Text("tool_use"@),
        )
    ||| holds(event, "type"@, JsonTree::Text("content_block_stop"@))
}

/// Documents that hold no such event show nothing and change no block.
pub proof fn lemma_other_documents(document: JsonTree)
    requires
        forall|event: JsonTree|
            holds(document, "type"@, JsonTree::Text("stream_event"@)) && #[trigger] holds(
                document,
                "event"@,
                event,
            ) ==> !is_output_event(event),
    ensures
        line_output(line_of(document)).update is Nothing,
        line_output(line_of(document)).text is None,
{
    lemma_kinds_differ();
    lemma_holds(document, "type"@);
    lemma_holds(document, "event"@);
    if document.member("event"@) is Some {
        let event = document.member("event"@)->0;
        assert(holds(document, "event"@, event));
        lemma_holds(event, "type"@);
        lemma_holds(event, "delta"@);
        lemma_holds(event, "content_block"@);
        if event.member("delta"@) is Some {
            let delta = event.member("delta"@)->0;
            assert(holds(event, "delta"@, delta));
            lemma_holds(delta, "type"@);
        }
        if event.member("content_block"@) is Some {
            let block = event.member("content_block"@)->0;
            assert(holds(event, "content_block"@, block));
            lemma_holds(block, "type"@);
        }
    }
}

/// What consecutive text deltas give to the block is their text, with nothing
/// lost or added between them.
pub proof fn lemma_block_text_concatenates(first: DeltaView, second: DeltaView)
    requires
        first.kind == Some("text_delta"@),
        second.kind == Some("text_delta"@),
        first.text is Some,
        second.text is Some,
    ensures
        delta_output(first).update is TextDelta,
        delta_output(second).update is TextDelta,
        delta_output(first).update->TextDelta_0 + delta_output(second).update->TextDelta_0
            == first.text->0 + second.text->0,
{
}

/// The reader hands the output of a line on exactly as it is, wherever the line
/// is a document whose output shows something or changes a block.
pub proof fn lemma_every_output_is_delivered(line: Seq<char>, document: JsonTree)
    requires
        line.len() > 0,
        json_document(line) == Some(document),
        line_output(line_of(document)).text is Some || line_output(line_of(document)).update
            !is Nothing,
    ensures
        reader_step(ReadView::Line(line)) == ActionView::Deliver(line_output(line_of(document))),
{
}

/// The reader skips empty lines, lines that are no document, and documents that
/// show nothing and change no block. It ends, with exit code 0, where there is
/// no line.
pub proof fn lemma_other_reads_deliver_nothing(line: Seq<char>, read: ReadView)
    ensures
        line.len() == 0 ==> reader_step(ReadView::Line(line)) is Skip,
        json_document(line) is None ==> reader_step(ReadView::Line(line)) is Skip,
        json_document(line) matches Some(document) && line_output(line_of(document)).text is None
            && line_output(line_of(document)).update is Nothing ==> reader_step(
            ReadView::Line(line),
        ) is Skip,
        read !is Line ==> reader_step(read) == ActionView::Exit(0),
{
}

/// A run over a single line hands on what the line's step says.
pub proof fn lemma_run_of_one_line(line: Seq<char>)
    ensures
        run_deliveries(seq![ReadView::Line(line)]) == (match reader_step(ReadView::Line(line)) {
            ActionView::Deliver(out) => seq![out],
            _ => seq![],
        }),
        run_deliveries(Seq::<ReadView>::empty()) == Seq::<OutputView>::empty(),
{
    reveal_with_fuel(run_deliveries, 2);
    assert(seq![ReadView::Line(line)].drop_first() == Seq::<ReadView>::empty());
    assert(run_deliveries(seq![ReadView::Line(line)]) == (match reader_step(ReadView::Line(line)) {
        ActionView::Deliver(out) => seq![out],
        _ => seq![],
    }));
}

/// A line starts the session it names exactly when it is a `system` line of
/// subtype `init`.
pub proof fn lemma_session_start(line: Seq<char>, document: JsonTree, id: Seq<char>)
    requires
        json_document(line) == Some(document),
    ensures
        line_session(line) == Some(id) <==> {
            &&& holds(document, "type"@, JsonTree::Text("system"@))
            &&& holds(document, "subtype"@, JsonTree::Text("init"@))
            &&& holds(document, "session_id"@, JsonTree::Text(id))
        },
{
    lemma_holds(document, "type"@);
    lemma_holds(document, "subtype"@);
    lemma_holds(document, "session_id"@);
}

/// A line that is no document starts no session.
pub proof fn lemma_no_session_without_document(line: Seq<char>)
    requires
        json_document(line) is None,
    ensures
        line_session(line) is None,
{
}

/// The prompt stands behind its flag, each option with a value stands before its
/// value, and there is nothing else.
pub proof fn lemma_agent_args(prompt: Seq<char>)
    ensures
        ({
            let args = agent_args_spec(prompt);
            &&& args.len() == 8
            &&& args.subrange(0, 2) == seq!["-p"@, prompt]
            &&& args.subrange(2, 4) == seq!["--output-format"@, "stream-json"@]
            &&& args.subrange(4, 6) == seq!["--verbose"@, "--include-partial-messages"@]
            &&& args.subrange(6, 8) == seq!["--allowedTools"@, "Bash,Read,Edit,Write,Grep,Glob"@]
        }),
{
}

/// The contents of an output are its text and what its update carries.
pub proof fn lemma_output_contents(out: AgentOutput)
    ensures
        out.text matches Some(text) ==> out@.text == Some(text@),
        out.text is None ==> out@.text is None,
        out.update is Nothing <==> out@.update is Nothing,
        out.update is ContentBlockStop <==> out@.update is ContentBlockStop,
        out.update matches BlockUpdate::TextDelta(raw) ==> out@.update == UpdateView::TextDelta(
            raw@,
        ),
        out.update matches BlockUpdate::ToolInput(partial) ==> out@.update
            == UpdateView::ToolInput(partial@),
        out.update matches BlockUpdate::ToolStart { name } ==> out@.update == (
        UpdateView::ToolStart { name: name@ }),
{
}

/// The contents of a read and of an action are what they carry.
pub proof fn lemma_reader_contents(read: StdoutRead, action: ReaderAction)
    ensures
        read matches StdoutRead::Line(line) ==> read@ == ReadView::Line(line@),
        read is Failed <==> read@ is Failed,
        read is Closed <==> read@ is Closed,
        action matches ReaderAction::Deliver(out) ==> action@ == ActionView::Deliver(out@),
        action is Skip <==> action@ is Skip,
        action matches ReaderAction::Exit(code) ==> action@ == ActionView::Exit(code as int),
{
}

/// The contents of a line are the characters of its members.
pub proof fn lemma_line_contents(
    line: StreamLine,
    event: StreamEvent,
    delta: Delta,
    block: ContentBlock,
)
    ensures
        line@.kind == chars_of(line.kind),
        line.event is None <==> line@.event is None,
        line.event == Some(event) ==> line@.event == Some(event@),
        event@.kind == chars_of(event.kind),
        event.delta is None <==> event@.delta is None,
        event.delta == Some(delta) ==> event@.delta == Some(delta@),
        event.content_block is None <==> event@.content_block is None,
        event.content_block == Some(block) ==> event@.content_block == Some(block@),
        delta@.kind == chars_of(delta.kind),
        delta@.text == chars_of(delta.text),
        delta@.partial_json == chars_of(delta.partial_json),
        block@.kind == chars_of(block.kind),
        block@.name == chars_of(block.name),
{
}

} // verus!
