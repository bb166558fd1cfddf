use purrtty::agent::{
    agent_args, deliver_line, deliverable, next_action, output_of_line, parse_event, read_line,
    session_of_members, started_session, AgentOutput, BlockUpdate, ContentBlock, Delta, ReaderAction, StdoutRead, StreamEvent,
    StreamLine,
};
use purrtty::json::text_member;
use serde_json::Value;

fn json(text: &str) -> Value {
    serde_json::from_str(text).unwrap()
}

fn output(text: &str) -> (Option<String>, BlockUpdate) {
    let out = parse_event(&json(text));
    (out.text, out.update)
}

fn delta_line(delta: &str) -> String {
    format!(
        r#"{{"type":"stream_event","event":{{"type":"content_block_delta","delta":{}}}}}"#,
        delta
    )
}

fn block_line(block: &str) -> String {
    format!(
        r#"{{"type":"stream_event","event":{{"type":"content_block_start","content_block":{}}}}}"#,
        block
    )
}

#[test]
fn text_delta_is_echoed_with_terminal_line_endings() {
    let (text, update) = output(&delta_line(r#"{"type":"text_delta","text":"one\ntwo\n"}"#));
    assert_eq!(text.as_deref(), Some("one\r\ntwo\r\n"));
    assert_eq!(update, BlockUpdate::TextDelta("one\ntwo\n".to_string()));
}

#[test]
fn text_delta_without_text_is_empty() {
    let (text, update) = output(&delta_line(r#"{"type":"text_delta"}"#));
    assert_eq!(text.as_deref(), Some(""));
    assert_eq!(update, BlockUpdate::TextDelta(String::new()));
    // A text that is no string counts as missing.
    let (text, _) = output(&delta_line(r#"{"type":"text_delta","text":7}"#));
    assert_eq!(text.as_deref(), Some(""));
}

#[test]
fn tool_input_is_echoed_dimmed() {
    let (text, update) =
        output(&delta_line(r#"{"type":"input_json_delta","partial_json":"{\"a\":"}"#));
    assert_eq!(text.as_deref(), Some("\x1b[2m{\"a\":\x1b[0m"));
    assert_eq!(update, BlockUpdate::ToolInput("{\"a\":".to_string()));
}

#[test]
fn unknown_delta_has_no_output() {
    assert_eq!(output(&delta_line(r#"{"type":"signature_delta"}"#)), (None, BlockUpdate::Nothing));
    assert_eq!(output(&delta_line(r#"{}"#)), (None, BlockUpdate::Nothing));
    assert_eq!(output(&delta_line("7")), (None, BlockUpdate::Nothing));
    let no_delta = r#"{"type":"stream_event","event":{"type":"content_block_delta"}}"#;
    assert_eq!(output(no_delta), (None, BlockUpdate::Nothing));
}

#[test]
fn tool_use_is_announced() {
    let (text, update) = output(&block_line(r#"{"type":"tool_use","name":"Read"}"#));
    assert_eq!(text.as_deref(), Some("\r\n\x1b[1;33m⚡ Read\x1b[0m "));
    assert_eq!(update, BlockUpdate::ToolStart { name: "Read".to_string() });
}

#[test]
fn tool_without_a_name_is_called_tool() {
    let (text, update) = output(&block_line(r#"{"type":"tool_use"}"#));
    assert_eq!(text.as_deref(), Some("\r\n\x1b[1;33m⚡ tool\x1b[0m "));
    assert_eq!(update, BlockUpdate::ToolStart { name: "tool".to_string() });
}

#[test]
fn other_content_blocks_have_no_output() {
    assert_eq!(output(&block_line(r#"{"type":"text","text":""}"#)), (None, BlockUpdate::Nothing));
    let no_block = r#"{"type":"stream_event","event":{"type":"content_block_start"}}"#;
    assert_eq!(output(no_block), (None, BlockUpdate::Nothing));
}

#[test]
fn content_block_stop_ends_the_line() {
    let (text, update) =
        output(r#"{"type":"stream_event","event":{"type":"content_block_stop","index":0}}"#);
    assert_eq!(text.as_deref(), Some("\r\n"));
    assert_eq!(update, BlockUpdate::ContentBlockStop);
}

#[test]
fn other_lines_have_no_output() {
    for line in [
        r#"{"type":"system","subtype":"init","session_id":"x"}"#,
        r#"{"type":"result"}"#,
        r#"{"type":"assistant","event":{"type":"content_block_stop"}}"#,
        r#"{"type":"rate_limit_event"}"#,
        r#"{"type":"stream_event"}"#,
        r#"{"type":"stream_event","event":{"type":"message_start"}}"#,
        r#"{"type":"stream_event","event":{}}"#,
        r#"{"type":7,"event":{"type":"content_block_stop"}}"#,
        r#"{"event":{"type":"content_block_stop"}}"#,
        "[]",
        "null",
    ] {
        assert_eq!(output(line), (None, BlockUpdate::Nothing), "{}", line);
        assert!(deliver_line(line).is_none());
    }
}

#[test]
fn read_line_takes_the_members_of_a_document() {
    let document = json(&delta_line(r#"{"type":"text_delta","text":"t","partial_json":"p"}"#));
    let line = read_line(&document);
    assert_eq!(line.kind, Some("stream_event"));
    let event = line.event.unwrap();
    assert_eq!(event.kind, Some("content_block_delta"));
    assert!(event.content_block.is_none());
    let delta = event.delta.unwrap();
    assert_eq!((delta.kind, delta.text), (Some("text_delta"), Some("t")));
    assert_eq!(delta.partial_json, Some("p"));
    assert_eq!(text_member(&document, "type"), Some("stream_event"));
    assert_eq!(text_member(&document, "event"), None);
    assert_eq!(text_member(&document, "absent"), None);
}

#[test]
fn lines_written_as_plain_values() {
    let block = ContentBlock { kind: Some("tool_use"), name: Some("Bash") };
    let event =
        StreamEvent { kind: Some("content_block_start"), delta: None, content_block: Some(block) };
    let out = output_of_line(&StreamLine { kind: Some("stream_event"), event: Some(event) });
    assert_eq!(out.update, BlockUpdate::ToolStart { name: "Bash".to_string() });
    let delta = Delta { kind: Some("text_delta"), text: Some("hi"), partial_json: None };
    let event =
        StreamEvent { kind: Some("content_block_delta"), delta: Some(delta), content_block: None };
    let out = output_of_line(&StreamLine { kind: Some("stream_event"), event: Some(event) });
    assert_eq!(out.text.as_deref(), Some("hi"));
}

#[test]
fn text_deltas_echo_like_their_concatenation() {
    let first = output(&delta_line(r#"{"type":"text_delta","text":"a\n"}"#)).0.unwrap();
    let second = output(&delta_line(r#"{"type":"text_delta","text":"\nb"}"#)).0.unwrap();
    let both = output(&delta_line(r#"{"type":"text_delta","text":"a\n\nb"}"#)).0.unwrap();
    assert_eq!(first + &second, both);
}

#[test]
fn deliver_line_drops_what_is_no_event() {
    assert!(deliver_line("").is_none());
    assert!(deliver_line("not json").is_none());
    assert!(deliver_line(r#"{"type":"stream_event""#).is_none());
    let stop = deliver_line(r#"{"type":"stream_event","event":{"type":"content_block_stop"}}"#);
    assert_eq!(stop.unwrap().update, BlockUpdate::ContentBlockStop);
}

#[test]
fn deliverable_keeps_what_shows_or_changes() {
    assert!(deliverable(AgentOutput { text: None, update: BlockUpdate::Nothing }).is_none());
    let shown = AgentOutput { text: Some(String::new()), update: BlockUpdate::Nothing };
    assert_eq!(deliverable(shown).unwrap().text.as_deref(), Some(""));
    let changing = AgentOutput { text: None, update: BlockUpdate::ContentBlockStop };
    assert_eq!(deliverable(changing).unwrap().update, BlockUpdate::ContentBlockStop);
}

/// The texts handed on for a sequence of reads, and the exit code.
fn run(reads: Vec<StdoutRead>) -> (Vec<String>, Option<i32>) {
    let mut texts = Vec::new();
    for read in &reads {
        match next_action(read) {
            ReaderAction::Deliver(out) => texts.push(out.text.unwrap()),
            ReaderAction::Skip => {}
            ReaderAction::Exit(code) => return (texts, Some(code)),
        }
    }
    (texts, None)
}

fn text_line(text: &str) -> StdoutRead {
    StdoutRead::Line(delta_line(&format!(r#"{{"type":"text_delta","text":"{}"}}"#, text)))
}

#[test]
fn reader_delivers_in_order_until_the_end() {
    let reads = vec![
        text_line("a"),
        StdoutRead::Line(String::new()),
        StdoutRead::Line("{".to_string()),
        text_line("b"),
        StdoutRead::Closed,
        text_line("c"),
    ];
    assert_eq!(run(reads), (vec!["a".to_string(), "b".to_string()], Some(0)));
}

#[test]
fn reader_stops_at_a_failed_read() {
    let reads = vec![text_line("a"), StdoutRead::Failed, text_line("b")];
    assert_eq!(run(reads), (vec!["a".to_string()], Some(0)));
    assert_eq!(run(vec![text_line("a")]), (vec!["a".to_string()], None));
}

#[test]
fn agent_args_hold_the_prompt() {
    assert_eq!(
        agent_args("why?"),
        [
            "-p",
            "why?",
            "--output-format",
            "stream-json",
            "--verbose",
            "--include-partial-messages",
            "--allowedTools",
            "Bash,Read,Edit,Write,Grep,Glob",
        ]
    );
}

#[test]
fn session_start_is_read_from_init_lines() {
    let line = r#"{"type":"system","subtype":"init","session_id":"s-1","tools":[]}"#;
    assert_eq!(started_session(line).as_deref(), Some("s-1"));
    assert!(deliver_line(line).is_none());
    for other in [
        r#"{"type":"system","subtype":"init"}"#,
        r#"{"type":"system","subtype":"init","session_id":7}"#,
        r#"{"type":"system","subtype":"status","session_id":"s-1"}"#,
        r#"{"type":"system","session_id":"s-1"}"#,
        r#"{"type":"result","subtype":"init","session_id":"s-1"}"#,
        r#"{"subtype":"init","session_id":"s-1"}"#,
        "{",
        "",
    ] {
        assert_eq!(started_session(other), None, "{}", other);
    }
    assert_eq!(session_of_members(Some("system"), Some("init"), Some("x")), Some("x"));
    assert_eq!(session_of_members(Some("system"), None, Some("x")), None);
    assert_eq!(session_of_members(None, Some("init"), Some("x")), None);
}
