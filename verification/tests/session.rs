use whisper::agent::cli_chat::read_input;
use whisper::agent::session::{
    record_exchange, Message, SessionBuilder, SinkAction, SinkError, StreamItem, Turn, Usage,
};
use whisper::chat::{AgentNotSet, SessionBuilder as ChatSessionBuilder};
use whisper::text::join;

fn text(s: &str) -> StreamItem {
    StreamItem::Text(s.to_string())
}

#[test]
fn quit_command_ends_the_session() {
    assert_eq!(read_input(":q"), None);
    assert_eq!(read_input("  :q \r\n"), None);
}

#[test]
fn a_line_is_trimmed_into_a_prompt() {
    assert_eq!(read_input("  hello there \n"), Some("hello there".to_string()));
    assert_eq!(read_input("\n"), Some(String::new()));
    assert_eq!(read_input(":quit\n"), Some(":quit".to_string()));
    assert_eq!(read_input(": q"), Some(": q".to_string()));
}

#[test]
fn join_puts_the_separator_between_parts() {
    assert_eq!(join(&vec![], "\n"), "");
    assert_eq!(join(&vec!["a".to_string()], "\n"), "a");
    assert_eq!(
        join(&vec!["a".to_string(), "".to_string(), "c".to_string()], ", "),
        "a, , c"
    );
}

#[test]
fn sink_error_messages() {
    assert_eq!(SinkError::Io("broken pipe".to_string()).message(), "I/O Eror: broken pipe");
    assert_eq!(SinkError::Output("bad".to_string()).message(), "Output Error: bad");
    assert_eq!(SinkError::Other("odd".to_string()).message(), "Unkown Error: odd");
}

#[test]
fn usage_starts_at_zero() {
    assert_eq!(Usage::new(), Usage { input_tokens: 0, output_tokens: 0, total_tokens: 0 });
}

#[test]
fn plain_text_is_written_and_kept() {
    let mut turn = Turn::new();
    assert_eq!(turn.text("Hello".to_string()), vec![SinkAction::Text("Hello".to_string())]);
    assert_eq!(turn.text(", world".to_string()), vec![SinkAction::Text(", world".to_string())]);
    assert_eq!(turn.response(), "Hello, world");
    assert!(!turn.is_reasoning());
    assert_eq!(turn.into_response(), "Hello, world");
}

#[test]
fn think_marks_open_and_close_reasoning() {
    let mut turn = Turn::new();
    assert_eq!(turn.text("a".to_string()), vec![SinkAction::Text("a".to_string())]);
    assert_eq!(turn.text("x<think>y".to_string()), vec![SinkAction::ReasonStart]);
    assert!(turn.is_reasoning());
    assert_eq!(turn.text("hidden".to_string()), vec![SinkAction::Text("hidden".to_string())]);
    assert_eq!(turn.response(), "a");
    assert_eq!(turn.text("</think>".to_string()), vec![SinkAction::ReasonEnd]);
    assert!(!turn.is_reasoning());
    assert_eq!(turn.text("b".to_string()), vec![SinkAction::Text("b".to_string())]);
    assert_eq!(turn.response(), "ab");
}

#[test]
fn a_piece_with_both_marks_opens_reasoning() {
    let mut turn = Turn::new();
    assert_eq!(turn.text("<think>short</think>".to_string()), vec![SinkAction::ReasonStart]);
    assert!(turn.is_reasoning());
    assert_eq!(turn.response(), "");
}

#[test]
fn a_broken_mark_is_plain_text() {
    let mut turn = Turn::new();
    assert_eq!(turn.text("<think".to_string()), vec![SinkAction::Text("<think".to_string())]);
    assert_eq!(turn.text("think>".to_string()), vec![SinkAction::Text("think>".to_string())]);
    assert!(!turn.is_reasoning());
    assert_eq!(turn.response(), "<thinkthink>");
}

#[test]
fn reasoning_is_written_between_marks() {
    let turn = Turn::new();
    assert_eq!(
        turn.reasoning(&vec!["first".to_string(), "second".to_string()]),
        vec![
            SinkAction::ReasonStart,
            SinkAction::Text("first\nsecond".to_string()),
            SinkAction::ReasonEnd
        ]
    );
    assert_eq!(turn.response(), "");
}

#[test]
fn a_tool_call_is_announced_and_kept() {
    let mut turn = Turn::new();
    let line = "Call function echo with arguments {\"text\":\"hi\"}...";
    assert_eq!(
        turn.tool_call("echo", "{\"text\":\"hi\"}"),
        vec![SinkAction::Text(line.to_string())]
    );
    assert_eq!(turn.response(), line);
}

#[test]
fn agent_builder_defaults() {
    let builder = SessionBuilder::new().agent("model");
    let session = builder.build().into_inner();
    assert_eq!(session.agent(), &"model");
    assert_eq!(session.multi_turn_depth(), 1);
    assert!(!session.show_usage());
    assert_eq!(session.usage(), Some(Usage::new()));
}

#[test]
fn agent_builder_settings() {
    let session =
        SessionBuilder::default().agent(7u8).multi_turn_depth(4).show_usage().build().into_inner();
    assert_eq!(session.agent(), &7);
    assert_eq!(session.multi_turn_depth(), 4);
    assert!(session.show_usage());
}

#[test]
fn chat_builder_keeps_the_model() {
    let session = SessionBuilder::new().chat("bot").build().into_inner();
    assert_eq!(session.chat(), &"bot");
    assert!(!session.show_usage());
    assert_eq!(session.usage(), None);
}

#[test]
fn agent_step_remembers_usage_when_shown() {
    let used = Usage { input_tokens: 12, output_tokens: 30, total_tokens: 42 };
    let mut shown = SessionBuilder::new().agent(()).show_usage().build().into_inner();
    let mut turn = Turn::new();
    assert!(shown.step(&mut turn, StreamItem::Final(used)).is_empty());
    assert_eq!(shown.usage(), Some(used));

    let mut hidden = SessionBuilder::new().agent(()).build().into_inner();
    assert!(hidden.step(&mut turn, StreamItem::Final(used)).is_empty());
    assert_eq!(hidden.usage(), Some(Usage::new()));
}

#[test]
fn agent_step_takes_in_a_whole_answer() {
    let mut agent = SessionBuilder::new().agent(()).build().into_inner();
    let mut turn = Turn::new();
    let mut written = Vec::new();
    for item in [
        text("<think>"),
        text("pondering"),
        text("</think>"),
        text("The answer"),
        StreamItem::Reasoning(vec!["r1".to_string(), "r2".to_string()]),
        StreamItem::ToolCall { name: "sum".to_string(), arguments: "{}".to_string() },
        StreamItem::Failure("stream broke".to_string()),
        StreamItem::Other,
        text(" is 3"),
    ] {
        written.extend(agent.step(&mut turn, item));
    }
    assert_eq!(
        written,
        vec![
            SinkAction::ReasonStart,
            SinkAction::Text("pondering".to_string()),
            SinkAction::ReasonEnd,
            SinkAction::Text("The answer".to_string()),
            SinkAction::ReasonStart,
            SinkAction::Text("r1\nr2".to_string()),
            SinkAction::ReasonEnd,
            SinkAction::Text("Call function sum with arguments {}...".to_string()),
            SinkAction::Text(" is 3".to_string()),
        ]
    );
    assert_eq!(turn.response(), "The answerCall function sum with arguments {}... is 3");
}

#[test]
fn chat_builder_defaults_and_settings() {
    let empty = ChatSessionBuilder::new().build();
    assert_eq!(empty.agent(), &AgentNotSet);
    assert_eq!(empty.multi_turn_depth(), 0);
    assert!(!empty.show_usage());

    let session = ChatSessionBuilder::default()
        .multi_turn_depth(2)
        .agent("agent")
        .show_usage()
        .multi_turn_depth(4)
        .build();
    assert_eq!(session.agent(), &"agent");
    assert_eq!(session.multi_turn_depth(), 4);
    assert!(session.show_usage());
}

#[test]
fn chat_step_writes_errors_and_learns_usage() {
    let session = ChatSessionBuilder::new().agent(()).show_usage().build();
    let mut turn = Turn::new();
    let mut usage = None;
    assert_eq!(
        session.step(&mut turn, &mut usage, StreamItem::Failure("boom".to_string())),
        vec![SinkAction::Failure("boom".to_string())]
    );
    assert_eq!(usage, None);
    let used = Usage { input_tokens: 1, output_tokens: 2, total_tokens: 3 };
    assert!(session.step(&mut turn, &mut usage, StreamItem::Final(used)).is_empty());
    assert_eq!(usage, Some(used));
    assert_eq!(
        session.step(&mut turn, &mut usage, text("ok")),
        vec![SinkAction::Text("ok".to_string())]
    );
    assert!(session.step(&mut turn, &mut usage, StreamItem::Other).is_empty());
    assert_eq!(turn.response(), "ok");
}

#[test]
fn chat_step_hides_usage_unless_asked() {
    let session = ChatSessionBuilder::new().agent(()).build();
    let mut turn = Turn::new();
    let mut usage = None;
    let used = Usage { input_tokens: 1, output_tokens: 2, total_tokens: 3 };
    assert!(session.step(&mut turn, &mut usage, StreamItem::Final(used)).is_empty());
    assert_eq!(usage, None);
}

#[test]
fn an_exchange_is_recorded_in_order() {
    let mut log = vec![Message::User("hi".to_string())];
    record_exchange(&mut log, "what is 1+2?".to_string(), "3".to_string());
    assert_eq!(
        log,
        vec![
            Message::User("hi".to_string()),
            Message::User("what is 1+2?".to_string()),
            Message::Assistant("3".to_string()),
        ]
    );
}
