use juno::chat::{ChatAction, ChatEngine, TurnStage, DEFAULT_SYSTEM_PROMPT};
use juno::json::JsonValue;
use juno::tools::{make_schema, ToolCall};

fn is_uuid_v4(id: &str) -> bool {
    let b: Vec<char> = id.chars().collect();
    b.len() == 36 && b[8] == '-' && b[13] == '-' && b[18] == '-' && b[23] == '-' && b[14] == '4'
}

fn is_rfc3339_with_offset(t: &str) -> bool {
    let b: Vec<char> = t.chars().collect();
    let n = b.len();
    n >= 25 && (b[n - 6] == '+' || b[n - 6] == '-') && b[n - 3] == ':'
}

#[test]
fn new_engine_is_empty() {
    let e = ChatEngine::new();
    assert!(e.history.is_empty());
    assert_eq!(e.system_prompt, DEFAULT_SYSTEM_PROMPT);
    assert!(ChatEngine::default_system_prompt().starts_with("You are Juno, a helpful AI agent"));
    assert!(ChatEngine::default_system_prompt().ends_with("Keep responses clear and concise."));
    assert!(ChatEngine::default_system_prompt().contains("Ollama. You have access"));
}

#[test]
fn turn_without_tools() {
    let mut e = ChatEngine::new();
    let (mut turn, action) = e.begin_turn("hello", "", vec![]);
    match action {
        ChatAction::AskModel { tools } => assert!(tools.is_none()),
        other => panic!("{:?}", other),
    }
    assert_eq!(turn.stage(), TurnStage::AwaitingReply);
    let msgs = turn.messages();
    assert_eq!(msgs.len(), 2);
    assert_eq!(msgs[0].role, "system");
    assert_eq!(msgs[0].content, DEFAULT_SYSTEM_PROMPT);
    assert_eq!(msgs[1].role, "user");
    assert_eq!(msgs[1].content, "hello");
    assert_eq!(e.history.len(), 1);
    assert!(is_uuid_v4(&e.history[0].id));
    assert!(is_rfc3339_with_offset(&e.history[0].timestamp));
    let call = ToolCall { name: "shell".to_string(), arguments: JsonValue::Null };
    let answer = e.model_replied(&mut turn, "hi there".to_string(), Some(call));
    match answer {
        ChatAction::Answer(a) => assert_eq!(a, "hi there"),
        other => panic!("{:?}", other),
    }
    assert_eq!(turn.stage(), TurnStage::Finished);
    assert_eq!(e.history.len(), 2);
    assert_eq!(e.history[1].role, "assistant");
    assert_eq!(e.history[1].content, "hi there");
    assert!(e.history[1].id != e.history[0].id);
}

#[test]
fn turn_with_tool_call() {
    let mut e = ChatEngine::new();
    let schemas = vec![make_schema("shell", "Shell command", &[("command", "string", "Command", true)])];
    let (mut turn, action) = e.begin_turn("list files", "## ctx", schemas);
    match action {
        ChatAction::AskModel { tools } => assert_eq!(tools.map(|t| t.len()), Some(1)),
        other => panic!("{:?}", other),
    }
    assert_eq!(
        turn.messages()[0].content,
        format!("{}\n\n## Workspace Context\n\n## ctx", DEFAULT_SYSTEM_PROMPT)
    );
    let args = JsonValue::Object(vec![("command".to_string(), JsonValue::String("ls".to_string()))]);
    let call = ToolCall { name: "shell".to_string(), arguments: args };
    match e.model_replied(&mut turn, "{\"name\":\"shell\"}".to_string(), Some(call)) {
        ChatAction::RunTool { name, arguments } => {
            assert_eq!(name, "shell");
            assert_eq!(arguments.member_str("command"), Some("ls".to_string()));
        }
        other => panic!("{:?}", other),
    }
    assert_eq!(turn.stage(), TurnStage::AwaitingToolOutput);
    assert_eq!(e.history.len(), 1);
    match e.tool_finished(&mut turn, "a.txt".to_string()) {
        ChatAction::AskModel { tools } => assert!(tools.is_none()),
        other => panic!("{:?}", other),
    }
    assert_eq!(turn.messages().len(), 3);
    assert_eq!(turn.messages()[2].role, "tool");
    assert_eq!(turn.messages()[2].content, "a.txt");
    assert_eq!(e.history.len(), 2);
    assert_eq!(e.history[1].role, "tool");
    assert_eq!(e.history[1].tool_calls.as_ref().map(|c| c.len()), Some(1));
    match e.model_replied(&mut turn, "There is a.txt".to_string(), None) {
        ChatAction::Answer(a) => assert_eq!(a, "There is a.txt"),
        other => panic!("{:?}", other),
    }
    assert_eq!(e.history.len(), 3);
    assert_eq!(e.history[2].role, "assistant");

    // The next turn sends the whole history, tool calls included.
    let (turn2, _) = e.begin_turn("thanks", "", vec![]);
    let m = turn2.messages();
    assert_eq!(m.len(), 5);
    assert_eq!(m[2].role, "tool");
    let calls = m[2].tool_calls.as_ref().unwrap();
    assert_eq!(calls[0].get("name").and_then(|v| v.as_str()), Some("shell"));
    assert_eq!(m[4].content, "thanks");
}

#[test]
fn empty_tool_name_is_an_answer() {
    let mut e = ChatEngine::new();
    let schemas = vec![make_schema("shell", "Shell command", &[])];
    let (mut turn, _) = e.begin_turn("q", "", schemas);
    let call = ToolCall { name: String::new(), arguments: JsonValue::Null };
    match e.model_replied(&mut turn, "{\"name\":\"\"}".to_string(), Some(call)) {
        ChatAction::Answer(a) => assert_eq!(a, "{\"name\":\"\"}"),
        other => panic!("{:?}", other),
    }
    e.clear();
    assert!(e.history.is_empty());
    assert_eq!(e.system_prompt, DEFAULT_SYSTEM_PROMPT);
}
