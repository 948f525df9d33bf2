use juno::json::{JsonNumber, JsonValue};
use juno::tool_reports::{
    click_report, env_report, list_directory_report, read_file_report, screenshot_report, search_report,
    shell_report, text_matches, type_report, write_file_report, DirEntryInfo, EntryKind, SearchHits,
};
use juno::tools::{make_schema, ToolAction, ToolCall, ToolKind, ToolRegistry};

fn obj(members: Vec<(&str, JsonValue)>) -> JsonValue {
    JsonValue::Object(members.into_iter().map(|(k, v)| (k.to_string(), v)).collect())
}

fn s(t: &str) -> JsonValue {
    JsonValue::String(t.to_string())
}

fn member<'a>(v: &'a JsonValue, key: &str) -> &'a JsonValue {
    v.get(key).unwrap()
}

#[test]
fn schema_has_function_shape() {
    let schema = make_schema(
        "search_files",
        "Search files",
        &[("query", "string", "Search text", true), ("path", "string", "Directory", false)],
    );
    assert_eq!(member(&schema, "type").as_str(), Some("function"));
    let f = member(&schema, "function");
    assert_eq!(member(f, "name").as_str(), Some("search_files"));
    assert_eq!(member(f, "description").as_str(), Some("Search files"));
    let p = member(f, "parameters");
    assert_eq!(member(p, "type").as_str(), Some("object"));
    let props = member(p, "properties");
    assert_eq!(member(member(props, "query"), "type").as_str(), Some("string"));
    assert_eq!(member(member(props, "path"), "description").as_str(), Some("Directory"));
    match member(p, "required") {
        JsonValue::Array(items) => {
            assert_eq!(items.len(), 1);
            assert_eq!(items[0].as_str(), Some("query"));
        }
        _ => panic!("required is not an array"),
    }
}

#[test]
fn schema_later_parameter_replaces_earlier() {
    let schema = make_schema("t", "d", &[("a", "string", "first", true), ("a", "integer", "second", true)]);
    let props = member(member(member(&schema, "function"), "parameters"), "properties");
    match props {
        JsonValue::Object(m) => assert_eq!(m.len(), 1),
        _ => panic!("properties is not an object"),
    }
    assert_eq!(member(member(props, "a"), "type").as_str(), Some("integer"));
    match member(member(member(&schema, "function"), "parameters"), "required") {
        JsonValue::Array(items) => assert_eq!(items.len(), 2),
        _ => panic!(),
    }
}

#[test]
fn registry_offers_enabled_available_tools() {
    let reg = ToolRegistry::new(false);
    let status = reg.status();
    assert_eq!(status.len(), 9);
    let names: Vec<&str> = status.iter().map(|t| t.name.as_str()).collect();
    assert_eq!(
        names,
        vec![
            "read_file", "write_file", "list_directory", "search_files", "shell_command", "get_env",
            "computer_screenshot", "computer_click", "computer_type"
        ]
    );
    assert!(!status[6].available);
    assert!(!status[5].enabled);
    assert_eq!(reg.enabled_schemas().len(), 5);
}

#[test]
fn toggling_unavailable_tool_offers_nothing_new() {
    let mut reg = ToolRegistry::new(false);
    reg.set_enabled("computer_click", true);
    assert_eq!(reg.enabled_schemas().len(), 5);
    let mut reg_w = ToolRegistry::new(true);
    reg_w.set_enabled("computer_click", true);
    assert_eq!(reg_w.enabled_schemas().len(), 6);
    reg_w.set_enabled("shell_command", false);
    assert_eq!(reg_w.enabled_schemas().len(), 5);
    reg_w.set_enabled("no_such_tool", true);
    assert_eq!(reg_w.status().len(), 9);
}

fn reply_of(a: ToolAction) -> String {
    match a {
        ToolAction::Reply(s) => s,
        other => panic!("expected a reply, got {:?}", other),
    }
}

#[test]
fn execute_unknown_and_disabled() {
    let mut reg = ToolRegistry::new(false);
    assert_eq!(reply_of(reg.execute("nope", &JsonValue::Null)), "Unknown tool: nope");
    assert_eq!(reply_of(reg.execute("get_env", &JsonValue::Null)), "Tool 'get_env' is disabled");
    reg.set_enabled("get_env", true);
    match reg.execute("get_env", &obj(vec![("name", s("HOME"))])) {
        ToolAction::GetEnv { name } => assert_eq!(name, "HOME"),
        other => panic!("{:?}", other),
    }
    reg.set_enabled("read_file", false);
    assert_eq!(reply_of(reg.execute("read_file", &obj(vec![("path", s("a"))]))), "Tool 'read_file' is disabled");
    assert_eq!(reply_of(reg.execute("shell", &JsonValue::Null)), "Unknown tool: shell");
}

#[test]
fn status_after_toggle_lists_each_tool_once() {
    let mut reg = ToolRegistry::new(true);
    reg.set_enabled("shell_command", false);
    reg.set_enabled("get_env", true);
    let status = reg.status();
    assert_eq!(status.len(), 9);
    for i in 0..status.len() {
        for j in (i + 1)..status.len() {
            assert_ne!(status[i].name, status[j].name);
        }
    }
    let shell: Vec<_> = status.iter().filter(|t| t.name == "shell_command").collect();
    assert_eq!(shell.len(), 1);
    assert!(!shell[0].enabled);
    assert_eq!(shell[0].display_name, "Shell Command");
    let env: Vec<_> = status.iter().filter(|t| t.name == "get_env").collect();
    assert_eq!(env.len(), 1);
    assert!(env[0].enabled);
    assert!(status.iter().filter(|t| t.name != "shell_command" && t.name != "get_env").all(|t| {
        t.enabled == !t.name.starts_with("computer_")
    }));
}

#[test]
fn execute_reads_arguments() {
    let reg = ToolRegistry::new(false);
    assert_eq!(reply_of(reg.execute("read_file", &JsonValue::Null)), "Error: no path provided");
    assert_eq!(reply_of(reg.execute("read_file", &obj(vec![("path", s(""))]))), "Error: no path provided");
    match reg.execute("read_file", &obj(vec![("path", s("/tmp/x"))])) {
        ToolAction::ReadFile { path } => assert_eq!(path, "/tmp/x"),
        other => panic!("{:?}", other),
    }
    match reg.execute("write_file", &obj(vec![("path", s("f.txt"))])) {
        ToolAction::WriteFile { path, content } => {
            assert_eq!(path, "f.txt");
            assert_eq!(content, "");
        }
        other => panic!("{:?}", other),
    }
    match reg.execute("list_directory", &obj(vec![])) {
        ToolAction::ListDirectory { path } => assert_eq!(path, "."),
        other => panic!("{:?}", other),
    }
    match reg.execute("search_files", &obj(vec![("query", s("fn"))])) {
        ToolAction::SearchFiles { query, path } => {
            assert_eq!(query, "fn");
            assert_eq!(path, ".");
        }
        other => panic!("{:?}", other),
    }
    assert_eq!(reply_of(reg.execute("search_files", &obj(vec![]))), "Error: no query provided");
    assert_eq!(reply_of(reg.execute("shell_command", &obj(vec![("command", JsonValue::Bool(true))]))), "Error: no command provided");
    match reg.execute("shell_command", &obj(vec![("command", s("ls"))])) {
        ToolAction::Shell { command } => assert_eq!(command, "ls"),
        other => panic!("{:?}", other),
    }
}

#[test]
fn computer_tools_off_windows_answer_at_once() {
    let mut reg = ToolRegistry::new(false);
    reg.set_enabled("computer_click", true);
    reg.set_enabled("computer_type", true);
    reg.set_enabled("computer_screenshot", true);
    let args = obj(vec![
        ("x", JsonValue::Number(JsonNumber::PosInt(10))),
        ("y", JsonValue::Number(JsonNumber::NegInt(-5))),
    ]);
    assert_eq!(
        reply_of(reg.execute("computer_click", &args)),
        "Computer use tools only available on Windows (requested click at 10, -5)"
    );
    assert_eq!(
        reply_of(reg.execute("computer_type", &obj(vec![("text", s("hi"))]))),
        "Computer use tools only available on Windows (would type: hi)"
    );
    assert_eq!(reply_of(reg.execute("computer_type", &obj(vec![]))), "Error: no text provided");
    assert_eq!(
        reply_of(reg.execute("computer_screenshot", &JsonValue::Null)),
        "Screenshot tool is only available on Windows"
    );
}

#[test]
fn click_coordinates_wrap_to_32_bits() {
    let mut reg = ToolRegistry::new(true);
    reg.set_enabled("computer_click", true);
    let args = obj(vec![
        ("x", JsonValue::Number(JsonNumber::PosInt(4294967297))),
        ("y", JsonValue::Number(JsonNumber::Float(0))),
        ("button", s("right")),
    ]);
    match reg.execute("computer_click", &args) {
        ToolAction::Click { x, y, button } => {
            assert_eq!(x, 1);
            assert_eq!(y, 0);
            assert_eq!(button, "right");
        }
        other => panic!("{:?}", other),
    }
    match reg.execute("computer_click", &JsonValue::Null) {
        ToolAction::Click { x, y, button } => {
            assert_eq!((x, y), (0, 0));
            assert_eq!(button, "left");
        }
        other => panic!("{:?}", other),
    }
}

#[test]
fn tool_call_json_has_name_and_arguments() {
    let call = ToolCall { name: "shell".to_string(), arguments: obj(vec![("command", s("ls"))]) };
    let j = call.to_json();
    assert_eq!(member(&j, "name").as_str(), Some("shell"));
    assert_eq!(member(member(&j, "arguments"), "command").as_str(), Some("ls"));
    assert_eq!(ToolKind::Shell, ToolKind::Shell);
}

#[test]
fn read_and_write_reports() {
    assert_eq!(read_file_report("a.txt", &Ok("hi".to_string())), "Contents of a.txt:\n```\nhi\n```");
    assert_eq!(read_file_report("a.txt", &Err("nope".to_string())), "Error reading a.txt: nope");
    assert_eq!(write_file_report("b", "héllo", &Ok(())), "Wrote 6 bytes to b");
    assert_eq!(write_file_report("b", "", &Err("denied".to_string())), "Error writing b: denied");
}

#[test]
fn listing_report() {
    let entries = vec![
        DirEntryInfo { name: "src".to_string(), kind: EntryKind::Dir },
        DirEntryInfo { name: "a.rs".to_string(), kind: EntryKind::File },
        DirEntryInfo { name: "x".to_string(), kind: EntryKind::Unknown },
    ];
    assert_eq!(
        list_directory_report(".", &Some(entries)),
        "Directory listing for .:\n[DIR] src\n[FILE] a.rs\n[?] x"
    );
    assert_eq!(list_directory_report("/q", &Some(vec![])), "Directory listing for /q:");
    assert_eq!(list_directory_report("/q", &None), "Error: could not list directory /q");
}

#[test]
fn search_hits_stop_at_ten() {
    assert!(text_matches("Hello World", "WORLD"));
    assert!(!text_matches("Hello", "bye"));
    assert!(text_matches("anything", ""));
    let mut hits = SearchHits::new();
    let mut full = false;
    let mut n = 0;
    while !full {
        full = hits.offer(format!("f{}", n), "needle here", "Needle");
        n += 1;
    }
    assert_eq!(n, 10);
    assert!(hits.is_full());
    assert_eq!(hits.paths().len(), 10);
    let mut few = SearchHits::new();
    assert!(!few.offer("p".to_string(), "nothing", "needle"));
    assert_eq!(few.paths().len(), 0);
}

#[test]
fn search_and_shell_reports() {
    assert_eq!(search_report("q", ".", &vec![]), "No files found matching 'q' in .");
    assert_eq!(
        search_report("q", ".", &vec!["a".to_string(), "b".to_string()]),
        "Found 2 matches:\na\nb"
    );
    assert_eq!(shell_report(&Ok(("out".to_string(), String::new()))), "out");
    assert_eq!(shell_report(&Ok(("out".to_string(), "err".to_string()))), "stdout:\nout\nstderr:\nerr");
    assert_eq!(shell_report(&Err("boom".to_string())), "Error executing command: boom");
}

#[test]
fn computer_and_env_reports() {
    assert_eq!(env_report(Some("v".to_string())), "v");
    assert_eq!(env_report(None), "(not set)");
    assert_eq!(screenshot_report(&Ok("C:\\a.bmp".to_string())), "Screenshot saved to: C:\\a.bmp");
    assert_eq!(screenshot_report(&Err("x".to_string())), "Screenshot failed: x");
    assert_eq!(click_report("left", 3, -4, &Ok(())), "Clicked left button at (3, -4)");
    assert_eq!(click_report("left", 3, -4, &Err("e".to_string())), "Click failed: e");
    assert_eq!(type_report("abc", &Ok(())), "Typed: abc");
    assert_eq!(type_report("abc", &Err("e".to_string())), "Type failed: e");
}

#[test]
fn shell_invocation_per_platform() {
    let (p, a) = juno::tool_reports::shell_invocation(false, "ls -l");
    assert_eq!(p, "sh");
    assert_eq!(a, vec!["-c".to_string(), "ls -l".to_string()]);
    let (p, a) = juno::tool_reports::shell_invocation(true, "dir");
    assert_eq!(p, "cmd");
    assert_eq!(a, vec!["/C".to_string(), "dir".to_string()]);
}
