//! End-to-end script runs: a real script engine wired to the library's
//! verified planning, conversion and reply logic, with an in-test tool
//! transport standing in for spawned server processes.

use rhaicp::bridge::{call_tool_value, list_tools_value, RhaiMessage, SlotRead};
use rhaicp::hostloop::{
    extract_tool_result, finish_turn, plan_message, HostAction, Notification, ScriptRunOutcome,
    ToolCallStatus, ToolContent, ToolQueryPlan,
};
use rhaicp::prompt::extract_rhai_script;
use rhaicp::session::McpServerDesc;
use rhaicp::value::{dynamic_to_json, DynValue, StructuredValue};
use std::cell::RefCell;
use std::rc::Rc;

fn dyn_to_rhai(v: DynValue) -> rhai::Dynamic {
    match v {
        DynValue::Unit => rhai::Dynamic::UNIT,
        DynValue::Bool(b) => rhai::Dynamic::from(b),
        DynValue::Int(i) => rhai::Dynamic::from(i),
        DynValue::Float(bits) => rhai::Dynamic::from(f64::from_bits(bits)),
        DynValue::Str(s) => rhai::Dynamic::from(s),
        DynValue::Opaque(s) => rhai::Dynamic::from(s),
        DynValue::Arr(items) => {
            let arr: Vec<rhai::Dynamic> = items.into_iter().map(dyn_to_rhai).collect();
            rhai::Dynamic::from(arr)
        }
        DynValue::Obj(pairs) => {
            let mut map = rhai::Map::new();
            for (k, x) in pairs {
                map.insert(k.into(), dyn_to_rhai(x));
            }
            rhai::Dynamic::from(map)
        }
    }
}

fn rhai_to_dyn(v: &rhai::Dynamic) -> DynValue {
    if v.is_unit() {
        DynValue::Unit
    } else if v.is_bool() {
        DynValue::Bool(v.as_bool().unwrap())
    } else if v.is_int() {
        DynValue::Int(v.as_int().unwrap())
    } else if v.is_float() {
        DynValue::Float(v.as_float().unwrap().to_bits())
    } else if v.is_string() {
        DynValue::Str(v.clone().into_string().unwrap())
    } else if v.is_array() {
        let arr = v.clone().into_array().unwrap();
        DynValue::Arr(arr.iter().map(rhai_to_dyn).collect())
    } else if v.is_map() {
        let map: rhai::Map = v.clone().cast();
        DynValue::Obj(
            map.into_iter()
                .map(|(k, x)| (k.to_string(), rhai_to_dyn(&x)))
                .collect(),
        )
    } else {
        DynValue::Opaque(format!("{:?}", v))
    }
}

fn obj_get<'a>(v: &'a StructuredValue, key: &str) -> Option<&'a StructuredValue> {
    if let StructuredValue::Obj(pairs) = v {
        for (k, x) in pairs {
            if k == key {
                return Some(x);
            }
        }
    }
    None
}

fn obj_int(v: &StructuredValue, key: &str) -> i64 {
    match obj_get(v, key) {
        Some(StructuredValue::Int(i)) => *i,
        other => panic!("expected integer field {}, got {:?}", key, other.is_some()),
    }
}

fn obj_str(v: &StructuredValue, key: &str) -> String {
    match obj_get(v, key) {
        Some(StructuredValue::Str(s)) => s.clone(),
        _ => panic!("expected string field {}", key),
    }
}

/// The in-test stand-in for one tool-server process: which tools it
/// lists, and what one call returns, keyed by the spawned command.
fn fake_list(command: &str) -> Result<Vec<String>, String> {
    match command {
        "echo-server" => Ok(vec!["echo".to_string()]),
        "calc-server" => Ok(vec!["add".to_string(), "multiply".to_string()]),
        "users-server" => Ok(vec!["get_user".to_string()]),
        other => Err(format!("no such command: {}", other)),
    }
}

fn fake_call(
    command: &str,
    tool: &str,
    args: &StructuredValue,
) -> Result<(Option<StructuredValue>, Vec<ToolContent>), String> {
    match (command, tool) {
        ("echo-server", "echo") => {
            let message = obj_str(args, "message");
            Ok((None, vec![ToolContent::Text(format!("Echo: {}", message))]))
        }
        ("calc-server", "add") => {
            let sum = obj_int(args, "a") + obj_int(args, "b");
            Ok((None, vec![ToolContent::Text(sum.to_string())]))
        }
        ("calc-server", "multiply") => {
            let product = obj_int(args, "a") * obj_int(args, "b");
            Ok((None, vec![ToolContent::Text(product.to_string())]))
        }
        ("users-server", "get_user") => {
            let id = obj_int(args, "id");
            let user = StructuredValue::Obj(vec![
                (
                    "name".to_string(),
                    StructuredValue::Str(format!("User{}", id)),
                ),
                ("age".to_string(), StructuredValue::Int(20 + id)),
            ]);
            Ok((Some(user), vec![]))
        }
        _ => Err(format!("unknown tool: {}", tool)),
    }
}

fn stdio_server(name: &str, command: &str) -> McpServerDesc {
    McpServerDesc::Stdio {
        name: name.to_string(),
        command: command.to_string(),
        args: Vec::new(),
        env: Vec::new(),
    }
}

struct TurnResult {
    output: String,
    notes: Vec<Notification>,
    writes: Vec<(String, String)>,
}

/// Run one prompt as the host loop would: extract the script, run it
/// with the bridge primitives registered, service each message through
/// the library's planning and reply logic, and finish the turn.
fn run_prompt(servers: Vec<McpServerDesc>, prompt_text: &str) -> TurnResult {
    let script = extract_rhai_script(prompt_text);
    let servers = Rc::new(servers);
    let notes: Rc<RefCell<Vec<Notification>>> = Rc::new(RefCell::new(Vec::new()));
    let writes: Rc<RefCell<Vec<(String, String)>>> = Rc::new(RefCell::new(Vec::new()));

    let mut engine = rhai::Engine::new();

    let say_servers = servers.clone();
    let say_notes = notes.clone();
    engine.register_fn("say", move |text: &str| {
        let action = plan_message(&say_servers, RhaiMessage::Say(text.to_string()));
        if let HostAction::Emit(n) = action {
            say_notes.borrow_mut().push(n);
        }
    });

    let write_servers = servers.clone();
    let write_notes = notes.clone();
    let write_log = writes.clone();
    engine.register_fn("write_file", move |path: &str, content: &str| {
        let action = plan_message(
            &write_servers,
            RhaiMessage::WriteFile {
                path: path.to_string(),
                content: content.to_string(),
            },
        );
        if let HostAction::PerformWrite { path, content } = action {
            write_log.borrow_mut().push((path.clone(), content));
            write_notes
                .borrow_mut()
                .push(rhaicp::hostloop::write_file_update(path, Ok(())));
        }
    });

    let mut module = rhai::Module::new();

    let list_servers = servers.clone();
    rhai::FuncRegistration::new("list_tools")
        .in_global_namespace()
        .set_into_module(&mut module, move |server: &str| -> rhai::Dynamic {
            let action = plan_message(
                &list_servers,
                RhaiMessage::ListTools {
                    server: server.to_string(),
                },
            );
            let read = match action {
                HostAction::ListQuery { plan } => match plan {
                    ToolQueryPlan::Fail(m) => SlotRead::Reply(Err(m)),
                    ToolQueryPlan::QueryStdio { command, .. } => {
                        SlotRead::Reply(fake_list(&command))
                    }
                    ToolQueryPlan::QueryHttp { url } => SlotRead::Reply(fake_list(&url)),
                },
                _ => SlotRead::Closed,
            };
            dyn_to_rhai(list_tools_value(read))
        });

    let call_servers = servers.clone();
    rhai::FuncRegistration::new("call_tool")
        .in_global_namespace()
        .set_into_module(
            &mut module,
            move |server: &str, tool: &str, args: rhai::Dynamic| -> rhai::Dynamic {
                let json_args = dynamic_to_json(&rhai_to_dyn(&args));
                let action = plan_message(
                    &call_servers,
                    RhaiMessage::CallTool {
                        server: server.to_string(),
                        tool: tool.to_string(),
                        args: json_args,
                    },
                );
                let read = match action {
                    HostAction::CallQuery { plan, tool, args } => match plan {
                        ToolQueryPlan::Fail(m) => SlotRead::Reply(Err(m)),
                        ToolQueryPlan::QueryStdio { command, .. } => {
                            SlotRead::Reply(fake_call(&command, &tool, &args).and_then(
                                |(structured, content)| extract_tool_result(structured, &content),
                            ))
                        }
                        ToolQueryPlan::QueryHttp { url } => {
                            SlotRead::Reply(fake_call(&url, &tool, &args).and_then(
                                |(structured, content)| extract_tool_result(structured, &content),
                            ))
                        }
                    },
                    _ => SlotRead::Closed,
                };
                dyn_to_rhai(call_tool_value(read))
            },
        );

    engine.register_static_module("mcp", module.into());

    let outcome = match engine.run(script.as_str()) {
        Ok(()) => ScriptRunOutcome::Completed,
        Err(e) => ScriptRunOutcome::ScriptError(e.to_string()),
    };
    if let Some(n) = finish_turn(outcome) {
        notes.borrow_mut().push(n);
    }

    let mut output = String::new();
    for n in notes.borrow().iter() {
        if let Notification::MessageChunk { text } = n {
            output.push_str(text);
        }
    }
    TurnResult {
        output,
        notes: notes.take(),
        writes: writes.take(),
    }
}

#[test]
fn test_say_hello_world() {
    let r = run_prompt(vec![], r#"say("Hello, "); say("World!")"#);
    assert_eq!(r.output, "Hello, World!");
}

#[test]
fn test_say_multiline() {
    let r = run_prompt(
        vec![],
        "\n            say(\"Line 1\\n\");\n            say(\"Line 2\\n\");\n            say(\"Line 3\");\n            ",
    );
    assert_eq!(r.output, "Line 1\nLine 2\nLine 3");
}

#[test]
fn test_user_request_extraction() {
    let r = run_prompt(
        vec![],
        r#"Some preamble text <userRequest>say("Extracted!")</userRequest> some trailing text"#,
    );
    assert_eq!(r.output, "Extracted!");
}

#[test]
fn test_rhai_error_handling() {
    let r = run_prompt(vec![], r#"this is not valid rhai syntax {"#);
    assert_eq!(r.notes.len(), 1, "exactly one notification expected");
    assert!(r.output.starts_with("Rhai error: "), "got: {}", r.output);
    assert!(r.output.contains("Syntax error"), "got: {}", r.output);
}

#[test]
fn test_list_tools() {
    let r = run_prompt(
        vec![stdio_server("echo", "echo-server")],
        r#"
        let tools = mcp::list_tools("echo");
        for tool in tools {
            say(tool + "\n");
        }
        "#,
    );
    assert_eq!(r.output, "echo\n");
}

#[test]
fn test_call_tool() {
    let r = run_prompt(
        vec![stdio_server("echo", "echo-server")],
        r#"
        let result = mcp::call_tool("echo", "echo", #{ message: "Hello from Rhai!" });
        say(result);
        "#,
    );
    assert_eq!(r.output, "Echo: Hello from Rhai!");
}

#[test]
fn test_list_multiple_tools() {
    let r = run_prompt(
        vec![stdio_server("calc", "calc-server")],
        r#"
        let tools = mcp::list_tools("calc");
        say("Tools: " + tools.len().to_string());
        "#,
    );
    assert_eq!(r.output, "Tools: 2");
}

#[test]
fn test_call_add_tool() {
    let r = run_prompt(
        vec![stdio_server("calc", "calc-server")],
        r#"
        let result = mcp::call_tool("calc", "add", #{ a: 3, b: 5 });
        say(result.to_string());
        "#,
    );
    assert_eq!(r.output, "8");
}

#[test]
fn test_call_multiply_tool() {
    let r = run_prompt(
        vec![stdio_server("calc", "calc-server")],
        r#"
        let result = mcp::call_tool("calc", "multiply", #{ a: 7, b: 6 });
        say(result.to_string());
        "#,
    );
    assert_eq!(r.output, "42");
}

#[test]
fn test_chain_tool_calls() {
    let r = run_prompt(
        vec![stdio_server("calc", "calc-server")],
        r#"
        let sum = mcp::call_tool("calc", "add", #{ a: 3, b: 5 });

        let product = mcp::call_tool("calc", "multiply", #{ a: sum, b: 2 });
        say("Result: " + product.to_string());
        "#,
    );
    assert_eq!(r.output, "Result: 16");
}

#[test]
fn test_unknown_server_error() {
    let r = run_prompt(
        vec![stdio_server("echo", "echo-server")],
        r#"
        let tools = mcp::list_tools("nonexistent");
        say(tools);
        "#,
    );
    assert!(
        r.output.contains("ERROR"),
        "Expected error message, got: {}",
        r.output
    );
    assert_eq!(r.output, "ERROR: MCP server 'nonexistent' not found");
}

#[test]
fn test_structured_content_returns_object() {
    let r = run_prompt(
        vec![stdio_server("users", "users-server")],
        r#"
        let user = mcp::call_tool("users", "get_user", #{ id: 42 });
        say("Name: " + user.name + ", Age: " + user.age.to_string());
        "#,
    );
    assert_eq!(r.output, "Name: User42, Age: 62");
}

#[test]
fn test_unstructured_content_preserves_number_types() {
    let r = run_prompt(
        vec![stdio_server("calc", "calc-server")],
        r#"
        let sum = mcp::call_tool("calc", "add", #{ a: 100, b: 200 });
        let doubled = sum * 2;
        say("Sum doubled: " + doubled.to_string());
        "#,
    );
    assert_eq!(r.output, "Sum doubled: 600");
}

#[test]
fn test_unstructured_content_returns_string() {
    let r = run_prompt(
        vec![stdio_server("echo", "echo-server")],
        r#"
        let msg = mcp::call_tool("echo", "echo", #{ message: "test" });
        say("Got: " + msg);
        "#,
    );
    assert_eq!(r.output, "Got: Echo: test");
}

#[test]
fn write_file_test_say_hello_world() {
    let r = run_prompt(
        vec![],
        r#"write_file("target/test.rs", "fn main() {}")"#,
    );
    assert_eq!(r.writes.len(), 1);
    assert_eq!(r.writes[0].0, "target/test.rs");
    assert_eq!(r.writes[0].1, "fn main() {}");
    assert_eq!(r.notes.len(), 1);
    match &r.notes[0] {
        Notification::ToolCallUpdate {
            id,
            status,
            location,
            content,
        } => {
            assert_eq!(id, "write_file_id");
            assert_eq!(*status, ToolCallStatus::Completed);
            assert_eq!(location, "target/test.rs");
            assert_eq!(content, "Finished writing file.");
        }
        _ => panic!("expected a tool call update"),
    }
}
