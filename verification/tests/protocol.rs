use serde_json::{Number, Value};
use sudoserver::json::{Json, JsonMember, JsonScalar};
use sudoserver::mcp::{
    call_tool, finish_call, handle, string_arg, tool_definitions, tool_json, Answer,
    JsonRpcRequest, ToolCall, ToolResult,
};
use sudoserver::server::{ApiError, EnterResult};
use sudoserver::shell::ExecutionResult;

fn value(json: &Json) -> Value {
    match json {
        Json::Null => Value::Null,
        Json::Bool(b) => Value::Bool(*b),
        Json::Unsigned(n) => Value::from(*n),
        Json::Negative(n) => Value::from(*n),
        Json::Fraction(text) => Value::Number(text.parse::<Number>().unwrap()),
        Json::Text(text) => Value::from(text.as_str()),
        Json::List(items) => Value::Array(items.iter().map(value).collect()),
        Json::Object(members) => Value::Object(
            members
                .iter()
                .map(|member| (member.name.clone(), value(&member.value)))
                .collect::<serde_json::Map<String, Value>>(),
        ),
    }
}

fn parsed(text: &str) -> Value {
    serde_json::from_str(text).unwrap()
}

fn request(id: Option<Json>, method: &str, params: Json) -> JsonRpcRequest {
    JsonRpcRequest {
        jsonrpc: Some("2.0".to_owned()),
        id,
        method: method.to_owned(),
        params,
    }
}

fn reply(id: Json, method: &str, params: Json) -> Value {
    match handle(request(Some(id), method, params)) {
        Answer::Reply(json) => value(&json),
        Answer::Nothing => panic!("no reply"),
        Answer::Call { .. } => panic!("a tool is called"),
    }
}

fn call(name: &str, arguments: Json) -> Json {
    Json::empty_object()
        .with("name", Json::text(name))
        .with("arguments", arguments)
}

fn refusal(params: Json) -> String {
    let error = call_tool(&params).err().unwrap();
    assert_eq!(error.status(), 400);
    error.to_string()
}

#[test]
fn exposes_all_required_tools_and_safety_language() {
    let definitions = value(&tool_definitions());
    let text = definitions.to_string();
    for tool in [
        "sudo_enter",
        "sudo_run",
        "sudo_destroy_session",
        "sudo_revoke_token",
    ] {
        assert!(text.contains(tool));
    }
    assert!(text.contains("Never ask for the Master Password"));
    assert!(text.contains("reused"));
}

#[test]
fn tools_are_defined_exactly() {
    let expected = r#"[
        {
            "name": "sudo_enter",
            "title": "Enter privileged session",
            "description": "Enter an unrestricted administrator/root PowerShell session using a JWT personally issued by the user. Never ask for the Master Password or dynamic Master Password. If this token already owns a live session, the existing strong-password handle is returned and reused; otherwise a new session is created.",
            "inputSchema": {
                "type": "object",
                "properties": { "token": { "type": "string", "description": "JWT supplied by the user via the agent's Ask/user-input tool" } },
                "required": ["token"], "additionalProperties": false
            }
        },
        {
            "name": "sudo_run",
            "title": "Run privileged PowerShell",
            "description": "Run the command verbatim in the persistent privileged PowerShell session. PowerShell itself parses pipelines, wildcards, multiline scripts and environment variables. State, current directory and environment persist between calls. Output streams are merged in PowerShell order.",
            "inputSchema": {
                "type": "object",
                "properties": {
                    "handle": { "type": "string", "description": "Secret session handle returned by sudo_enter" },
                    "command": { "type": "string", "description": "PowerShell source code, passed verbatim to PowerShell's parser" },
                    "timeout_seconds": { "type": "integer", "minimum": 1 }
                },
                "required": ["handle", "command"], "additionalProperties": false
            }
        },
        {
            "name": "sudo_destroy_session",
            "title": "Destroy privileged session",
            "description": "Immediately terminate a privileged PowerShell session and invalidate its handle.",
            "inputSchema": {
                "type": "object", "properties": { "handle": { "type": "string" } },
                "required": ["handle"], "additionalProperties": false
            }
        },
        {
            "name": "sudo_revoke_token",
            "title": "Revoke privilege token",
            "description": "Revoke a JWT and immediately terminate every session that it owns.",
            "inputSchema": {
                "type": "object", "properties": { "token": { "type": "string" } },
                "required": ["token"], "additionalProperties": false
            }
        }
    ]"#;
    assert_eq!(value(&tool_definitions()), parsed(expected));
    assert_eq!(
        reply(Json::Unsigned(2), "tools/list", Json::Null),
        parsed(&format!(
            "{{\"jsonrpc\":\"2.0\",\"id\":2,\"result\":{{\"tools\":{expected}}}}}"
        ))
    );
}

#[test]
fn an_agent_is_greeted() {
    let expected = r#"{
        "jsonrpc": "2.0",
        "id": "one",
        "result": {
            "protocolVersion": "2025-06-18",
            "capabilities": { "tools": { "listChanged": false } },
            "serverInfo": { "name": "SudoServer", "version": "0.1.0" },
            "instructions": "Every tool can make unrestricted administrator/root changes. Never ask for a Master Password or TOTP. Ask the user for a JWT and ensure they understand the authority they are granting."
        }
    }"#;
    assert_eq!(reply(Json::text("one"), "initialize", Json::Null), parsed(expected));
}

#[test]
fn a_ping_is_answered_under_its_id() {
    for (id, text) in [
        (Json::Unsigned(7), "7"),
        (Json::Negative(-7), "-7"),
        (Json::Fraction("1.5".to_owned()), "1.5"),
        (Json::text("a"), "\"a\""),
        (Json::empty_list().and(Json::Bool(true)), "[true]"),
    ] {
        let expected = format!("{{\"jsonrpc\":\"2.0\",\"id\":{text},\"result\":{{}}}}");
        assert_eq!(reply(id, "ping", Json::empty_object()), parsed(&expected));
    }
}

#[test]
fn notifications_are_not_answered() {
    for method in ["notifications/initialized", "ping", "tools/call", "no method"] {
        let answer = handle(request(None, method, Json::Null));
        assert!(matches!(answer, Answer::Nothing));
    }
}

#[test]
fn unknown_methods_are_refused() {
    let expected = r#"{
        "jsonrpc": "2.0", "id": 1,
        "error": { "code": -32602, "message": "unknown MCP method: resources/list" }
    }"#;
    assert_eq!(reply(Json::Unsigned(1), "resources/list", Json::Null), parsed(expected));
}

#[test]
fn tool_calls_are_understood() {
    let token = Json::empty_object().with("token", Json::text("jwt"));
    match call_tool(&call("sudo_enter", token)) {
        Ok(ToolCall::Enter { token }) => assert_eq!(token, "jwt"),
        _ => panic!("another call"),
    }
    let run = Json::empty_object()
        .with("timeout_seconds", Json::Unsigned(30))
        .with("command", Json::text("Get-Date"))
        .with("handle", Json::text("h"));
    match call_tool(&call("sudo_run", run)) {
        Ok(ToolCall::Run { handle, command, timeout_seconds }) => {
            assert_eq!(handle, "h");
            assert_eq!(command, "Get-Date");
            assert_eq!(timeout_seconds, Some(30));
        }
        _ => panic!("another call"),
    }
    let session = Json::empty_object().with("handle", Json::text("h"));
    match call_tool(&call("sudo_destroy_session", session)) {
        Ok(ToolCall::DestroySession { handle }) => assert_eq!(handle, "h"),
        _ => panic!("another call"),
    }
    let token = Json::empty_object().with("token", Json::text("jwt"));
    match call_tool(&call("sudo_revoke_token", token)) {
        Ok(ToolCall::RevokeToken { token }) => assert_eq!(token, "jwt"),
        _ => panic!("another call"),
    }
}

#[test]
fn timeouts_that_are_no_unsigned_number_are_ignored() {
    for timeout in [
        Json::Null,
        Json::Negative(-1),
        Json::Fraction("1.5".to_owned()),
        Json::text("30"),
    ] {
        let run = Json::empty_object()
            .with("handle", Json::text("h"))
            .with("command", Json::text("c"))
            .with("timeout_seconds", timeout);
        match call_tool(&call("sudo_run", run)) {
            Ok(ToolCall::Run { timeout_seconds, .. }) => assert_eq!(timeout_seconds, None),
            _ => panic!("another call"),
        }
    }
}

#[test]
fn tool_calls_that_make_no_sense_are_refused() {
    assert_eq!(refusal(Json::Null), "missing tool name");
    assert_eq!(refusal(Json::empty_object()), "missing tool name");
    let number = Json::empty_object().with("name", Json::Unsigned(1));
    assert_eq!(refusal(number), "missing tool name");
    assert_eq!(
        refusal(call("sudo_reboot", Json::empty_object())),
        "unknown tool: sudo_reboot"
    );
    let bare = Json::empty_object().with("name", Json::text("sudo_enter"));
    assert_eq!(refusal(bare), "missing string argument: token");
    let wrong = Json::empty_object().with("token", Json::Unsigned(5));
    assert_eq!(refusal(call("sudo_revoke_token", wrong)), "missing string argument: token");
    let no_command = Json::empty_object().with("handle", Json::text("h"));
    assert_eq!(refusal(call("sudo_run", no_command)), "missing string argument: command");
    let no_handle = Json::empty_object().with("command", Json::text("c"));
    assert_eq!(refusal(call("sudo_run", no_handle)), "missing string argument: handle");
    assert_eq!(
        refusal(call("sudo_destroy_session", Json::text("h"))),
        "missing string argument: handle"
    );
    let expected = r#"{
        "jsonrpc": "2.0", "id": 1,
        "error": { "code": -32602, "message": "missing tool name" }
    }"#;
    assert_eq!(reply(Json::Unsigned(1), "tools/call", Json::Null), parsed(expected));
}

#[test]
fn arguments_are_found_by_name() {
    let arguments = Json::empty_object()
        .with("a", Json::text("first"))
        .with("b", Json::text("second"));
    assert_eq!(string_arg(&arguments, "b").unwrap(), "second");
    assert_eq!(
        string_arg(&arguments, "c").err().unwrap().to_string(),
        "missing string argument: c"
    );
}

#[test]
fn a_tool_call_waits_for_the_tool() {
    let token = Json::empty_object().with("token", Json::text("jwt"));
    let params = call("sudo_enter", token);
    match handle(request(Some(Json::Unsigned(9)), "tools/call", params)) {
        Answer::Call { id, call: ToolCall::Enter { token } } => {
            assert!(matches!(id, Json::Unsigned(9)));
            assert_eq!(token, "jwt");
        }
        _ => panic!("another answer"),
    }
}

#[test]
fn tool_results_are_given_as_text_and_as_they_are() {
    let entered = ToolResult::Entered(EnterResult {
        handle: "h".to_owned(),
        reused: true,
        message: "m".to_owned(),
    });
    let expected = r#"{
        "jsonrpc": "2.0", "id": 1,
        "result": {
            "content": [{ "type": "text", "text": "{\n  \"handle\": \"h\",\n  \"message\": \"m\",\n  \"reused\": true\n}" }],
            "structuredContent": { "handle": "h", "reused": true, "message": "m" },
            "isError": false
        }
    }"#;
    assert_eq!(value(&finish_call(Json::Unsigned(1), Ok(entered))), parsed(expected));
    let ran = ToolResult::Ran(ExecutionResult {
        output: "out".to_owned(),
        exit_code: -1,
        success: false,
        truncated: true,
    });
    let given = value(&finish_call(Json::Unsigned(1), Ok(ran)));
    let structured = r#"{ "output": "out", "exit_code": -1, "success": false, "truncated": true }"#;
    assert_eq!(given["result"]["structuredContent"], parsed(structured));
    let text = given["result"]["content"][0]["text"].as_str().unwrap();
    assert_eq!(parsed(text), parsed(structured));
    for (result, text) in [
        (ToolResult::Destroyed, "{ \"destroyed\": true }"),
        (ToolResult::Revoked, "{ \"revoked\": true }"),
    ] {
        let given = value(&finish_call(Json::Unsigned(1), Ok(result)));
        assert_eq!(given["result"]["structuredContent"], parsed(text));
        assert_eq!(given["result"]["isError"], Value::Bool(false));
    }
}

#[test]
fn failed_tools_are_reported() {
    let refused = ApiError::bad_request("why not".to_owned());
    let expected = r#"{
        "jsonrpc": "2.0", "id": null,
        "error": { "code": -32602, "message": "why not" }
    }"#;
    assert_eq!(value(&finish_call(Json::Null, Err(refused))), parsed(expected));
}

#[test]
fn plain_members_become_json() {
    let members = vec![
        JsonMember {
            name: "n".to_owned(),
            value: JsonScalar::Integer(5),
        },
        JsonMember {
            name: "z".to_owned(),
            value: JsonScalar::Null,
        },
    ];
    let given = value(&tool_json(&members));
    assert_eq!(given["structuredContent"], parsed("{ \"n\": 5, \"z\": null }"));
    assert_eq!(given["content"][0]["text"], Value::from("{\n  \"n\": 5,\n  \"z\": null\n}"));
}
