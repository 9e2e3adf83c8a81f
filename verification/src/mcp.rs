//! The Model Context Protocol: requests in JSON-RPC, the tools that an agent can call, and
//! the replies.
use vstd::prelude::*;
use vstd::string::*;

use crate::json::{
    first_member, json_object_pretty, member_views, write_object_pretty, Json, JsonMember, JsonScalar, JsonView,
    ScalarView,
};
use crate::server::{
    bad_request_refusal, refused, ApiError, ApiErrorView, EnterResult,
};
use crate::shell::ExecutionResult;
use crate::text::same;

verus! {

/// The version of the protocol.
pub const PROTOCOL_VERSION: &'static str = "2025-06-18";

/// The version of the service.
pub const VERSION: &'static str = "0.1.0";

/// The code of every error reply: invalid parameters.
pub const INVALID_PARAMS: i64 = -32602;

/// What an agent is told when it connects.
pub const INSTRUCTIONS: &'static str =
    "Every tool can make unrestricted administrator/root changes. Never ask for a Master Password or TOTP. Ask the user for a JWT and ensure they understand the authority they are granting.";

/// A request. One without an id is a notification, which is not answered.
pub struct JsonRpcRequest {
    pub jsonrpc: Option<String>,
    pub id: Option<Json>,
    pub method: String,
    pub params: Json,
}

/// What a tool is asked to do.
pub enum ToolCall {
    Enter { token: String },
    Run { handle: String, command: String, timeout_seconds: Option<u64> },
    DestroySession { handle: String },
    RevokeToken { token: String },
}

/// What a [`ToolCall`] stands for.
pub enum ToolCallView {
    Enter { token: Seq<char> },
    Run { handle: Seq<char>, command: Seq<char>, timeout_seconds: Option<int> },
    DestroySession { handle: Seq<char> },
    RevokeToken { token: Seq<char> },
}

impl View for ToolCall {
    type V = ToolCallView;

    open spec fn view(&self) -> ToolCallView {
        match self {
            ToolCall::Enter { token } => ToolCallView::Enter { token: token@ },
            ToolCall::Run { handle, command, timeout_seconds } => ToolCallView::Run {
                handle: handle@,
                command: command@,
                timeout_seconds: match timeout_seconds {
                    Some(seconds) => Some(*seconds as int),
                    None => None,
                },
            },
            ToolCall::DestroySession { handle } => ToolCallView::DestroySession { handle: handle@ },
            ToolCall::RevokeToken { token } => ToolCallView::RevokeToken { token: token@ },
        }
    }
}

/// What came of a tool call.
pub enum ToolResult {
    Entered(EnterResult),
    Ran(ExecutionResult),
    Destroyed,
    Revoked,
}

/// The refusal of a call without a text argument that it needs.
pub open spec fn missing_argument(name: Seq<char>) -> ApiErrorView {
    bad_request_refusal("missing string argument: "@ + name)
}

/// The text argument called `name`.
pub fn string_arg<'a>(arguments: &'a Json, name: &str) -> (r: Result<&'a str, ApiError>)
    ensures
        match arguments@.get_text(name@) {
            Some(text) => r is Ok && r->Ok_0@ == text,
            None => refused(r, missing_argument(name@)),
        },
{
    match arguments.get_text(name) {
        Some(text) => Ok(text),
        None => Err(
            ApiError::bad_request("missing string argument: ".to_owned().concat(name)),
        ),
    }
}

/// The call that `arguments` make of the tool called `name`, or why they make none.
pub open spec fn tool_request(name: Seq<char>, arguments: JsonView) -> Result<
    ToolCallView,
    ApiErrorView,
> {
    if name == "sudo_enter"@ {
        match arguments.get_text("token"@) {
            Some(token) => Ok(ToolCallView::Enter { token }),
            None => Err(missing_argument("token"@)),
        }
    } else if name == "sudo_run"@ {
        match (arguments.get_text("handle"@), arguments.get_text("command"@)) {
            (Some(handle), Some(command)) => Ok(
                ToolCallView::Run {
                    handle,
                    command,
                    timeout_seconds: arguments.get_unsigned("timeout_seconds"@),
                },
            ),
            (None, _) => Err(missing_argument("handle"@)),
            (_, None) => Err(missing_argument("command"@)),
        }
    } else if name == "sudo_destroy_session"@ {
        match arguments.get_text("handle"@) {
            Some(handle) => Ok(ToolCallView::DestroySession { handle }),
            None => Err(missing_argument("handle"@)),
        }
    } else if name == "sudo_revoke_token"@ {
        match arguments.get_text("token"@) {
            Some(token) => Ok(ToolCallView::RevokeToken { token }),
            None => Err(missing_argument("token"@)),
        }
    } else {
        Err(bad_request_refusal("unknown tool: "@ + name))
    }
}

/// The tool call in the parameters of a request, or why there is none. Without arguments a
/// tool is called with none.
pub open spec fn requested_call(params: JsonView) -> Result<ToolCallView, ApiErrorView> {
    match params.get_text("name"@) {
        None => Err(bad_request_refusal("missing tool name"@)),
        Some(name) => tool_request(
            name,
            match params.get("arguments"@) {
                Some(arguments) => arguments,
                None => JsonView::empty_object(),
            },
        ),
    }
}

fn tool_arguments(name: &str, arguments: &Json) -> (r: Result<ToolCall, ApiError>)
    ensures
        match tool_request(name@, arguments@) {
            Ok(call) => r is Ok && r->Ok_0@ == call,
            Err(refusal) => refused(r, refusal),
        },
{
    if same(name, "sudo_enter") {
        match string_arg(arguments, "token") {
            Ok(token) => Ok(ToolCall::Enter { token: token.to_owned() }),
            Err(error) => Err(error),
        }
    } else if same(name, "sudo_run") {
        let handle = match string_arg(arguments, "handle") {
            Ok(handle) => handle.to_owned(),
            Err(error) => return Err(error),
        };
        let command = match string_arg(arguments, "command") {
            Ok(command) => command.to_owned(),
            Err(error) => return Err(error),
        };
        let timeout_seconds = arguments.get_unsigned("timeout_seconds");
        Ok(ToolCall::Run { handle, command, timeout_seconds })
    } else if same(name, "sudo_destroy_session") {
        match string_arg(arguments, "handle") {
            Ok(handle) => Ok(ToolCall::DestroySession { handle: handle.to_owned() }),
            Err(error) => Err(error),
        }
    } else if same(name, "sudo_revoke_token") {
        match string_arg(arguments, "token") {
            Ok(token) => Ok(ToolCall::RevokeToken { token: token.to_owned() }),
            Err(error) => Err(error),
        }
    } else {
        Err(ApiError::bad_request("unknown tool: ".to_owned().concat(name)))
    }
}

/// The tool call in the parameters of a request.
pub fn call_tool(params: &Json) -> (r: Result<ToolCall, ApiError>)
    ensures
        match requested_call(params@) {
            Ok(call) => r is Ok && r->Ok_0@ == call,
            Err(refusal) => refused(r, refusal),
        },
{
    let name = match params.get_text("name") {
        Some(name) => name,
        None => return Err(ApiError::bad_request("missing tool name".to_owned())),
    };
    match params.get("arguments") {
        Some(arguments) => tool_arguments(name, arguments),
        None => tool_arguments(name, &Json::empty_object()),
    }
}

/// A plain value as JSON.
pub open spec fn scalar_json(value: ScalarView) -> JsonView {
    match value {
        ScalarView::Bool(b) => JsonView::Bool(b),
        ScalarView::Integer(n) => if n >= 0 {
            JsonView::Unsigned(n)
        } else {
            JsonView::Negative(n)
        },
        ScalarView::Text(t) => JsonView::Text(t),
        _ => JsonView::Null,
    }
}

/// An object with plain members as JSON.
pub open spec fn object_json(members: Seq<(Seq<char>, ScalarView)>) -> JsonView {
    JsonView::Object(Seq::new(members.len(), |i: int| (members[i].0, scalar_json(members[i].1))))
}

/// The result of a tool that gave an object with the given members: once as text, once as
/// it is.
pub open spec fn tool_reply(members: Seq<(Seq<char>, ScalarView)>) -> JsonView {
    JsonView::empty_object().with(
        "content"@,
        JsonView::empty_list().and(
            JsonView::empty_object().with("type"@, JsonView::Text("text"@)).with(
                "text"@,
                JsonView::Text(json_object_pretty(members)),
            ),
        ),
    ).with("structuredContent"@, object_json(members)).with("isError"@, JsonView::Bool(false))
}

fn scalar(value: &JsonScalar) -> (r: Json)
    ensures
        r@ == scalar_json(value@),
{
    match value {
        JsonScalar::Bool(b) => Json::Bool(*b),
        JsonScalar::Integer(n) => if *n >= 0 {
            Json::Unsigned(*n as u64)
        } else {
            Json::Negative(*n)
        },
        JsonScalar::Text(t) => Json::text(t.as_str()),
        _ => Json::Null,
    }
}

fn object(members: &Vec<JsonMember>) -> (r: Json)
    ensures
        r@ == object_json(member_views(members@)),
{
    let ghost views = member_views(members@);
    let mut r = Json::empty_object();
    let mut i: usize = 0;
    while i < members.len()
        invariant
            i <= members@.len(),
            views == member_views(members@),
            r@ is Object,
            r@->Object_0 =~= Seq::new(
                i as nat,
                |j: int| (views[j].0, scalar_json(views[j].1)),
            ),
        decreases members@.len() - i,
    {
        r = r.with(members[i].name.as_str(), scalar(&members[i].value));
        i += 1;
    }
    assert(r@->Object_0 =~= object_json(views)->Object_0);
    r
}

/// The result of a tool that gave an object with the given members.
pub fn tool_json(members: &Vec<JsonMember>) -> (r: Json)
    requires
        forall|i: int| 0 <= i < members@.len() ==> !(#[trigger] members@[i].value is Other),
    ensures
        r@ == tool_reply(member_views(members@)),
{
    let text = match write_object_pretty(members) {
        Ok(text) => text,
        Err(_) => String::new(),
    };
    Json::empty_object().with(
        "content",
        Json::empty_list().and(
            Json::empty_object().with("type", Json::text("text")).with("text", Json::Text(text)),
        ),
    ).with("structuredContent", object(members)).with("isError", Json::Bool(false))
}

/// The members of the object that a tool gives.
pub open spec fn result_members(result: ToolResult) -> Seq<(Seq<char>, ScalarView)> {
    match result {
        ToolResult::Entered(entered) => Seq::empty().push(
            ("handle"@, ScalarView::Text(entered.handle@)),
        ).push(("reused"@, ScalarView::Bool(entered.reused))).push(
            ("message"@, ScalarView::Text(entered.message@)),
        ),
        ToolResult::Ran(done) => Seq::empty().push(("output"@, ScalarView::Text(done.output@))).push(
            ("exit_code"@, ScalarView::Integer(done.exit_code as int)),
        ).push(("success"@, ScalarView::Bool(done.success))).push(
            ("truncated"@, ScalarView::Bool(done.truncated)),
        ),
        ToolResult::Destroyed => Seq::empty().push(("destroyed"@, ScalarView::Bool(true))),
        ToolResult::Revoked => Seq::empty().push(("revoked"@, ScalarView::Bool(true))),
    }
}

fn member(name: &str, value: JsonScalar) -> (r: JsonMember)
    ensures
        r@ == (name@, value@),
        r.value == value,
{
    JsonMember { name: name.to_owned(), value }
}

/// The result of a tool.
pub fn tool_result(result: ToolResult) -> (r: Json)
    ensures
        r@ == tool_reply(result_members(result)),
{
    let mut members: Vec<JsonMember> = Vec::new();
    match &result {
        ToolResult::Entered(entered) => {
            members.push(member("handle", JsonScalar::Text(entered.handle.clone())));
            members.push(member("reused", JsonScalar::Bool(entered.reused)));
            members.push(member("message", JsonScalar::Text(entered.message.clone())));
        },
        ToolResult::Ran(done) => {
            members.push(member("output", JsonScalar::Text(done.output.clone())));
            members.push(member("exit_code", JsonScalar::Integer(done.exit_code as i64)));
            members.push(member("success", JsonScalar::Bool(done.success)));
            members.push(member("truncated", JsonScalar::Bool(done.truncated)));
        },
        ToolResult::Destroyed => {
            members.push(member("destroyed", JsonScalar::Bool(true)));
        },
        ToolResult::Revoked => {
            members.push(member("revoked", JsonScalar::Bool(true)));
        },
    }
    assert(member_views(members@) =~= result_members(result));
    tool_json(&members)
}

/// The schema of an object with the given properties, the required among them listed, and
/// no others.
pub open spec fn object_schema(properties: JsonView, required: JsonView) -> JsonView {
    JsonView::empty_object().with("type"@, JsonView::Text("object"@)).with(
        "properties"@,
        properties,
    ).with("required"@, required).with("additionalProperties"@, JsonView::Bool(false))
}

/// The schema of a text.
pub open spec fn text_schema() -> JsonView {
    JsonView::empty_object().with("type"@, JsonView::Text("string"@))
}

/// The definition of a tool.
pub open spec fn tool_definition(
    name: Seq<char>,
    title: Seq<char>,
    description: Seq<char>,
    schema: JsonView,
) -> JsonView {
    JsonView::empty_object().with("name"@, JsonView::Text(name)).with(
        "title"@,
        JsonView::Text(title),
    ).with("description"@, JsonView::Text(description)).with("inputSchema"@, schema)
}

/// What the tool that enters a session is for.
pub const ENTER_DESCRIPTION: &'static str =
    "Enter an unrestricted administrator/root PowerShell session using a JWT personally issued by the user. Never ask for the Master Password or dynamic Master Password. If this token already owns a live session, the existing strong-password handle is returned and reused; otherwise a new session is created.";

/// What the tool that runs a command is for.
pub const RUN_DESCRIPTION: &'static str =
    "Run the command verbatim in the persistent privileged PowerShell session. PowerShell itself parses pipelines, wildcards, multiline scripts and environment variables. State, current directory and environment persist between calls. Output streams are merged in PowerShell order.";

/// What the tool that ends a session is for.
pub const DESTROY_DESCRIPTION: &'static str =
    "Immediately terminate a privileged PowerShell session and invalidate its handle.";

/// What the tool that revokes a token is for.
pub const REVOKE_DESCRIPTION: &'static str =
    "Revoke a JWT and immediately terminate every session that it owns.";

/// The definition of the tool that enters a session.
pub open spec fn enter_tool() -> JsonView {
    tool_definition(
        "sudo_enter"@,
        "Enter privileged session"@,
        ENTER_DESCRIPTION@,
        object_schema(
            JsonView::empty_object().with(
                "token"@,
                text_schema().with(
                    "description"@,
                    JsonView::Text("JWT supplied by the user via the agent's Ask/user-input tool"@),
                ),
            ),
            JsonView::empty_list().and(JsonView::Text("token"@)),
        ),
    )
}

/// The definition of the tool that runs a command.
pub open spec fn run_tool() -> JsonView {
    tool_definition(
        "sudo_run"@,
        "Run privileged PowerShell"@,
        RUN_DESCRIPTION@,
        object_schema(
            JsonView::empty_object().with(
                "handle"@,
                text_schema().with(
                    "description"@,
                    JsonView::Text("Secret session handle returned by sudo_enter"@),
                ),
            ).with(
                "command"@,
                text_schema().with(
                    "description"@,
                    JsonView::Text(
                        "PowerShell source code, passed verbatim to PowerShell's parser"@,
                    ),
                ),
            ).with(
                "timeout_seconds"@,
                JsonView::empty_object().with("type"@, JsonView::Text("integer"@)).with(
                    "minimum"@,
                    JsonView::Unsigned(1),
                ),
            ),
            JsonView::empty_list().and(JsonView::Text("handle"@)).and(JsonView::Text("command"@)),
        ),
    )
}

/// The definition of the tool that ends a session.
pub open spec fn destroy_tool() -> JsonView {
    tool_definition(
        "sudo_destroy_session"@,
        "Destroy privileged session"@,
        DESTROY_DESCRIPTION@,
        object_schema(
            JsonView::empty_object().with("handle"@, text_schema()),
            JsonView::empty_list().and(JsonView::Text("handle"@)),
        ),
    )
}

/// The definition of the tool that revokes a token.
pub open spec fn revoke_tool() -> JsonView {
    tool_definition(
        "sudo_revoke_token"@,
        "Revoke privilege token"@,
        REVOKE_DESCRIPTION@,
        object_schema(
            JsonView::empty_object().with("token"@, text_schema()),
            JsonView::empty_list().and(JsonView::Text("token"@)),
        ),
    )
}

/// The definitions of all tools.
pub open spec fn all_tools() -> JsonView {
    JsonView::empty_list().and(enter_tool()).and(run_tool()).and(destroy_tool()).and(revoke_tool())
}

fn schema(properties: Json, required: Json) -> (r: Json)
    ensures
        r@ == object_schema(properties@, required@),
{
    Json::empty_object().with("type", Json::text("object")).with("properties", properties).with(
        "required",
        required,
    ).with("additionalProperties", Json::Bool(false))
}

fn text_property() -> (r: Json)
    ensures
        r@ == text_schema(),
{
    Json::empty_object().with("type", Json::text("string"))
}

fn definition(name: &str, title: &str, description: &str, schema: Json) -> (r: Json)
    ensures
        r@ == tool_definition(name@, title@, description@, schema@),
{
    Json::empty_object().with("name", Json::text(name)).with("title", Json::text(title)).with(
        "description",
        Json::text(description),
    ).with("inputSchema", schema)
}

/// The definitions of all tools.
pub fn tool_definitions() -> (r: Json)
    ensures
        r@ == all_tools(),
{
    let enter = definition(
        "sudo_enter",
        "Enter privileged session",
        ENTER_DESCRIPTION,
        schema(
            Json::empty_object().with(
                "token",
                text_property().with(
                    "description",
                    Json::text("JWT supplied by the user via the agent's Ask/user-input tool"),
                ),
            ),
            Json::empty_list().and(Json::text("token")),
        ),
    );
    let run = definition(
        "sudo_run",
        "Run privileged PowerShell",
        RUN_DESCRIPTION,
        schema(
            Json::empty_object().with(
                "handle",
                text_property().with(
                    "description",
                    Json::text("Secret session handle returned by sudo_enter"),
                ),
            ).with(
                "command",
                text_property().with(
                    "description",
                    Json::text("PowerShell source code, passed verbatim to PowerShell's parser"),
                ),
            ).with(
                "timeout_seconds",
                Json::empty_object().with("type", Json::text("integer")).with(
                    "minimum",
                    Json::Unsigned(1),
                ),
            ),
            Json::empty_list().and(Json::text("handle")).and(Json::text("command")),
        ),
    );
    let destroy = definition(
        "sudo_destroy_session",
        "Destroy privileged session",
        DESTROY_DESCRIPTION,
        schema(
            Json::empty_object().with("handle", text_property()),
            Json::empty_list().and(Json::text("handle")),
        ),
    );
    let revoke = definition(
        "sudo_revoke_token",
        "Revoke privilege token",
        REVOKE_DESCRIPTION,
        schema(
            Json::empty_object().with("token", text_property()),
            Json::empty_list().and(Json::text("token")),
        ),
    );
    Json::empty_list().and(enter).and(run).and(destroy).and(revoke)
}

/// What an agent is told when it connects.
pub open spec fn greeting() -> JsonView {
    JsonView::empty_object().with("protocolVersion"@, JsonView::Text(PROTOCOL_VERSION@)).with(
        "capabilities"@,
        JsonView::empty_object().with(
            "tools"@,
            JsonView::empty_object().with("listChanged"@, JsonView::Bool(false)),
        ),
    ).with(
        "serverInfo"@,
        JsonView::empty_object().with("name"@, JsonView::Text("SudoServer"@)).with(
            "version"@,
            JsonView::Text(VERSION@),
        ),
    ).with("instructions"@, JsonView::Text(INSTRUCTIONS@))
}

fn initialize() -> (r: Json)
    ensures
        r@ == greeting(),
{
    Json::empty_object().with("protocolVersion", Json::text(PROTOCOL_VERSION)).with(
        "capabilities",
        Json::empty_object().with(
            "tools",
            Json::empty_object().with("listChanged", Json::Bool(false)),
        ),
    ).with(
        "serverInfo",
        Json::empty_object().with("name", Json::text("SudoServer")).with(
            "version",
            Json::text(VERSION),
        ),
    ).with("instructions", Json::text(INSTRUCTIONS))
}

/// What a method leads to: a result, or a tool to call first.
pub enum Dispatch {
    Result(Json),
    Call(ToolCall),
}

/// What a [`Dispatch`] stands for.
pub enum DispatchView {
    Result(JsonView),
    Call(ToolCallView),
}

impl View for Dispatch {
    type V = DispatchView;

    open spec fn view(&self) -> DispatchView {
        match self {
            Dispatch::Result(value) => DispatchView::Result(value@),
            Dispatch::Call(call) => DispatchView::Call(call@),
        }
    }
}

/// What the method called `method` leads to, or why it is refused.
pub open spec fn dispatched(method: Seq<char>, params: JsonView) -> Result<
    DispatchView,
    ApiErrorView,
> {
    if method == "initialize"@ {
        Ok(DispatchView::Result(greeting()))
    } else if method == "ping"@ {
        Ok(DispatchView::Result(JsonView::empty_object()))
    } else if method == "tools/list"@ {
        Ok(DispatchView::Result(JsonView::empty_object().with("tools"@, all_tools())))
    } else if method == "tools/call"@ {
        match requested_call(params) {
            Ok(call) => Ok(DispatchView::Call(call)),
            Err(refusal) => Err(refusal),
        }
    } else {
        Err(bad_request_refusal("unknown MCP method: "@ + method))
    }
}

/// What the method called `method` leads to.
pub fn dispatch(method: &str, params: &Json) -> (r: Result<Dispatch, ApiError>)
    ensures
        match dispatched(method@, params@) {
            Ok(outcome) => r is Ok && r->Ok_0@ == outcome,
            Err(refusal) => refused(r, refusal),
        },
{
    if same(method, "initialize") {
        Ok(Dispatch::Result(initialize()))
    } else if same(method, "ping") {
        Ok(Dispatch::Result(Json::empty_object()))
    } else if same(method, "tools/list") {
        Ok(Dispatch::Result(Json::empty_object().with("tools", tool_definitions())))
    } else if same(method, "tools/call") {
        match call_tool(params) {
            Ok(call) => Ok(Dispatch::Call(call)),
            Err(error) => Err(error),
        }
    } else {
        Err(ApiError::bad_request("unknown MCP method: ".to_owned().concat(method)))
    }
}

/// The reply that gives a result.
pub open spec fn result_reply(id: JsonView, result: JsonView) -> JsonView {
    JsonView::empty_object().with("jsonrpc"@, JsonView::Text("2.0"@)).with("id"@, id).with(
        "result"@,
        result,
    )
}

/// The reply that reports an error.
pub open spec fn error_reply(id: JsonView, message: Seq<char>) -> JsonView {
    JsonView::empty_object().with("jsonrpc"@, JsonView::Text("2.0"@)).with("id"@, id).with(
        "error"@,
        JsonView::empty_object().with("code"@, JsonView::Negative(INVALID_PARAMS as int)).with(
            "message"@,
            JsonView::Text(message),
        ),
    )
}

/// The reply to a request, under its id.
fn reply(id: Json, result: Result<Json, ApiError>) -> (r: Json)
    ensures
        match result {
            Ok(value) => r@ == result_reply(id@, value@),
            Err(error) => r@ == error_reply(id@, error@.message),
        },
{
    let start = Json::empty_object().with("jsonrpc", Json::text("2.0")).with("id", id);
    match result {
        Ok(value) => start.with("result", value),
        Err(error) => start.with(
            "error",
            Json::empty_object().with("code", Json::Negative(INVALID_PARAMS)).with(
                "message",
                Json::Text(error.to_string()),
            ),
        ),
    }
}

/// What a request leads to.
pub enum Answer {
    /// A notification is not answered.
    Nothing,
    /// The reply.
    Reply(Json),
    /// A tool to call; what comes of it is the reply under the given id.
    Call { id: Json, call: ToolCall },
}

/// What an [`Answer`] stands for.
pub enum AnswerView {
    Nothing,
    Reply(JsonView),
    Call { id: JsonView, call: ToolCallView },
}

impl View for Answer {
    type V = AnswerView;

    open spec fn view(&self) -> AnswerView {
        match self {
            Answer::Nothing => AnswerView::Nothing,
            Answer::Reply(value) => AnswerView::Reply(value@),
            Answer::Call { id, call } => AnswerView::Call { id: id@, call: call@ },
        }
    }
}

/// What a request leads to.
pub open spec fn answer_to(request: JsonRpcRequest) -> AnswerView {
    match request.id {
        None => AnswerView::Nothing,
        Some(id) => match dispatched(request.method@, request.params@) {
            Ok(DispatchView::Result(result)) => AnswerView::Reply(result_reply(id@, result)),
            Ok(DispatchView::Call(call)) => AnswerView::Call { id: id@, call },
            Err(refusal) => AnswerView::Reply(error_reply(id@, refusal.message)),
        },
    }
}

/// What a request leads to.
pub fn handle(request: JsonRpcRequest) -> (answer: Answer)
    ensures
        answer@ == answer_to(request),
{
    let id = match request.id {
        Some(id) => id,
        None => return Answer::Nothing,
    };
    match dispatch(request.method.as_str(), &request.params) {
        Ok(Dispatch::Result(value)) => Answer::Reply(reply(id, Ok(value))),
        Ok(Dispatch::Call(call)) => Answer::Call { id, call },
        Err(error) => Answer::Reply(reply(id, Err(error))),
    }
}

/// The reply to a tool call, once the tool has been called.
pub fn finish_call(id: Json, result: Result<ToolResult, ApiError>) -> (r: Json)
    ensures
        match result {
            Ok(given) => r@ == result_reply(id@, tool_reply(result_members(given))),
            Err(error) => r@ == error_reply(id@, error@.message),
        },
{
    match result {
        Ok(given) => reply(id, Ok(tool_result(given))),
        Err(error) => reply(id, Err(error)),
    }
}

proof fn lemma_get_behind(before: JsonView, name: Seq<char>, value: JsonView, other: Seq<char>)
    requires
        before is Object,
    ensures
        before.get(other) is Some ==> before.with(name, value).get(other) == before.get(other),
        before.get(other) is None ==> before.with(name, value).get(other) == (if other == name {
            Some(value)
        } else {
            None
        }),
    decreases before->Object_0.len(),
{
    let members = before->Object_0;
    let more = members.push((name, value));
    if members.len() == 0 {
        assert(more.drop_first() =~= Seq::empty());
        assert(first_member(more.drop_first(), other) is None);
    } else {
        assert(more[0] == members[0]);
        assert(more.drop_first() =~= members.drop_first().push((name, value)));
        lemma_get_behind(JsonView::Object(members.drop_first()), name, value, other);
    }
}

/// Every reply carries the id of its request, and either a result or an error, never both.
pub proof fn law_reply_carries_the_id(id: JsonView, result: JsonView, message: Seq<char>)
    ensures
        result_reply(id, result).get("id"@) == Some(id),
        result_reply(id, result).get("result"@) == Some(result),
        result_reply(id, result).get("error"@) is None,
        error_reply(id, message).get("id"@) == Some(id),
        error_reply(id, message).get("result"@) is None,
        error_reply(id, message).get("error"@) is Some,
{
    reveal_strlit("jsonrpc");
    reveal_strlit("id");
    reveal_strlit("result");
    reveal_strlit("error");
    let empty = JsonView::empty_object();
    let version = JsonView::Text("2.0"@);
    let start = empty.with("jsonrpc"@, version);
    let error = error_reply(id, message)->Object_0.last().1;
    assert("jsonrpc"@.len() == 7 && "id"@.len() == 2 && "result"@.len() == 6 && "error"@.len()
        == 5);
    assert forall|name: Seq<char>| name == "id"@ || name == "result"@ || name == "error"@ implies {
        &&& result_reply(id, result).get(name) == (if name == "id"@ {
            Some(id)
        } else if name == "result"@ {
            Some(result)
        } else {
            None
        })
        &&& error_reply(id, message).get(name) == (if name == "id"@ {
            Some(id)
        } else if name == "error"@ {
            Some(error)
        } else {
            None
        })
    } by {
        lemma_get_behind(empty, "jsonrpc"@, version, name);
        lemma_get_behind(start, "id"@, id, name);
        lemma_get_behind(start.with("id"@, id), "result"@, result, name);
        lemma_get_behind(start.with("id"@, id), "error"@, error, name);
    }
}

proof fn lemma_definition(
    name: Seq<char>,
    title: Seq<char>,
    description: Seq<char>,
    properties: JsonView,
    required: JsonView,
)
    ensures
        ({
            let tool = tool_definition(
                name,
                title,
                description,
                object_schema(properties, required),
            );
            tool.get_text("name"@) == Some(name) && tool.get("inputSchema"@) is Some && tool.get(
                "inputSchema"@,
            )->0.get("required"@) == Some(required)
        }),
{
    reveal_strlit("name");
    reveal_strlit("title");
    reveal_strlit("description");
    reveal_strlit("inputSchema");
    reveal_strlit("type");
    reveal_strlit("properties");
    reveal_strlit("required");
    let schema = object_schema(properties, required);
    let empty = JsonView::empty_object();
    let d1 = empty.with("name"@, JsonView::Text(name));
    let d2 = d1.with("title"@, JsonView::Text(title));
    let d3 = d2.with("description"@, JsonView::Text(description));
    assert("name"@.len() == 4 && "title"@.len() == 5);
    assert("description"@[0] == 'd' && "inputSchema"@[0] == 'i');
    lemma_get_behind(empty, "name"@, JsonView::Text(name), "name"@);
    lemma_get_behind(d1, "title"@, JsonView::Text(title), "name"@);
    lemma_get_behind(d2, "description"@, JsonView::Text(description), "name"@);
    lemma_get_behind(d3, "inputSchema"@, schema, "name"@);
    lemma_get_behind(empty, "name"@, JsonView::Text(name), "inputSchema"@);
    lemma_get_behind(d1, "title"@, JsonView::Text(title), "inputSchema"@);
    lemma_get_behind(d2, "description"@, JsonView::Text(description), "inputSchema"@);
    lemma_get_behind(d3, "inputSchema"@, schema, "inputSchema"@);
    let s1 = empty.with("type"@, JsonView::Text("object"@));
    let s2 = s1.with("properties"@, properties);
    let s3 = s2.with("required"@, required);
    assert("type"@.len() == 4 && "properties"@.len() == 10 && "required"@.len() == 8);
    lemma_get_behind(empty, "type"@, JsonView::Text("object"@), "required"@);
    lemma_get_behind(s1, "properties"@, properties, "required"@);
    lemma_get_behind(s2, "required"@, required, "required"@);
    lemma_get_behind(s3, "additionalProperties"@, JsonView::Bool(false), "required"@);
}

/// Whether `arguments` hold a text for everything that the definition of a tool requires.
pub open spec fn satisfies(arguments: JsonView, tool: JsonView) -> bool {
    let required = tool.get("inputSchema"@)->0.get("required"@)->0->List_0;
    forall|i: int|
        0 <= i < required.len() ==> arguments.get_text((#[trigger] required[i])->Text_0) is Some
}

/// Every tool that is listed can be called: with a text for everything that its definition
/// requires, a call of it is accepted.
pub proof fn law_listed_tools_can_be_called(i: int, arguments: JsonView)
    requires
        0 <= i < all_tools()->List_0.len(),
        satisfies(arguments, all_tools()->List_0[i]),
    ensures
        all_tools()->List_0[i].get_text("name"@) is Some,
        tool_request(all_tools()->List_0[i].get_text("name"@)->0, arguments) is Ok,
{
    reveal_strlit("sudo_enter");
    reveal_strlit("sudo_run");
    reveal_strlit("sudo_destroy_session");
    reveal_strlit("sudo_revoke_token");
    assert("sudo_enter"@.len() == 10 && "sudo_run"@.len() == 8 && "sudo_destroy_session"@.len()
        == 20 && "sudo_revoke_token"@.len() == 17);
    let tool = all_tools()->List_0[i];
    let schema = tool->Object_0[3].1;
    let properties = schema->Object_0[1].1;
    let required = schema->Object_0[2].1;
    let name = tool->Object_0[0].1->Text_0;
    let title = tool->Object_0[1].1->Text_0;
    let description = tool->Object_0[2].1->Text_0;
    assert(tool == tool_definition(name, title, description, object_schema(properties, required)));
    lemma_definition(name, title, description, properties, required);
    let needed = required->List_0;
    assert(needed.len() >= 1 && arguments.get_text(needed[0]->Text_0) is Some);
    if i == 1 {
        assert(arguments.get_text(needed[1]->Text_0) is Some);
    }
}

proof fn lemma_four_members(
    first: (Seq<char>, JsonView),
    second: (Seq<char>, JsonView),
    third: (Seq<char>, JsonView),
    fourth: (Seq<char>, JsonView),
    name: Seq<char>,
)
    ensures
        ({
            let one = JsonView::empty_object().with(first.0, first.1);
            let two = one.with(second.0, second.1);
            let three = two.with(third.0, third.1);
            let four = three.with(fourth.0, fourth.1);
            let found = if name == first.0 {
                Some(first.1)
            } else if name == second.0 {
                Some(second.1)
            } else if name == third.0 {
                Some(third.1)
            } else {
                None
            };
            &&& name == first.0 ==> one.get(name) == Some(first.1)
            &&& name == first.0 || name == second.0 ==> two.get(name) == found
            &&& three.get(name) == found
            &&& found is Some ==> four.get(name) == found
            &&& found is None && name == fourth.0 ==> four.get(name) == Some(fourth.1)
            &&& found is None && name != fourth.0 ==> four.get(name) is None
        }),
{
    let empty = JsonView::empty_object();
    let one = empty.with(first.0, first.1);
    let two = one.with(second.0, second.1);
    let three = two.with(third.0, third.1);
    lemma_get_behind(empty, first.0, first.1, name);
    lemma_get_behind(one, second.0, second.1, name);
    lemma_get_behind(two, third.0, third.1, name);
    lemma_get_behind(three, fourth.0, fourth.1, name);
}

/// The object of a tool is passed on twice, as it is and as text, and is no error: as it is,
/// every member comes under its own name, in its place, with its own value.
pub proof fn law_tool_objects_are_passed_on(members: Seq<(Seq<char>, ScalarView)>, i: int)
    requires
        0 <= i < members.len(),
    ensures
        ({
            let content = tool_reply(members).get("content"@);
            let object = tool_reply(members).get("structuredContent"@);
            &&& content is Some && content->0 is List && content->0->List_0.len() == 1
            &&& content->0->List_0[0].get("type"@) == Some(JsonView::Text("text"@))
            &&& content->0->List_0[0].get("text"@) == Some(
                JsonView::Text(json_object_pretty(members)),
            )
            &&& tool_reply(members).get("isError"@) == Some(JsonView::Bool(false))
            &&& object is Some && object->0 is Object
            &&& object->0->Object_0.len() == members.len()
            &&& object->0->Object_0[i].0 == members[i].0
            &&& members[i].1 matches ScalarView::Text(text) ==> object->0->Object_0[i].1
                == JsonView::Text(text)
            &&& members[i].1 matches ScalarView::Bool(yes) ==> object->0->Object_0[i].1
                == JsonView::Bool(yes)
            &&& members[i].1 matches ScalarView::Integer(n) ==> object->0->Object_0[i].1 == (if n
                >= 0 {
                JsonView::Unsigned(n)
            } else {
                JsonView::Negative(n)
            })
            &&& members[i].1 is Null ==> object->0->Object_0[i].1 == JsonView::Null
        }),
{
    lemma_tool_reply(members);
}

proof fn lemma_tool_reply(members: Seq<(Seq<char>, ScalarView)>)
    ensures
        ({
            let content = tool_reply(members).get("content"@);
            &&& content is Some && content->0 is List && content->0->List_0.len() == 1
            &&& content->0->List_0[0].get("type"@) == Some(JsonView::Text("text"@))
            &&& content->0->List_0[0].get("text"@) == Some(
                JsonView::Text(json_object_pretty(members)),
            )
            &&& tool_reply(members).get("structuredContent"@) == Some(object_json(members))
            &&& tool_reply(members).get("isError"@) == Some(JsonView::Bool(false))
        }),
{
    reveal_strlit("content");
    reveal_strlit("structuredContent");
    reveal_strlit("isError");
    reveal_strlit("type");
    reveal_strlit("text");
    assert("content"@.len() == 7 && "structuredContent"@.len() == 17 && "isError"@.len() == 7);
    assert("content"@[0] == 'c' && "isError"@[0] == 'i');
    assert("type"@[1] == 'y' && "text"@[1] == 'e');
    let kind = ("type"@, JsonView::Text("text"@));
    let text = ("text"@, JsonView::Text(json_object_pretty(members)));
    let item = JsonView::empty_object().with(kind.0, kind.1).with(text.0, text.1);
    let content = ("content"@, JsonView::empty_list().and(item));
    let object = ("structuredContent"@, object_json(members));
    let failed = ("isError"@, JsonView::Bool(false));
    lemma_four_members(kind, text, text, text, "type"@);
    lemma_four_members(kind, text, text, text, "text"@);
    lemma_four_members(content, object, failed, failed, "content"@);
    lemma_four_members(content, object, failed, failed, "structuredContent"@);
    lemma_four_members(content, object, failed, failed, "isError"@);
}

/// What a caller who entered a session is told is what came of entering, for every handle,
/// whether or not the session is reused, and for every message; as text it is the same object.
pub proof fn law_entering_is_told(entered: EnterResult)
    ensures
        ({
            let given = tool_reply(result_members(ToolResult::Entered(entered)));
            let object = given.get("structuredContent"@)->0;
            &&& object.get_text("handle"@) == Some(entered.handle@)
            &&& object.get("reused"@) == Some(JsonView::Bool(entered.reused))
            &&& object.get_text("message"@) == Some(entered.message@)
            &&& object->Object_0.len() == 3
            &&& given.get("isError"@) == Some(JsonView::Bool(false))
            &&& given.get("content"@)->0->List_0.len() == 1
            &&& given.get("content"@)->0->List_0[0].get("text"@) == Some(
                JsonView::Text(
                    json_object_pretty(
                        Seq::empty().push(("handle"@, ScalarView::Text(entered.handle@))).push(
                            ("reused"@, ScalarView::Bool(entered.reused)),
                        ).push(("message"@, ScalarView::Text(entered.message@))),
                    ),
                ),
            )
        }),
{
    reveal_strlit("handle");
    reveal_strlit("reused");
    reveal_strlit("message");
    assert("handle"@[0] == 'h' && "reused"@[0] == 'r' && "message"@[0] == 'm');
    let members = result_members(ToolResult::Entered(entered));
    lemma_tool_reply(members);
    let handle = ("handle"@, JsonView::Text(entered.handle@));
    let reused = ("reused"@, JsonView::Bool(entered.reused));
    let message = ("message"@, JsonView::Text(entered.message@));
    let object = JsonView::empty_object().with(handle.0, handle.1).with(reused.0, reused.1).with(
        message.0,
        message.1,
    );
    assert(object_json(members)->Object_0 =~= object->Object_0);
    lemma_four_members(handle, reused, message, message, "handle"@);
    lemma_four_members(handle, reused, message, message, "reused"@);
    lemma_four_members(handle, reused, message, message, "message"@);
}

/// What a caller who ran a command is told is what came of the command, for every output,
/// every exit code, and whether or not it succeeded and was cut off; as text it is the same
/// object.
pub proof fn law_running_is_told(done: ExecutionResult)
    ensures
        ({
            let given = tool_reply(result_members(ToolResult::Ran(done)));
            let object = given.get("structuredContent"@)->0;
            &&& object.get_text("output"@) == Some(done.output@)
            &&& done.exit_code >= 0 ==> object.get("exit_code"@) == Some(
                JsonView::Unsigned(done.exit_code as int),
            )
            &&& done.exit_code < 0 ==> object.get("exit_code"@) == Some(
                JsonView::Negative(done.exit_code as int),
            )
            &&& object.get("success"@) == Some(JsonView::Bool(done.success))
            &&& object.get("truncated"@) == Some(JsonView::Bool(done.truncated))
            &&& object->Object_0.len() == 4
            &&& given.get("isError"@) == Some(JsonView::Bool(false))
            &&& given.get("content"@)->0->List_0.len() == 1
            &&& given.get("content"@)->0->List_0[0].get("text"@) == Some(
                JsonView::Text(
                    json_object_pretty(
                        Seq::empty().push(("output"@, ScalarView::Text(done.output@))).push(
                            ("exit_code"@, ScalarView::Integer(done.exit_code as int)),
                        ).push(("success"@, ScalarView::Bool(done.success))).push(
                            ("truncated"@, ScalarView::Bool(done.truncated)),
                        ),
                    ),
                ),
            )
        }),
{
    reveal_strlit("output");
    reveal_strlit("exit_code");
    reveal_strlit("success");
    reveal_strlit("truncated");
    assert("output"@[0] == 'o' && "exit_code"@[0] == 'e' && "success"@[0] == 's'
        && "truncated"@[0] == 't');
    let members = result_members(ToolResult::Ran(done));
    lemma_tool_reply(members);
    let output = ("output"@, JsonView::Text(done.output@));
    let exit_code = ("exit_code"@, scalar_json(ScalarView::Integer(done.exit_code as int)));
    let success = ("success"@, JsonView::Bool(done.success));
    let truncated = ("truncated"@, JsonView::Bool(done.truncated));
    let object = JsonView::empty_object().with(output.0, output.1).with(
        exit_code.0,
        exit_code.1,
    ).with(success.0, success.1).with(truncated.0, truncated.1);
    assert(object_json(members)->Object_0 =~= object->Object_0);
    lemma_four_members(output, exit_code, success, truncated, "output"@);
    lemma_four_members(output, exit_code, success, truncated, "exit_code"@);
    lemma_four_members(output, exit_code, success, truncated, "success"@);
    lemma_four_members(output, exit_code, success, truncated, "truncated"@);
}

/// A caller who ended a session or revoked a token is told that it was done.
pub proof fn law_endings_are_told()
    ensures
        ({
            let destroyed = tool_reply(result_members(ToolResult::Destroyed));
            let revoked = tool_reply(result_members(ToolResult::Revoked));
            &&& destroyed.get("structuredContent"@)->0.get("destroyed"@) == Some(
                JsonView::Bool(true),
            )
            &&& destroyed.get("structuredContent"@)->0->Object_0.len() == 1
            &&& destroyed.get("isError"@) == Some(JsonView::Bool(false))
            &&& revoked.get("structuredContent"@)->0.get("revoked"@) == Some(JsonView::Bool(true))
            &&& revoked.get("structuredContent"@)->0->Object_0.len() == 1
            &&& revoked.get("isError"@) == Some(JsonView::Bool(false))
        }),
{
    let yes = JsonView::Bool(true);
    let destroyed = result_members(ToolResult::Destroyed);
    let revoked = result_members(ToolResult::Revoked);
    lemma_tool_reply(destroyed);
    lemma_tool_reply(revoked);
    let empty = JsonView::empty_object();
    assert(object_json(destroyed)->Object_0 =~= empty.with("destroyed"@, yes)->Object_0);
    assert(object_json(revoked)->Object_0 =~= empty.with("revoked"@, yes)->Object_0);
    lemma_get_behind(empty, "destroyed"@, yes, "destroyed"@);
    lemma_get_behind(empty, "revoked"@, yes, "revoked"@);
}

/// A reply says which protocol it speaks and carries the id of its request. With a result it
/// holds the result and nothing more; with an error it holds the code for invalid parameters
/// and the message, and nothing more.
pub proof fn law_replies_are_complete(id: JsonView, result: JsonView, message: Seq<char>)
    ensures
        result_reply(id, result).get_text("jsonrpc"@) == Some("2.0"@),
        result_reply(id, result).get("id"@) == Some(id),
        result_reply(id, result).get("result"@) == Some(result),
        result_reply(id, result)->Object_0.len() == 3,
        error_reply(id, message).get_text("jsonrpc"@) == Some("2.0"@),
        error_reply(id, message).get("id"@) == Some(id),
        error_reply(id, message).get("error"@) is Some,
        error_reply(id, message).get("error"@)->0.get("code"@) == Some(JsonView::Negative(-32602)),
        error_reply(id, message).get("error"@)->0.get_text("message"@) == Some(message),
        error_reply(id, message).get("error"@)->0->Object_0.len() == 2,
        error_reply(id, message)->Object_0.len() == 3,
{
    law_reply_carries_the_id(id, result, message);
    reveal_strlit("code");
    reveal_strlit("message");
    reveal_strlit("jsonrpc");
    reveal_strlit("id");
    reveal_strlit("error");
    assert("code"@.len() == 4 && "message"@.len() == 7);
    assert("jsonrpc"@.len() == 7 && "id"@.len() == 2 && "error"@.len() == 5);
    let version = ("jsonrpc"@, JsonView::Text("2.0"@));
    let code = ("code"@, JsonView::Negative(-32602));
    let text = ("message"@, JsonView::Text(message));
    let error = (
        "error"@,
        JsonView::empty_object().with(code.0, code.1).with(text.0, text.1),
    );
    lemma_four_members(code, text, text, text, "code"@);
    lemma_four_members(code, text, text, text, "message"@);
    lemma_four_members(version, ("id"@, id), error, error, "error"@);
    lemma_four_members(version, ("id"@, id), error, error, "jsonrpc"@);
    lemma_four_members(version, ("id"@, id), ("result"@, result), error, "jsonrpc"@);
}

/// What a tool call holds is what its fields hold.
pub proof fn law_calls_stand_for_themselves(call: ToolCall)
    ensures
        call matches ToolCall::Enter { token } ==> call@ == (ToolCallView::Enter { token: token@ }),
        call matches ToolCall::Run { handle, command, timeout_seconds } ==> {
            &&& call@ is Run
            &&& call@->Run_handle == handle@
            &&& call@->command == command@
            &&& call@->timeout_seconds is Some <==> timeout_seconds is Some
            &&& timeout_seconds is Some ==> call@->timeout_seconds->0 == timeout_seconds->0
        },
        call matches ToolCall::DestroySession { handle } ==> call@ == (
        ToolCallView::DestroySession { handle: handle@ }),
        call matches ToolCall::RevokeToken { token } ==> call@ == (ToolCallView::RevokeToken {
            token: token@,
        }),
{
}

/// A tool is called by its name, with the arguments that it needs, each passed on as it was
/// given: the token to enter with or to revoke, the handle of the session to end, and for a
/// command its handle, its text and, where it is an unsigned number, its timeout. The first
/// argument that is missing or no text is named in the refusal, and so is a tool that there
/// is not.
pub proof fn law_tool_calls_are_understood(name: Seq<char>, arguments: JsonView)
    ensures
        ({
            let call = tool_request(name, arguments);
            let token = arguments.get_text("token"@);
            let handle = arguments.get_text("handle"@);
            let command = arguments.get_text("command"@);
            &&& name == "sudo_enter"@ && token is Some ==> call == Ok::<ToolCallView, ApiErrorView>(
                ToolCallView::Enter { token: token->0 },
            )
            &&& name == "sudo_revoke_token"@ && token is Some ==> call == Ok::<
                ToolCallView,
                ApiErrorView,
            >(ToolCallView::RevokeToken { token: token->0 })
            &&& (name == "sudo_enter"@ || name == "sudo_revoke_token"@) && token is None
                ==> call is Err && call->Err_0.status == 400 && call->Err_0.message
                == "missing string argument: "@ + "token"@
            &&& name == "sudo_destroy_session"@ && handle is Some ==> call == Ok::<
                ToolCallView,
                ApiErrorView,
            >(ToolCallView::DestroySession { handle: handle->0 })
            &&& name == "sudo_run"@ && handle is Some && command is Some ==> call == Ok::<
                ToolCallView,
                ApiErrorView,
            >(
                ToolCallView::Run {
                    handle: handle->0,
                    command: command->0,
                    timeout_seconds: arguments.get_unsigned("timeout_seconds"@),
                },
            )
            &&& (name == "sudo_destroy_session"@ || name == "sudo_run"@) && handle is None
                ==> call is Err && call->Err_0.status == 400 && call->Err_0.message
                == "missing string argument: "@ + "handle"@
            &&& name == "sudo_run"@ && handle is Some && command is None ==> call is Err
                && call->Err_0.status == 400 && call->Err_0.message
                == "missing string argument: "@ + "command"@
            &&& name != "sudo_enter"@ && name != "sudo_run"@ && name != "sudo_destroy_session"@
                && name != "sudo_revoke_token"@ ==> call is Err && call->Err_0.status == 400
                && call->Err_0.message == "unknown tool: "@ + name
        }),
{
    reveal_strlit("sudo_enter");
    reveal_strlit("sudo_run");
    reveal_strlit("sudo_destroy_session");
    reveal_strlit("sudo_revoke_token");
    assert("sudo_enter"@.len() == 10 && "sudo_run"@.len() == 8 && "sudo_destroy_session"@.len()
        == 20 && "sudo_revoke_token"@.len() == 17);
}

/// The tool is the one named in the parameters, and its arguments are those in the parameters;
/// without any it is called with none, and without a name there is no call.
pub proof fn law_calls_are_found_in_the_parameters(params: JsonView)
    ensures
        params.get_text("name"@) is None ==> requested_call(params) is Err && requested_call(
            params,
        )->Err_0.status == 400 && requested_call(params)->Err_0.message == "missing tool name"@,
        params.get_text("name"@) is Some && params.get("arguments"@) is Some ==> requested_call(
            params,
        ) == tool_request(params.get_text("name"@)->0, params.get("arguments"@)->0),
        params.get_text("name"@) is Some && params.get("arguments"@) is None ==> requested_call(
            params,
        ) == tool_request(params.get_text("name"@)->0, JsonView::Object(Seq::empty())),
{
}

/// The refusal of a call without an argument names it.
pub proof fn law_missing_arguments_are_named(name: Seq<char>)
    ensures
        missing_argument(name).status == 400,
        missing_argument(name).message == "missing string argument: "@ + name,
{
}

/// What a method leads to: a greeting, an empty object, the list of the tools, or a tool call;
/// every other method is refused by its name.
pub proof fn law_methods_are_dispatched(method: Seq<char>, params: JsonView)
    ensures
        method == "initialize"@ ==> dispatched(method, params) == Ok::<DispatchView, ApiErrorView>(
            DispatchView::Result(greeting()),
        ),
        method == "ping"@ ==> dispatched(method, params) == Ok::<DispatchView, ApiErrorView>(
            DispatchView::Result(JsonView::Object(Seq::empty())),
        ),
        method == "tools/list"@ ==> dispatched(method, params) == Ok::<DispatchView, ApiErrorView>(
            DispatchView::Result(JsonView::Object(Seq::empty().push(("tools"@, all_tools())))),
        ),
        method == "tools/call"@ && requested_call(params) is Ok ==> dispatched(method, params)
            == Ok::<DispatchView, ApiErrorView>(DispatchView::Call(requested_call(params)->Ok_0)),
        method == "tools/call"@ && requested_call(params) is Err ==> dispatched(method, params)
            == Err::<DispatchView, ApiErrorView>(requested_call(params)->Err_0),
        method != "initialize"@ && method != "ping"@ && method != "tools/list"@ && method
            != "tools/call"@ ==> dispatched(method, params) is Err && dispatched(
            method,
            params,
        )->Err_0.status == 400 && dispatched(method, params)->Err_0.message
            == "unknown MCP method: "@ + method,
{
    reveal_strlit("initialize");
    reveal_strlit("ping");
    reveal_strlit("tools/list");
    reveal_strlit("tools/call");
    assert("initialize"@[0] == 'i' && "ping"@[0] == 'p' && "tools/list"@[0] == 't'
        && "tools/call"@[0] == 't');
    assert("tools/list"@[6] == 'l' && "tools/call"@[6] == 'c');
}

/// What a method leads to holds what its fields hold.
pub proof fn law_outcomes_stand_for_themselves(outcome: Dispatch)
    ensures
        outcome matches Dispatch::Result(value) ==> outcome@ == DispatchView::Result(value@),
        outcome matches Dispatch::Call(call) ==> outcome@ == DispatchView::Call(call@),
{
}

/// A request with an id is answered under that id: with the result of its method, with the
/// tool to call, or with the words of the refusal. One without an id is not answered.
pub proof fn law_requests_are_answered(request: JsonRpcRequest, answer: Answer)
    requires
        answer@ == answer_to(request),
    ensures
        request.id is None ==> answer is Nothing,
        request.id is Some ==> {
            let outcome = dispatched(request.method@, request.params@);
            &&& outcome is Ok && outcome->Ok_0 is Result ==> {
                &&& answer is Reply
                &&& answer->Reply_0@.get("id"@) == Some(request.id->0@)
                &&& answer->Reply_0@.get("result"@) == Some(outcome->Ok_0->Result_0)
                &&& answer->Reply_0@.get("error"@) is None
            }
            &&& outcome is Ok && outcome->Ok_0 is Call ==> {
                &&& answer is Call
                &&& answer->id@ == request.id->0@
                &&& answer->call@ == outcome->Ok_0->Call_0
            }
            &&& outcome is Err ==> {
                &&& answer is Reply
                &&& answer->Reply_0@.get("id"@) == Some(request.id->0@)
                &&& answer->Reply_0@.get("result"@) is None
                &&& answer->Reply_0@.get("error"@)->0.get_text("message"@) == Some(
                    outcome->Err_0.message,
                )
                &&& answer->Reply_0@.get("error"@)->0.get("code"@) == Some(
                    JsonView::Negative(-32602),
                )
            }
        },
{
    if request.id is Some {
        let id = request.id->0@;
        let outcome = dispatched(request.method@, request.params@);
        match outcome {
            Ok(DispatchView::Result(result)) => {
                law_replies_are_complete(id, result, Seq::empty());
                law_reply_carries_the_id(id, result, Seq::empty());
            },
            Ok(DispatchView::Call(_)) => {},
            Err(refusal) => {
                law_replies_are_complete(id, JsonView::Null, refusal.message);
                law_reply_carries_the_id(id, JsonView::Null, refusal.message);
            },
        }
    }
}

} // verus!
