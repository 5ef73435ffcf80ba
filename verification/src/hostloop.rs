//! The host side of the bridge: per message from the worker, what the
//! host does — which notification it emits, which tool server it
//! contacts, and which reply it sends back — and how the turn ends.

use vstd::prelude::*;
use crate::session::{EnvVariable, McpServerDesc, SpecEnvVar, SpecServer};
use crate::value::{parse_json_model, parse_json_text, SpecValue, StructuredValue};
use crate::bridge::{RhaiMessage, SpecMessage};

verus! {

/// How one script run ended.
#[derive(Debug)]
pub enum ScriptRunOutcome {
    /// The script ran to completion.
    Completed,
    /// The script failed with a syntax or runtime error.
    ScriptError(String),
    /// The worker thread itself failed.
    WorkerPanicked(String),
}

/// Model of a script run outcome.
pub enum SpecOutcome {
    Completed,
    ScriptError(Seq<char>),
    WorkerPanicked(Seq<char>),
}

impl View for ScriptRunOutcome {
    type V = SpecOutcome;

    open spec fn view(&self) -> SpecOutcome {
        match self {
            ScriptRunOutcome::Completed => SpecOutcome::Completed,
            ScriptRunOutcome::ScriptError(e) => SpecOutcome::ScriptError(e@),
            ScriptRunOutcome::WorkerPanicked(e) => SpecOutcome::WorkerPanicked(e@),
        }
    }
}

/// Status of a reported tool-call-like operation.
#[derive(Clone, Copy, PartialEq, Eq, Structural, Debug)]
pub enum ToolCallStatus {
    Completed,
    Failed,
}

/// Model of an outbound notification.
#[verifier::ext_equal]
pub enum SpecNotification {
    MessageChunk { text: Seq<char> },
    ToolCallUpdate { id: Seq<char>, status: ToolCallStatus, location: Seq<char>, content: Seq<char> },
}

/// An outbound notification of the turn: an incremental piece of agent
/// output, or the progress report of a file write.
#[derive(Debug)]
pub enum Notification {
    MessageChunk { text: String },
    ToolCallUpdate { id: String, status: ToolCallStatus, location: String, content: String },
}

impl View for Notification {
    type V = SpecNotification;

    open spec fn view(&self) -> SpecNotification {
        match self {
            Notification::MessageChunk { text } => SpecNotification::MessageChunk { text: text@ },
            Notification::ToolCallUpdate { id, status, location, content } =>
                SpecNotification::ToolCallUpdate {
                id: id@,
                status: *status,
                location: location@,
                content: content@,
            },
        }
    }
}

/// The error text for a server name no configured server bears.
pub open spec fn not_found_message(name: Seq<char>) -> Seq<char> {
    "MCP server '"@ + name + "' not found"@
}

/// The error text for a server kind that operations do not support.
pub open spec fn sse_unsupported_message() -> Seq<char> {
    "SSE MCP servers are not currently supported"@
}

/// Position `i` holds the first server bearing `name`.
pub open spec fn name_matches_at(servers: Seq<SpecServer>, name: Seq<char>, i: int) -> bool {
    0 <= i < servers.len() && servers[i].name() == name && forall|j: int|
        0 <= j < i ==> (#[trigger] servers[j]).name() != name
}

/// Model of the plan for one tool query.
#[verifier::ext_equal]
pub enum SpecPlan {
    Fail(Seq<char>),
    QueryStdio { command: Seq<char>, args: Seq<Seq<char>>, env: Seq<SpecEnvVar> },
    QueryHttp { url: Seq<char> },
}

/// The plan for one tool query: reply with an error at once, or contact
/// the resolved server one way or the other.
#[derive(Debug)]
pub enum ToolQueryPlan {
    /// Reply to the slot at once with this error message.
    Fail(String),
    /// Spawn this command with these arguments and this environment and
    /// perform the operation over its standard streams.
    QueryStdio { command: String, args: Vec<String>, env: Vec<EnvVariable> },
    /// Connect to this URL and perform the operation over it.
    QueryHttp { url: String },
}

impl View for ToolQueryPlan {
    type V = SpecPlan;

    open spec fn view(&self) -> SpecPlan {
        match self {
            ToolQueryPlan::Fail(m) => SpecPlan::Fail(m@),
            ToolQueryPlan::QueryStdio { command, args, env } => SpecPlan::QueryStdio {
                command: command@,
                args: args.deep_view(),
                env: env.deep_view(),
            },
            ToolQueryPlan::QueryHttp { url } => SpecPlan::QueryHttp { url: url@ },
        }
    }
}

/// The plan a server list and a name determine: the first server bearing
/// the name decides; no server, or an unsupported kind, fails with the
/// exact error text.
pub open spec fn plan_for(servers: Seq<SpecServer>, name: Seq<char>) -> SpecPlan {
    if exists|i: int| name_matches_at(servers, name, i) {
        let i = choose|i: int| name_matches_at(servers, name, i);
        match servers[i] {
            SpecServer::Stdio { command, args, env, .. } => SpecPlan::QueryStdio {
                command: command,
                args: args,
                env: env,
            },
            SpecServer::Http { url, .. } => SpecPlan::QueryHttp { url: url },
            SpecServer::Sse { .. } => SpecPlan::Fail(sse_unsupported_message()),
        }
    } else {
        SpecPlan::Fail(not_found_message(name))
    }
}

/// Only one position holds the first server bearing a name.
pub proof fn lemma_name_match_unique(servers: Seq<SpecServer>, name: Seq<char>, i: int, j: int)
    requires
        name_matches_at(servers, name, i),
        name_matches_at(servers, name, j),
    ensures
        i == j,
{
}

/// Build the error text for a server name no configured server bears.
fn build_not_found(server_name: &String) -> (r: String)
    ensures
        r@ == not_found_message(server_name@),
{
    let mut s = String::from_str("MCP server '");
    s.append(server_name.as_str());
    s.append("' not found");
    s
}

/// Resolve a server name against the session's configured servers and
/// plan the query: the first server bearing the name decides; an absent
/// name or an unsupported server kind becomes an immediate error reply.
pub fn plan_tool_query(servers: &Vec<McpServerDesc>, server_name: &String) -> (r: ToolQueryPlan)
    ensures
        r@ == plan_for(servers.deep_view(), server_name@),
{
    let ghost sv = servers.deep_view();
    let mut i: usize = 0;
    let n = servers.len();
    while i < n
        invariant
            sv == servers.deep_view(),
            n == servers@.len(),
            sv.len() == n,
            i <= n,
            forall|j: int| 0 <= j < i ==> (#[trigger] sv[j]).name() != server_name@,
        decreases n - i,
    {
        proof {
            assert(sv[i as int] == servers@[i as int].deep_view());
        }
        let found = {
            let sname = servers[i].name();
            *sname == *server_name
        };
        if found {
            proof {
                assert(name_matches_at(sv, server_name@, i as int));
                lemma_name_match_unique(
                    sv,
                    server_name@,
                    i as int,
                    choose|k: int| name_matches_at(sv, server_name@, k),
                );
            }
            match &servers[i] {
                McpServerDesc::Stdio { command, args, env, .. } => {
                    let args2 = args.clone();
                    let env2 = env.clone();
                    let r = ToolQueryPlan::QueryStdio {
                        command: command.clone(),
                        args: args2,
                        env: env2,
                    };
                    proof {
                        assert(r@ =~= plan_for(sv, server_name@));
                    }
                    return r;
                },
                McpServerDesc::Http { url, .. } => {
                    return ToolQueryPlan::QueryHttp { url: url.clone() };
                },
                McpServerDesc::Sse { .. } => {
                    return ToolQueryPlan::Fail(
                        String::from_str("SSE MCP servers are not currently supported"),
                    );
                },
            }
        }
        i = i + 1;
    }
    proof {
        assert(forall|k: int| !name_matches_at(sv, server_name@, k));
    }
    ToolQueryPlan::Fail(build_not_found(server_name))
}

/// Build the progress notification for one attempted file write: the
/// fixed identifier, the path as the location, and either the fixed
/// completion text or the rendered error.
pub fn write_file_update(path: String, result: Result<(), String>) -> (n: Notification)
    ensures
        is_write_note(path@, n@),
        result is Ok ==> n@ == (SpecNotification::ToolCallUpdate {
            id: "write_file_id"@,
            status: ToolCallStatus::Completed,
            location: path@,
            content: "Finished writing file."@,
        }),
        result matches Err(e) ==> n@ == (SpecNotification::ToolCallUpdate {
            id: "write_file_id"@,
            status: ToolCallStatus::Failed,
            location: path@,
            content: e@,
        }),
{
    match result {
        Ok(_) => Notification::ToolCallUpdate {
            id: String::from_str("write_file_id"),
            status: ToolCallStatus::Completed,
            location: path,
            content: String::from_str("Finished writing file."),
        },
        Err(e) => Notification::ToolCallUpdate {
            id: String::from_str("write_file_id"),
            status: ToolCallStatus::Failed,
            location: path,
            content: e,
        },
    }
}

/// The one extra notification a finished run yields: none for a
/// completed script, one distinctly prefixed message chunk for a script
/// error or a worker failure. The turn itself still ends normally.
pub fn finish_turn(outcome: ScriptRunOutcome) -> (r: Option<Notification>)
    ensures
        outcome is Completed ==> r is None,
        outcome matches ScriptRunOutcome::ScriptError(e) ==> r matches Some(n) && n@ == (
        SpecNotification::MessageChunk { text: "Rhai error: "@ + e@ }),
        outcome matches ScriptRunOutcome::WorkerPanicked(e) ==> r matches Some(n) && n@ == (
        SpecNotification::MessageChunk { text: "Rhai task panicked: "@ + e@ }),
{
    match outcome {
        ScriptRunOutcome::Completed => None,
        ScriptRunOutcome::ScriptError(e) => {
            let mut s = String::from_str("Rhai error: ");
            s.append(e.as_str());
            Some(Notification::MessageChunk { text: s })
        },
        ScriptRunOutcome::WorkerPanicked(e) => {
            let mut s = String::from_str("Rhai task panicked: ");
            s.append(e.as_str());
            Some(Notification::MessageChunk { text: s })
        },
    }
}

/// What the host does with one message from the worker.
#[derive(Debug)]
pub enum HostAction {
    /// Emit this notification at once.
    Emit(Notification),
    /// Write this file, then emit the notification `write_file_update`
    /// builds from the write's outcome. No reply reaches the script.
    PerformWrite { path: String, content: String },
    /// Service a `tools.list` request: perform the planned query and
    /// reply to the slot with the name list or the error.
    ListQuery { plan: ToolQueryPlan },
    /// Service a `tools.call` request: perform the planned query for
    /// this tool with these arguments and reply to the slot with the
    /// result or the error.
    CallQuery { plan: ToolQueryPlan, tool: String, args: StructuredValue },
}

/// Decide what the host does with one message from the worker. Messages
/// are serviced strictly one at a time, in order: only a `Say` emits a
/// message chunk during draining, and each request message is answered
/// through its own slot.
pub fn plan_message(servers: &Vec<McpServerDesc>, msg: RhaiMessage) -> (a: HostAction)
    ensures
        msg matches RhaiMessage::Say(t) ==> a matches HostAction::Emit(n) && n@ == (
        SpecNotification::MessageChunk { text: t@ }),
        msg matches RhaiMessage::WriteFile { path, content } ==> a matches
            HostAction::PerformWrite { path: p, content: c } && p == path && c == content,
        msg matches RhaiMessage::ListTools { server } ==> a matches HostAction::ListQuery {
            plan,
        } && plan@ == plan_for(servers.deep_view(), server@),
        msg matches RhaiMessage::CallTool { server, tool, args } ==> a matches
            HostAction::CallQuery { plan, tool: t, args: ar } && plan@ == plan_for(
            servers.deep_view(),
            server@,
        ) && t == tool && ar == args,
{
    match msg {
        RhaiMessage::Say(t) => HostAction::Emit(Notification::MessageChunk { text: t }),
        RhaiMessage::WriteFile { path, content } => HostAction::PerformWrite { path, content },
        RhaiMessage::ListTools { server } => HostAction::ListQuery {
            plan: plan_tool_query(servers, &server),
        },
        RhaiMessage::CallTool { server, tool, args } => HostAction::CallQuery {
            plan: plan_tool_query(servers, &server),
            tool,
            args,
        },
    }
}

/// Content of one item a tool call returned: a text item carries its
/// text; every other item kind is opaque to the bridge.
#[derive(Debug)]
pub enum ToolContent {
    Text(String),
    Other,
}

/// Model of one returned content item.
pub enum SpecToolContent {
    Text(Seq<char>),
    Other,
}

impl View for ToolContent {
    type V = SpecToolContent;

    open spec fn view(&self) -> SpecToolContent {
        match self {
            ToolContent::Text(t) => SpecToolContent::Text(t@),
            ToolContent::Other => SpecToolContent::Other,
        }
    }
}

/// Extract the value of a tool call's result: a structured payload wins
/// as it stands; otherwise the first content item, if it is text, parsed
/// as JSON, or kept as a plain string if it does not parse; otherwise
/// the call failed with the exact no-content error.
pub fn extract_tool_result(structured: Option<StructuredValue>, content: &Vec<ToolContent>) -> (r:
    Result<StructuredValue, String>)
    ensures
        structured matches Some(v) ==> r == Ok::<StructuredValue, String>(v),
        structured is None && content@.len() > 0 ==> (content@[0] matches ToolContent::Text(t)
            ==> match parse_json_model(t@) {
            Some(m) => (r matches Ok(out) && out@ == m),
            None => (r matches Ok(out) && out@ == SpecValue::Str(t@)),
        }),
        structured is None && (content@.len() == 0 || content@[0] is Other) ==> (r matches Err(e)
            && e@ == "Tool returned no content"@),
{
    match structured {
        Some(v) => Ok(v),
        None => {
            if content.len() > 0 {
                match &content[0] {
                    ToolContent::Text(t) => match parse_json_text(t.as_str()) {
                        Some(v) => Ok(v),
                        None => Ok(StructuredValue::Str(t.clone())),
                    },
                    ToolContent::Other => Err(String::from_str("Tool returned no content")),
                }
            } else {
                Err(String::from_str("Tool returned no content"))
            }
        },
    }
}

/// The texts passed to `say`, in order.
pub open spec fn say_texts(msgs: Seq<SpecMessage>) -> Seq<Seq<char>>
    decreases msgs.len(),
{
    if msgs.len() == 0 {
        Seq::empty()
    } else {
        let rest = say_texts(msgs.drop_first());
        match msgs[0] {
            SpecMessage::Say(t) => seq![t] + rest,
            _ => rest,
        }
    }
}

/// The texts of the message chunks in a notification stream, in order.
pub open spec fn chunk_texts(notes: Seq<SpecNotification>) -> Seq<Seq<char>>
    decreases notes.len(),
{
    if notes.len() == 0 {
        Seq::empty()
    } else {
        let rest = chunk_texts(notes.drop_first());
        match notes[0] {
            SpecNotification::MessageChunk { text } => seq![text] + rest,
            _ => rest,
        }
    }
}

/// The concatenation of the parts, in order.
pub open spec fn concat_texts(parts: Seq<Seq<char>>) -> Seq<char>
    decreases parts.len(),
{
    if parts.len() == 0 {
        Seq::empty()
    } else {
        parts[0] + concat_texts(parts.drop_first())
    }
}

/// The notification one attempted write yields: a tool-call update under
/// the fixed identifier with the path as its location — never a chunk.
pub open spec fn is_write_note(path: Seq<char>, n: SpecNotification) -> bool {
    match n {
        SpecNotification::ToolCallUpdate { id, status, location, content } => id
            == "write_file_id"@ && location == path && (status == ToolCallStatus::Completed
            ==> content == "Finished writing file."@),
        _ => false,
    }
}

/// The notification stream the host emits while draining messages, in
/// order: one chunk per `say`, one write update per `write_file`, and
/// nothing for the request messages, which are answered through their
/// reply slots.
pub open spec fn is_drain_notes(msgs: Seq<SpecMessage>, notes: Seq<SpecNotification>) -> bool
    decreases msgs.len(),
{
    if msgs.len() == 0 {
        notes.len() == 0
    } else {
        match msgs[0] {
            SpecMessage::Say(t) => notes.len() > 0 && notes[0] == (SpecNotification::MessageChunk {
                text: t,
            }) && is_drain_notes(msgs.drop_first(), notes.drop_first()),
            SpecMessage::WriteFile { path, .. } => notes.len() > 0 && is_write_note(path, notes[0])
                && is_drain_notes(msgs.drop_first(), notes.drop_first()),
            _ => is_drain_notes(msgs.drop_first(), notes),
        }
    }
}

/// The full notification stream of one turn: what draining emitted,
/// then, for a failed run only, exactly one distinctly prefixed chunk.
/// The turn's response is a normal end of turn either way.
pub open spec fn is_turn_notes(
    msgs: Seq<SpecMessage>,
    outcome: SpecOutcome,
    notes: Seq<SpecNotification>,
) -> bool {
    match outcome {
        SpecOutcome::Completed => is_drain_notes(msgs, notes),
        SpecOutcome::ScriptError(e) => notes.len() > 0 && is_drain_notes(msgs, notes.drop_last())
            && notes.last() == (SpecNotification::MessageChunk { text: "Rhai error: "@ + e }),
        SpecOutcome::WorkerPanicked(e) => notes.len() > 0 && is_drain_notes(
            msgs,
            notes.drop_last(),
        ) && notes.last() == (SpecNotification::MessageChunk {
            text: "Rhai task panicked: "@ + e,
        }),
    }
}

/// Over one draining phase, the message chunks are exactly the `say`
/// texts, in order, with no interleaving from any other message kind.
pub proof fn lemma_say_stream(msgs: Seq<SpecMessage>, notes: Seq<SpecNotification>)
    requires
        is_drain_notes(msgs, notes),
    ensures
        chunk_texts(notes) == say_texts(msgs),
    decreases msgs.len(),
{
    if msgs.len() == 0 {
    } else {
        match msgs[0] {
            SpecMessage::Say(t) => {
                lemma_say_stream(msgs.drop_first(), notes.drop_first());
            },
            SpecMessage::WriteFile { .. } => {
                lemma_say_stream(msgs.drop_first(), notes.drop_first());
            },
            _ => {
                lemma_say_stream(msgs.drop_first(), notes);
            },
        }
    }
}

/// For a completed turn, the observed output — the concatenation of the
/// streamed chunks — equals the ordered concatenation of the `say`
/// arguments.
pub proof fn lemma_completed_turn_output(msgs: Seq<SpecMessage>, notes: Seq<SpecNotification>)
    requires
        is_turn_notes(msgs, SpecOutcome::Completed, notes),
    ensures
        chunk_texts(notes) == say_texts(msgs),
        concat_texts(chunk_texts(notes)) == concat_texts(say_texts(msgs)),
{
    lemma_say_stream(msgs, notes);
}

/// A script that fails before sending anything yields exactly one
/// notification: one message chunk carrying the script-error prefix.
pub proof fn lemma_script_error_single_note(e: Seq<char>, notes: Seq<SpecNotification>)
    requires
        is_turn_notes(Seq::empty(), SpecOutcome::ScriptError(e), notes),
    ensures
        notes.len() == 1,
        notes[0] == (SpecNotification::MessageChunk { text: "Rhai error: "@ + e }),
{
    assert(notes.drop_last().len() == 0);
}

/// The first server bearing a name decides the whole plan: resolution
/// is by list order, and later servers with the same name never matter.
pub proof fn lemma_first_match_decides(servers: Seq<SpecServer>, name: Seq<char>, i: int)
    requires
        name_matches_at(servers, name, i),
    ensures
        match servers[i] {
            SpecServer::Stdio { command, args, env, .. } => plan_for(servers, name) == (
            SpecPlan::QueryStdio { command, args, env }),
            SpecServer::Http { url, .. } => plan_for(servers, name) == (SpecPlan::QueryHttp {
                url,
            }),
            SpecServer::Sse { .. } => plan_for(servers, name) == SpecPlan::Fail(
                sse_unsupported_message(),
            ),
        },
{
    lemma_name_match_unique(servers, name, i, choose|k: int| name_matches_at(servers, name, k));
}

/// Looking up a server name that no configured server bears plans an
/// immediate error reply carrying the exact not-found text, and never
/// contacts anything.
pub proof fn lemma_unknown_server_fails(servers: Seq<SpecServer>, name: Seq<char>)
    requires
        forall|i: int| 0 <= i < servers.len() ==> (#[trigger] servers[i]).name() != name,
    ensures
        plan_for(servers, name) == SpecPlan::Fail(not_found_message(name)),
{
    assert(forall|i: int| !name_matches_at(servers, name, i));
}

} // verus!
