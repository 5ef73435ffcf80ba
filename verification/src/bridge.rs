//! The worker side of the bridge: the messages a running script sends to
//! the host, and the dynamic values the script observes for each possible
//! reading of a reply slot.

use vstd::prelude::*;
use crate::text::starts_with;
use crate::value::{json_to_dynamic, spec_decode, DynValue, SpecDyn, StructuredValue, SpecValue};

verus! {

/// Model of a message from the script worker to the host.
pub enum SpecMessage {
    Say(Seq<char>),
    ListTools { server: Seq<char> },
    CallTool { server: Seq<char>, tool: Seq<char>, args: SpecValue },
    WriteFile { path: Seq<char>, content: Seq<char> },
}

/// A message from the script worker to the host. `Say` and `WriteFile`
/// are fire-and-forget; `ListTools` and `CallTool` each carry, in the
/// transport around this type, a single-use reply slot the worker blocks
/// on.
#[derive(Debug)]
pub enum RhaiMessage {
    /// Stream this text to the client.
    Say(String),
    /// List the tools of the named server.
    ListTools { server: String },
    /// Call a tool on the named server with these arguments.
    CallTool { server: String, tool: String, args: StructuredValue },
    /// Write a file on disk.
    WriteFile { path: String, content: String },
}

impl View for RhaiMessage {
    type V = SpecMessage;

    open spec fn view(&self) -> SpecMessage {
        match self {
            RhaiMessage::Say(t) => SpecMessage::Say(t@),
            RhaiMessage::ListTools { server } => SpecMessage::ListTools { server: server@ },
            RhaiMessage::CallTool { server, tool, args } => SpecMessage::CallTool {
                server: server@,
                tool: tool@,
                args: args@,
            },
            RhaiMessage::WriteFile { path, content } => SpecMessage::WriteFile {
                path: path@,
                content: content@,
            },
        }
    }
}

/// What the worker observes when it blocks on a reply slot: a reply, or
/// a slot dropped without one.
#[derive(Debug)]
pub enum SlotRead<T> {
    Reply(T),
    Closed,
}

/// The dynamic value standing for a list of tool names: an array of
/// strings, in order.
pub open spec fn names_value(names: Seq<Seq<char>>) -> SpecDyn {
    SpecDyn::Arr(Seq::new(names.len(), |i: int| SpecDyn::Str(names[i])))
}

/// The dynamic value the script sees for a reply carrying an error
/// message: the message behind a fixed error marker.
pub open spec fn error_value(message: Seq<char>) -> SpecDyn {
    SpecDyn::Str("ERROR: "@ + message)
}

/// The dynamic value the script sees when the slot closed without a
/// reply.
pub open spec fn closed_value() -> SpecDyn {
    SpecDyn::Str("ERROR: Channel closed"@)
}

/// The value a `tools.list` call returns to the script for each possible
/// reading of its reply slot. Every failure becomes a plain string
/// carrying the error marker; nothing is raised.
pub fn list_tools_value(read: SlotRead<Result<Vec<String>, String>>) -> (r: DynValue)
    ensures
        (read matches SlotRead::Reply(Ok(tools)) ==> r@ == names_value(tools.deep_view())),
        (read matches SlotRead::Reply(Err(e)) ==> r@ == error_value(e@)),
        (read is Closed ==> r@ == closed_value()),
{
    match read {
        SlotRead::Reply(Ok(tools)) => {
            let mut out: Vec<DynValue> = Vec::new();
            let mut i: usize = 0;
            let n = tools.len();
            #[verifier::loop_isolation(false)]
            while i < n
                invariant
                    i <= n,
                    out@.len() == i,
                    forall|j: int|
                        0 <= j < i ==> crate::value::dv_model(#[trigger] out@[j]) == SpecDyn::Str(
                            tools@[j]@,
                        ),
                decreases n - i,
            {
                out.push(DynValue::Str(tools[i].clone()));
                i = i + 1;
            }
            let r = DynValue::Arr(out);
            proof {
                assert(r@->Arr_0 =~= names_value(tools.deep_view())->Arr_0);
                assert(r@ =~= names_value(tools.deep_view()));
            }
            r
        },
        SlotRead::Reply(Err(e)) => {
            let mut s = String::from_str("ERROR: ");
            s.append(e.as_str());
            DynValue::Str(s)
        },
        SlotRead::Closed => DynValue::Str(String::from_str("ERROR: Channel closed")),
    }
}

/// The value a `tools.call` call returns to the script for each possible
/// reading of its reply slot: a successful result is decoded into a
/// dynamic value; every failure becomes a plain string carrying the
/// error marker.
pub fn call_tool_value(read: SlotRead<Result<StructuredValue, String>>) -> (r: DynValue)
    ensures
        (read matches SlotRead::Reply(Ok(v)) ==> r@ == spec_decode(v@)),
        (read matches SlotRead::Reply(Err(e)) ==> r@ == error_value(e@)),
        (read is Closed ==> r@ == closed_value()),
{
    match read {
        SlotRead::Reply(Ok(v)) => json_to_dynamic(&v),
        SlotRead::Reply(Err(e)) => {
            let mut s = String::from_str("ERROR: ");
            s.append(e.as_str());
            DynValue::Str(s)
        },
        SlotRead::Closed => DynValue::Str(String::from_str("ERROR: Channel closed")),
    }
}

/// Every failure a reply slot can hand the script — an error reply or a
/// slot closed without one — reaches it as a plain string value that
/// starts with the error marker; nothing is raised.
pub proof fn lemma_failures_are_marked_strings(message: Seq<char>)
    ensures
        error_value(message) matches SpecDyn::Str(t) && starts_with(t, "ERROR: "@),
        closed_value() matches SpecDyn::Str(c) && starts_with(c, "ERROR: "@),
{
    reveal_strlit("ERROR: ");
    reveal_strlit("ERROR: Channel closed");
    assert(("ERROR: "@ + message).subrange(0, "ERROR: "@.len() as int) =~= "ERROR: "@);
    assert("ERROR: Channel closed"@.subrange(0, "ERROR: "@.len() as int) =~= "ERROR: "@);
}

} // verus!
