//! Session bookkeeping: each session id maps to the ordered list of tool
//! servers configured for it.

use vstd::prelude::*;

verus! {

/// Model of one environment variable.
pub struct SpecEnvVar {
    pub name: Seq<char>,
    pub value: Seq<char>,
}

/// Model of a configured tool server.
#[verifier::ext_equal]
pub enum SpecServer {
    Stdio { name: Seq<char>, command: Seq<char>, args: Seq<Seq<char>>, env: Seq<SpecEnvVar> },
    Http { name: Seq<char>, url: Seq<char> },
    Sse { name: Seq<char> },
}

impl SpecServer {
    /// The name under which this server is looked up.
    pub open spec fn name(&self) -> Seq<char> {
        match *self {
            SpecServer::Stdio { name, .. } => name,
            SpecServer::Http { name, .. } => name,
            SpecServer::Sse { name } => name,
        }
    }
}

/// One environment variable handed to a spawned tool-server process.
#[derive(Debug)]
pub struct EnvVariable {
    pub name: String,
    pub value: String,
}

/// A configured tool server: how to reach it, keyed by its name.
/// The `Sse` kind is recognized but not supported for operations.
#[derive(Debug)]
pub enum McpServerDesc {
    Stdio { name: String, command: String, args: Vec<String>, env: Vec<EnvVariable> },
    Http { name: String, url: String },
    Sse { name: String },
}

impl View for EnvVariable {
    type V = SpecEnvVar;

    open spec fn view(&self) -> SpecEnvVar {
        SpecEnvVar { name: self.name@, value: self.value@ }
    }
}

impl DeepView for EnvVariable {
    type V = SpecEnvVar;

    open spec fn deep_view(&self) -> SpecEnvVar {
        self.view()
    }
}

impl View for McpServerDesc {
    type V = SpecServer;

    open spec fn view(&self) -> SpecServer {
        match self {
            McpServerDesc::Stdio { name, command, args, env } => SpecServer::Stdio {
                name: name@,
                command: command@,
                args: args.deep_view(),
                env: env.deep_view(),
            },
            McpServerDesc::Http { name, url } => SpecServer::Http { name: name@, url: url@ },
            McpServerDesc::Sse { name } => SpecServer::Sse { name: name@ },
        }
    }
}

impl DeepView for McpServerDesc {
    type V = SpecServer;

    open spec fn deep_view(&self) -> SpecServer {
        self.view()
    }
}

impl Clone for EnvVariable {
    fn clone(&self) -> (res: Self)
        ensures
            res == *self,
    {
        EnvVariable { name: self.name.clone(), value: self.value.clone() }
    }
}

impl Clone for McpServerDesc {
    fn clone(&self) -> (res: Self)
        ensures
            res@ == self@,
    {
        match self {
            McpServerDesc::Stdio { name, command, args, env } => {
                let args2 = args.clone();
                let env2 = env.clone();
                let res = McpServerDesc::Stdio {
                    name: name.clone(),
                    command: command.clone(),
                    args: args2,
                    env: env2,
                };
                proof {
                    assert(res@ =~= self@);
                }
                res
            },
            McpServerDesc::Http { name, url } => McpServerDesc::Http {
                name: name.clone(),
                url: url.clone(),
            },
            McpServerDesc::Sse { name } => McpServerDesc::Sse { name: name.clone() },
        }
    }
}

impl McpServerDesc {
    /// The name under which this server is looked up.
    pub fn name(&self) -> (r: &String)
        ensures
            r@ == self@.name(),
    {
        match self {
            McpServerDesc::Stdio { name, .. } => name,
            McpServerDesc::Http { name, .. } => name,
            McpServerDesc::Sse { name } => name,
        }
    }
}

/// The agent: the registry of sessions. Each session id maps to the tool
/// servers configured when the session was created or last overwritten.
pub struct RhaiAgent {
    entries: Vec<(String, Vec<McpServerDesc>)>,
}

/// The registry a list of entries denotes: later entries overwrite
/// earlier ones with the same id.
spec fn registry_model(entries: Seq<(String, Vec<McpServerDesc>)>) -> Map<
    Seq<char>,
    Seq<SpecServer>,
>
    decreases entries.len(),
{
    if entries.len() == 0 {
        Map::empty()
    } else {
        registry_model(entries.drop_last()).insert(entries.last().0@, entries.last().1.deep_view())
    }
}

impl View for RhaiAgent {
    type V = Map<Seq<char>, Seq<SpecServer>>;

    closed spec fn view(&self) -> Map<Seq<char>, Seq<SpecServer>> {
        registry_model(self.entries@)
    }
}

impl RhaiAgent {
    /// No two entries share an id, so an entry's value is the value the
    /// registry maps its id to.
    pub closed spec fn wf(&self) -> bool {
        forall|i: int, j: int|
            0 <= i < j < self.entries@.len() ==> (#[trigger] self.entries@[i]).0@ != (
            #[trigger] self.entries@[j]).0@
    }

    /// A fresh agent with no sessions.
    pub fn new() -> (r: Self)
        ensures
            r@ == Map::<Seq<char>, Seq<SpecServer>>::empty(),
            r.wf(),
    {
        RhaiAgent { entries: Vec::new() }
    }

    /// Record the tool servers for a session id, overwriting any earlier
    /// list under the same id.
    #[verifier::loop_isolation(false)]
    pub fn create_session(&mut self, session_id: &String, mcp_servers: Vec<McpServerDesc>)
        requires
            old(self).wf(),
        ensures
            final(self).wf(),
            final(self)@ == old(self)@.insert(session_id@, mcp_servers.deep_view()),
    {
        let ghost servers_view = mcp_servers.deep_view();
        let mut i: usize = 0;
        let n = self.entries.len();
        while i < n
            invariant
                self.entries@ == old(self).entries@,
                n == self.entries@.len(),
                i <= n,
                forall|j: int| 0 <= j < i ==> (#[trigger] self.entries@[j]).0@ != session_id@,
            decreases n - i,
        {
            if self.entries[i].0 == *session_id {
                let ghost old_entries = self.entries@;
                let pair = (session_id.clone(), mcp_servers);
                let ghost new_entry = pair;
                self.entries.set(i, pair);
                proof {
                    lemma_registry_update(old_entries, i as int, new_entry);
                    assert forall|a: int, b: int|
                        0 <= a < b < self.entries@.len() implies (
                    #[trigger] self.entries@[a]).0@ != (#[trigger] self.entries@[b]).0@ by {
                        assert(old_entries[a].0@ != old_entries[b].0@);
                    }
                }
                return ;
            }
            i = i + 1;
        }
        let ghost old_entries = self.entries@;
        self.entries.push((session_id.clone(), mcp_servers));
        proof {
            assert(self.entries@.drop_last() =~= old_entries);
            assert(self.entries@.last().0@ == session_id@);
            assert forall|a: int, b: int|
                0 <= a < b < self.entries@.len() implies (#[trigger] self.entries@[a]).0@ != (
            #[trigger] self.entries@[b]).0@ by {
                if b < old_entries.len() {
                    assert(old_entries[a].0@ != old_entries[b].0@);
                } else {
                    assert(old_entries[a].0@ != session_id@);
                }
            }
        }
    }

    /// The tool servers of a session, or nothing if the id is unknown.
    #[verifier::loop_isolation(false)]
    pub fn get_mcp_servers(&self, session_id: &String) -> (r: Option<Vec<McpServerDesc>>)
        requires
            self.wf(),
        ensures
            match r {
                Some(servers) => self@.contains_key(session_id@) && servers.deep_view()
                    == self@[session_id@],
                None => !self@.contains_key(session_id@),
            },
    {
        let mut i: usize = 0;
        let n = self.entries.len();
        while i < n
            invariant
                n == self.entries@.len(),
                i <= n,
                forall|j: int| 0 <= j < i ==> (#[trigger] self.entries@[j]).0@ != session_id@,
            decreases n - i,
        {
            if self.entries[i].0 == *session_id {
                let servers = self.entries[i].1.clone();
                proof {
                    assert(servers.deep_view() =~= self.entries@[i as int].1.deep_view());
                    lemma_registry_lookup(self.entries@, i as int);
                }
                return Some(servers);
            }
            i = i + 1;
        }
        proof {
            lemma_registry_absent(self.entries@, session_id@);
        }
        None
    }
}

impl Default for RhaiAgent {
    fn default() -> (r: Self)
        ensures
            r@ == Map::<Seq<char>, Seq<SpecServer>>::empty(),
            r.wf(),
    {
        RhaiAgent::new()
    }
}

/// Replacing the entry at `i` with one bearing the same id maps the
/// registry to the new value, exactly as an insert does.
proof fn lemma_registry_update(
    entries: Seq<(String, Vec<McpServerDesc>)>,
    i: int,
    e: (String, Vec<McpServerDesc>),
)
    requires
        0 <= i < entries.len(),
        entries[i].0@ == e.0@,
        forall|a: int, b: int|
            0 <= a < b < entries.len() ==> (#[trigger] entries[a]).0@ != (#[trigger] entries[b]).0@,
    ensures
        registry_model(entries.update(i, e)) == registry_model(entries).insert(
            e.0@,
            e.1.deep_view(),
        ),
    decreases entries.len(),
{
    let id = e.0@;
    let servers = e.1.deep_view();
    let updated = entries.update(i, e);
    if i == entries.len() - 1 {
        assert(updated.drop_last() =~= entries.drop_last());
        assert(updated.last() == e);
        assert(registry_model(updated) =~= registry_model(entries).insert(id, servers));
    } else {
        assert(updated.drop_last() =~= entries.drop_last().update(i, e));
        assert(updated.last() == entries.last());
        lemma_registry_update(entries.drop_last(), i, e);
        let front = registry_model(entries.drop_last());
        assert(registry_model(updated.drop_last()) == front.insert(id, servers));
        assert(entries.last().0@ != id);
        assert(front.insert(id, servers).insert(entries.last().0@, entries.last().1.deep_view())
            =~= front.insert(entries.last().0@, entries.last().1.deep_view()).insert(id, servers));
    }
}

/// The entry bearing an id gives the registry's value for it.
proof fn lemma_registry_lookup(entries: Seq<(String, Vec<McpServerDesc>)>, i: int)
    requires
        0 <= i < entries.len(),
        forall|a: int, b: int|
            0 <= a < b < entries.len() ==> (#[trigger] entries[a]).0@ != (#[trigger] entries[b]).0@,
    ensures
        registry_model(entries).contains_key(entries[i].0@),
        registry_model(entries)[entries[i].0@] == entries[i].1.deep_view(),
    decreases entries.len(),
{
    if i == entries.len() - 1 {
    } else {
        lemma_registry_lookup(entries.drop_last(), i);
        assert(entries.last().0@ != entries[i].0@);
    }
}

/// An id no entry bears is absent from the registry.
proof fn lemma_registry_absent(entries: Seq<(String, Vec<McpServerDesc>)>, id: Seq<char>)
    requires
        forall|j: int| 0 <= j < entries.len() ==> (#[trigger] entries[j]).0@ != id,
    ensures
        !registry_model(entries).contains_key(id),
    decreases entries.len(),
{
    if entries.len() > 0 {
        lemma_registry_absent(entries.drop_last(), id);
    }
}

} // verus!
