//! The configuration documents: one server entry, the registry of servers
//! that a project keeps, and the preferences that the application keeps for
//! itself.

use crate::names::{distinct, names_of, put, NameMap};
use vstd::prelude::*;

verus! {

/// One MCP server: the command that starts it, its arguments in order, and
/// the environment it runs in. An absent environment is left out of the
/// document; it is not the same as an empty one.
#[derive(Clone, Debug)]
pub struct McpServer {
    pub command: String,
    pub args: Vec<String>,
    pub env: Option<NameMap<String>>,
}

/// The registry of a project: its servers by name.
#[derive(Clone, Debug)]
pub struct McpConfig {
    pub mcp_servers: NameMap<McpServer>,
}

/// What the application remembers between sessions: the servers that were
/// saved, in the order in which they were saved, and the directory that was
/// used last.
#[derive(Clone, Debug)]
pub struct AppConfig {
    pub saved_servers: Vec<(String, McpServer)>,
    pub last_directory: Option<String>,
}

/// The value of an [`McpServer`].
pub struct ServerView {
    pub command: Seq<char>,
    pub args: Seq<Seq<char>>,
    pub env: Option<Seq<(Seq<char>, Seq<char>)>>,
}

/// The value of an [`McpConfig`].
pub struct McpConfigView {
    pub mcp_servers: Seq<(Seq<char>, ServerView)>,
}

/// The value of an [`AppConfig`].
pub struct AppConfigView {
    pub saved_servers: Seq<(Seq<char>, ServerView)>,
    pub last_directory: Option<Seq<char>>,
}

/// The values of a sequence of strings.
pub open spec fn texts(items: Seq<String>) -> Seq<Seq<char>> {
    Seq::new(items.len(), |i: int| items[i]@)
}

/// The value of an environment's entries.
pub open spec fn variables(entries: Seq<(Seq<char>, String)>) -> Seq<(Seq<char>, Seq<char>)> {
    Seq::new(entries.len(), |i: int| (entries[i].0, entries[i].1@))
}

/// The value of a registry's entries.
pub open spec fn registered(entries: Seq<(Seq<char>, McpServer)>) -> Seq<(Seq<char>, ServerView)> {
    Seq::new(entries.len(), |i: int| (entries[i].0, entries[i].1@))
}

/// The value of a list of saved servers.
pub open spec fn saved(entries: Seq<(String, McpServer)>) -> Seq<(Seq<char>, ServerView)> {
    Seq::new(entries.len(), |i: int| (entries[i].0@, entries[i].1@))
}

/// Filing a variable and then taking values is filing the variable's value.
pub proof fn lemma_variables_put(entries: Seq<(Seq<char>, String)>, name: Seq<char>, value: String)
    ensures
        variables(put(entries, name, value)) == put(variables(entries), name, value@),
{
    assert(names_of(variables(entries)) =~= names_of(entries));
    assert(variables(put(entries, name, value)) =~= put(variables(entries), name, value@));
}

/// Filing a server and then taking values is filing the server's value.
pub proof fn lemma_registered_put(
    entries: Seq<(Seq<char>, McpServer)>,
    name: Seq<char>,
    server: McpServer,
)
    ensures
        registered(put(entries, name, server)) == put(registered(entries), name, server@),
{
    assert(names_of(registered(entries)) =~= names_of(entries));
    assert(registered(put(entries, name, server)) =~= put(registered(entries), name, server@));
}

impl View for McpServer {
    type V = ServerView;

    open spec fn view(&self) -> ServerView {
        ServerView {
            command: self.command@,
            args: texts(self.args@),
            env: match self.env {
                Some(env) => Some(variables(env@)),
                None => None,
            },
        }
    }
}

impl View for McpConfig {
    type V = McpConfigView;

    open spec fn view(&self) -> McpConfigView {
        McpConfigView { mcp_servers: registered(self.mcp_servers@) }
    }
}

impl View for AppConfig {
    type V = AppConfigView;

    open spec fn view(&self) -> AppConfigView {
        AppConfigView {
            saved_servers: saved(self.saved_servers@),
            last_directory: match self.last_directory {
                Some(directory) => Some(directory@),
                None => None,
            },
        }
    }
}

impl ServerView {
    /// No variable of the environment occurs twice.
    pub open spec fn well_formed(self) -> bool {
        match self.env {
            Some(env) => distinct(names_of(env)),
            None => true,
        }
    }
}

impl McpConfigView {
    /// No server name occurs twice, and every server is well formed.
    pub open spec fn well_formed(self) -> bool {
        &&& distinct(names_of(self.mcp_servers))
        &&& forall|i: int|
            0 <= i < self.mcp_servers.len() ==> (#[trigger] self.mcp_servers[i]).1.well_formed()
    }
}

impl AppConfigView {
    /// Every saved server is well formed. A name may occur twice.
    pub open spec fn well_formed(self) -> bool {
        forall|i: int|
            0 <= i < self.saved_servers.len() ==> (#[trigger] self.saved_servers[i]).1.well_formed()
    }
}

} // verus!
