//! The JSON shape of the configuration documents: which tree stands for a
//! configuration, and which configuration a tree stands for.

use crate::error::{Field, ShapeError};
use crate::json::{items_view, member, members_view, Json, JsonView};
use crate::model::{
    lemma_registered_put, lemma_variables_put, registered, saved, texts, variables, AppConfig,
    AppConfigView, McpConfig, McpConfigView, McpServer, ServerView,
};
use crate::names::{file_all, lookup, names_of, put, NameMap};
use vstd::prelude::*;

verus! {

/// The JSON strings of a list of texts.
pub open spec fn text_items(items: Seq<Seq<char>>) -> Seq<JsonView> {
    Seq::new(items.len(), |i: int| JsonView::Text(items[i]))
}

/// The members of the object of JSON strings that stands for an environment.
pub open spec fn text_members(env: Seq<(Seq<char>, Seq<char>)>) -> Seq<(Seq<char>, JsonView)> {
    Seq::new(env.len(), |i: int| (env[i].0, JsonView::Text(env[i].1)))
}

/// The tree that stands for a server: an object with `command`, `args` and,
/// where the server has an environment, `env`, in this order.
pub open spec fn server_tree(server: ServerView) -> JsonView {
    let always = seq![
        ("command"@, JsonView::Text(server.command)),
        ("args"@, JsonView::Array(text_items(server.args))),
    ];
    JsonView::Object(
        match server.env {
            Some(env) => always.push(("env"@, JsonView::Object(text_members(env)))),
            None => always,
        },
    )
}

/// The members of `mcpServers`: each server's tree under the server's name.
pub open spec fn server_members(servers: Seq<(Seq<char>, ServerView)>) -> Seq<
    (Seq<char>, JsonView),
> {
    Seq::new(servers.len(), |i: int| (servers[i].0, server_tree(servers[i].1)))
}

/// The tree that stands for a project configuration.
pub open spec fn project_tree(config: McpConfigView) -> JsonView {
    JsonView::Object(
        seq![("mcpServers"@, JsonView::Object(server_members(config.mcp_servers)))],
    )
}

/// The tree that stands for a saved server: an array of its name and its
/// server entry.
pub open spec fn saved_server_tree(entry: (Seq<char>, ServerView)) -> JsonView {
    JsonView::Array(seq![JsonView::Text(entry.0), server_tree(entry.1)])
}

/// The items of `saved_servers`, in order.
pub open spec fn saved_items(saved_servers: Seq<(Seq<char>, ServerView)>) -> Seq<JsonView> {
    Seq::new(saved_servers.len(), |i: int| saved_server_tree(saved_servers[i]))
}

/// The tree that stands for the application's preferences: an object with
/// `saved_servers` and `last_directory`, in this order; an absent directory
/// is written as null.
pub open spec fn app_tree(config: AppConfigView) -> JsonView {
    JsonView::Object(
        seq![
            ("saved_servers"@, JsonView::Array(saved_items(config.saved_servers))),
            (
                "last_directory"@,
                match config.last_directory {
                    Some(directory) => JsonView::Text(directory),
                    None => JsonView::Null,
                },
            ),
        ],
    )
}

/// The texts of a list of JSON strings, where every item is one.
pub open spec fn texts_of(items: Seq<JsonView>) -> Option<Seq<Seq<char>>> {
    if forall|i: int| 0 <= i < items.len() ==> (#[trigger] items[i]) is Text {
        Some(Seq::new(items.len(), |i: int| items[i]->Text_0))
    } else {
        None
    }
}

/// The members of an object of JSON strings, each name with its text.
pub open spec fn named_texts(members: Seq<(Seq<char>, JsonView)>) -> Seq<(Seq<char>, Seq<char>)> {
    Seq::new(members.len(), |i: int| (members[i].0, members[i].1->Text_0))
}

/// The environment that an object of JSON strings stands for, where every
/// member is a string: the members filed in turn.
pub open spec fn variables_of(members: Seq<(Seq<char>, JsonView)>) -> Option<
    Seq<(Seq<char>, Seq<char>)>,
> {
    if forall|i: int| 0 <= i < members.len() ==> (#[trigger] members[i]).1 is Text {
        Some(file_all(Seq::empty(), named_texts(members)))
    } else {
        None
    }
}

/// The command of a server entry: the string under `command`.
pub open spec fn command_of(members: Seq<(Seq<char>, JsonView)>) -> Result<Seq<char>, ShapeError> {
    match lookup(members, "command"@) {
        None => Err(ShapeError::Missing(Field::Command)),
        Some(JsonView::Text(command)) => Ok(command),
        Some(_) => Err(ShapeError::Mismatch(Field::Command)),
    }
}

/// The arguments of a server entry: the array of strings under `args`.
pub open spec fn args_of(members: Seq<(Seq<char>, JsonView)>) -> Result<
    Seq<Seq<char>>,
    ShapeError,
> {
    match lookup(members, "args"@) {
        None => Err(ShapeError::Missing(Field::Args)),
        Some(JsonView::Array(items)) => match texts_of(items) {
            Some(args) => Ok(args),
            None => Err(ShapeError::Mismatch(Field::Args)),
        },
        Some(_) => Err(ShapeError::Mismatch(Field::Args)),
    }
}

/// The environment of a server entry: none where `env` is absent or null,
/// else the object of strings under `env`.
pub open spec fn env_of(members: Seq<(Seq<char>, JsonView)>) -> Result<
    Option<Seq<(Seq<char>, Seq<char>)>>,
    ShapeError,
> {
    match lookup(members, "env"@) {
        None => Ok(None),
        Some(JsonView::Null) => Ok(None),
        Some(JsonView::Object(entries)) => match variables_of(entries) {
            Some(env) => Ok(Some(env)),
            None => Err(ShapeError::Mismatch(Field::Env)),
        },
        Some(_) => Err(ShapeError::Mismatch(Field::Env)),
    }
}

/// The server that a tree stands for: an object with `command`, `args` and
/// perhaps `env`, looked at in this order. Other members are passed over.
pub open spec fn server_of(tree: JsonView) -> Result<ServerView, ShapeError> {
    match tree {
        JsonView::Object(members) => match command_of(members) {
            Err(e) => Err(e),
            Ok(command) => match args_of(members) {
                Err(e) => Err(e),
                Ok(args) => match env_of(members) {
                    Err(e) => Err(e),
                    Ok(env) => Ok(ServerView { command, args, env }),
                },
            },
        },
        _ => Err(ShapeError::Mismatch(Field::Server)),
    }
}

/// The servers that the members of `mcpServers` stand for, filed in turn
/// behind `done`. The first member that is no server decides the error.
pub open spec fn servers_of(
    done: Seq<(Seq<char>, ServerView)>,
    rest: Seq<(Seq<char>, JsonView)>,
) -> Result<Seq<(Seq<char>, ServerView)>, ShapeError>
    decreases rest.len(),
{
    if rest.len() == 0 {
        Ok(done)
    } else {
        match server_of(rest[0].1) {
            Err(e) => Err(e),
            Ok(server) => servers_of(put(done, rest[0].0, server), rest.drop_first()),
        }
    }
}

/// The project configuration that a tree stands for: an object whose
/// `mcpServers` is an object of server entries.
pub open spec fn project_of(tree: JsonView) -> Result<McpConfigView, ShapeError> {
    match tree {
        JsonView::Object(members) => match lookup(members, "mcpServers"@) {
            None => Err(ShapeError::Missing(Field::McpServers)),
            Some(JsonView::Object(entries)) => match servers_of(Seq::empty(), entries) {
                Err(e) => Err(e),
                Ok(servers) => Ok(McpConfigView { mcp_servers: servers }),
            },
            Some(_) => Err(ShapeError::Mismatch(Field::McpServers)),
        },
        _ => Err(ShapeError::Mismatch(Field::Document)),
    }
}

/// The saved server that a tree stands for: an array of a name and a server
/// entry, and nothing else.
pub open spec fn saved_server_of(item: JsonView) -> Result<(Seq<char>, ServerView), ShapeError> {
    match item {
        JsonView::Array(pair) => if pair.len() == 2 {
            match pair[0] {
                JsonView::Text(name) => match server_of(pair[1]) {
                    Err(e) => Err(e),
                    Ok(server) => Ok((name, server)),
                },
                _ => Err(ShapeError::Mismatch(Field::SavedServer)),
            }
        } else {
            Err(ShapeError::Mismatch(Field::SavedServer))
        },
        _ => Err(ShapeError::Mismatch(Field::SavedServer)),
    }
}

/// The saved servers that the items of `saved_servers` stand for, in order,
/// behind `done`. The first item that is no saved server decides the error.
pub open spec fn saved_servers_of(
    done: Seq<(Seq<char>, ServerView)>,
    rest: Seq<JsonView>,
) -> Result<Seq<(Seq<char>, ServerView)>, ShapeError>
    decreases rest.len(),
{
    if rest.len() == 0 {
        Ok(done)
    } else {
        match saved_server_of(rest[0]) {
            Err(e) => Err(e),
            Ok(entry) => saved_servers_of(done.push(entry), rest.drop_first()),
        }
    }
}

/// The last directory of the preferences: none where `last_directory` is
/// absent or null, else the string under it.
pub open spec fn last_directory_of(members: Seq<(Seq<char>, JsonView)>) -> Result<
    Option<Seq<char>>,
    ShapeError,
> {
    match lookup(members, "last_directory"@) {
        None => Ok(None),
        Some(JsonView::Null) => Ok(None),
        Some(JsonView::Text(directory)) => Ok(Some(directory)),
        Some(_) => Err(ShapeError::Mismatch(Field::LastDirectory)),
    }
}

/// The preferences that a tree stands for: an object with the array
/// `saved_servers` and perhaps `last_directory`, looked at in this order.
pub open spec fn app_of(tree: JsonView) -> Result<AppConfigView, ShapeError> {
    match tree {
        JsonView::Object(members) => match lookup(members, "saved_servers"@) {
            None => Err(ShapeError::Missing(Field::SavedServers)),
            Some(JsonView::Array(items)) => match saved_servers_of(Seq::empty(), items) {
                Err(e) => Err(e),
                Ok(saved_servers) => match last_directory_of(members) {
                    Err(e) => Err(e),
                    Ok(last_directory) => Ok(AppConfigView { saved_servers, last_directory }),
                },
            },
            Some(_) => Err(ShapeError::Mismatch(Field::SavedServers)),
        },
        _ => Err(ShapeError::Mismatch(Field::Document)),
    }
}

/// Writes a server entry as a tree.
pub fn encode_server(server: &McpServer) -> (tree: Json)
    ensures
        tree@ == server_tree(server@),
        server@.well_formed(),
{
    let mut items: Vec<Json> = Vec::new();
    let mut i: usize = 0;
    while i < server.args.len()
        invariant
            i <= server.args@.len(),
            items@.len() == i,
            forall|j: int| 0 <= j < i ==> (#[trigger] items@[j])@ == JsonView::Text(server.args@[j]@),
        decreases server.args@.len() - i,
    {
        items.push(Json::Text(server.args[i].clone()));
        i += 1;
    }
    assert(items_view(items@) =~= text_items(texts(server.args@)));
    let mut members: Vec<(String, Json)> = Vec::new();
    members.push(("command".to_owned(), Json::Text(server.command.clone())));
    members.push(("args".to_owned(), Json::Array(items)));
    match &server.env {
        Some(env) => {
            proof {
                use_type_invariant(env);
                assert(names_of(variables(env@)) =~= names_of(env@));
            }
            let entries = env.entries();
            let mut variables_written: Vec<(String, Json)> = Vec::new();
            let mut k: usize = 0;
            while k < entries.len()
                invariant
                    k <= entries@.len(),
                    variables_written@.len() == k,
                    forall|j: int|
                        0 <= j < k ==> (#[trigger] variables_written@[j]).0@ == entries@[j].0@,
                    forall|j: int|
                        0 <= j < k ==> (#[trigger] variables_written@[j]).1@ == JsonView::Text(
                            entries@[j].1@,
                        ),
                decreases entries@.len() - k,
            {
                variables_written.push((entries[k].0.clone(), Json::Text(entries[k].1.clone())));
                k += 1;
            }
            assert(members_view(variables_written@) =~= text_members(variables(env@)));
            members.push(("env".to_owned(), Json::Object(variables_written)));
            assert(members_view(members@) =~= server_tree(server@)->Object_0);
        },
        None => {
            assert(members_view(members@) =~= server_tree(server@)->Object_0);
        },
    }
    Json::Object(members)
}

/// Writes a project configuration as a tree.
pub fn encode_mcp_config(config: &McpConfig) -> (tree: Json)
    ensures
        tree@ == project_tree(config@),
        config@.well_formed(),
{
    let entries = config.mcp_servers.entries();
    let mut servers: Vec<(String, Json)> = Vec::new();
    let mut i: usize = 0;
    while i < entries.len()
        invariant
            i <= entries@.len(),
            servers@.len() == i,
            forall|j: int| 0 <= j < i ==> (#[trigger] servers@[j]).0@ == entries@[j].0@,
            forall|j: int| 0 <= j < i ==> (#[trigger] servers@[j]).1@ == server_tree(entries@[j].1@),
            forall|j: int| 0 <= j < i ==> (#[trigger] entries@[j]).1@.well_formed(),
        decreases entries@.len() - i,
    {
        servers.push((entries[i].0.clone(), encode_server(&entries[i].1)));
        i += 1;
    }
    assert(members_view(servers@) =~= server_members(config@.mcp_servers));
    proof {
        use_type_invariant(&config.mcp_servers);
        assert(names_of(config@.mcp_servers) =~= names_of(config.mcp_servers@));
        assert forall|j: int| 0 <= j < config@.mcp_servers.len() implies (
        #[trigger] config@.mcp_servers[j]).1.well_formed() by {
            assert(entries@[j].1@.well_formed());
        }
    }
    let mut members: Vec<(String, Json)> = Vec::new();
    members.push(("mcpServers".to_owned(), Json::Object(servers)));
    assert(members_view(members@) =~= project_tree(config@)->Object_0);
    Json::Object(members)
}

/// Writes the application's preferences as a tree.
pub fn encode_app_config(config: &AppConfig) -> (tree: Json)
    ensures
        tree@ == app_tree(config@),
        config@.well_formed(),
{
    let mut items: Vec<Json> = Vec::new();
    let mut i: usize = 0;
    while i < config.saved_servers.len()
        invariant
            i <= config.saved_servers@.len(),
            items@.len() == i,
            forall|j: int|
                0 <= j < i ==> (#[trigger] items@[j])@ == saved_server_tree(
                    saved(config.saved_servers@)[j],
                ),
            forall|j: int| 0 <= j < i ==> (#[trigger] config.saved_servers@[j]).1@.well_formed(),
        decreases config.saved_servers@.len() - i,
    {
        let mut pair: Vec<Json> = Vec::new();
        pair.push(Json::Text(config.saved_servers[i].0.clone()));
        pair.push(encode_server(&config.saved_servers[i].1));
        assert(items_view(pair@) =~= saved_server_tree(saved(config.saved_servers@)[i as int])->Array_0);
        items.push(Json::Array(pair));
        i += 1;
    }
    assert(items_view(items@) =~= saved_items(config@.saved_servers));
    let last_directory = match &config.last_directory {
        Some(directory) => Json::Text(directory.clone()),
        None => Json::Null,
    };
    let mut members: Vec<(String, Json)> = Vec::new();
    members.push(("saved_servers".to_owned(), Json::Array(items)));
    members.push(("last_directory".to_owned(), last_directory));
    assert(members_view(members@) =~= app_tree(config@)->Object_0);
    Json::Object(members)
}

/// Reads a list of JSON strings.
fn decode_texts(items: &Vec<Json>) -> (r: Option<Vec<String>>)
    ensures
        match r {
            Some(found) => texts_of(items_view(items@)) == Some(texts(found@)),
            None => texts_of(items_view(items@)) is None,
        },
{
    let mut found: Vec<String> = Vec::new();
    let mut i: usize = 0;
    while i < items.len()
        invariant
            i <= items@.len(),
            found@.len() == i,
            forall|j: int| 0 <= j < i ==> (#[trigger] items_view(items@)[j]) is Text,
            forall|j: int| 0 <= j < i ==> items_view(items@)[j]->Text_0 == (#[trigger] found@[j])@,
        decreases items@.len() - i,
    {
        match &items[i] {
            Json::Text(text) => {
                found.push(text.clone());
            },
            _ => {
                assert(!(items_view(items@)[i as int] is Text));
                return None;
            },
        }
        i += 1;
    }
    assert(texts(found@) =~= Seq::new(
        items_view(items@).len(),
        |i: int| items_view(items@)[i]->Text_0,
    ));
    Some(found)
}

/// Reads an object of JSON strings as an environment.
fn decode_variables(members: &Vec<(String, Json)>) -> (r: Option<NameMap<String>>)
    ensures
        match r {
            Some(env) => variables_of(members_view(members@)) == Some(variables(env@)),
            None => variables_of(members_view(members@)) is None,
        },
{
    let ghost all = members_view(members@);
    let mut env: NameMap<String> = NameMap::new();
    let mut i: usize = 0;
    assert(variables(env@) =~= Seq::empty());
    assert(named_texts(all).skip(0) =~= named_texts(all));
    while i < members.len()
        invariant
            i <= members@.len(),
            all == members_view(members@),
            forall|j: int| 0 <= j < i ==> (#[trigger] all[j]).1 is Text,
            file_all(Seq::empty(), named_texts(all)) == file_all(
                variables(env@),
                named_texts(all).skip(i as int),
            ),
        decreases members@.len() - i,
    {
        match &members[i].1 {
            Json::Text(text) => {
                let ghost before = env@;
                let ghost rest = named_texts(all).skip(i as int);
                let value = text.clone();
                env.insert(members[i].0.clone(), value);
                proof {
                    lemma_variables_put(before, members@[i as int].0@, value);
                    assert(rest[0] == (members@[i as int].0@, value@));
                    assert(rest.drop_first() =~= named_texts(all).skip(i + 1));
                }
            },
            _ => {
                assert(!(all[i as int].1 is Text));
                return None;
            },
        }
        i += 1;
    }
    Some(env)
}

/// Reads a tree as a server entry.
pub fn decode_server(tree: &Json) -> (r: Result<McpServer, ShapeError>)
    ensures
        match r {
            Ok(server) => server_of(tree@) == Ok::<ServerView, ShapeError>(server@),
            Err(e) => server_of(tree@) == Err::<ServerView, ShapeError>(e),
        },
{
    let members = match tree {
        Json::Object(members) => members,
        _ => {
            return Err(ShapeError::Mismatch(Field::Server));
        },
    };
    let command = match member(members, "command") {
        None => {
            return Err(ShapeError::Missing(Field::Command));
        },
        Some(Json::Text(command)) => command.clone(),
        Some(_) => {
            return Err(ShapeError::Mismatch(Field::Command));
        },
    };
    let args = match member(members, "args") {
        None => {
            return Err(ShapeError::Missing(Field::Args));
        },
        Some(Json::Array(items)) => match decode_texts(items) {
            Some(args) => args,
            None => {
                return Err(ShapeError::Mismatch(Field::Args));
            },
        },
        Some(_) => {
            return Err(ShapeError::Mismatch(Field::Args));
        },
    };
    let env = match member(members, "env") {
        None => None,
        Some(Json::Null) => None,
        Some(Json::Object(entries)) => match decode_variables(entries) {
            Some(env) => Some(env),
            None => {
                return Err(ShapeError::Mismatch(Field::Env));
            },
        },
        Some(_) => {
            return Err(ShapeError::Mismatch(Field::Env));
        },
    };
    Ok(McpServer { command, args, env })
}

/// Reads a tree as a project configuration.
pub fn decode_mcp_config(tree: &Json) -> (r: Result<McpConfig, ShapeError>)
    ensures
        match r {
            Ok(config) => project_of(tree@) == Ok::<McpConfigView, ShapeError>(config@),
            Err(e) => project_of(tree@) == Err::<McpConfigView, ShapeError>(e),
        },
{
    let members = match tree {
        Json::Object(members) => members,
        _ => {
            return Err(ShapeError::Mismatch(Field::Document));
        },
    };
    let entries = match member(members, "mcpServers") {
        None => {
            return Err(ShapeError::Missing(Field::McpServers));
        },
        Some(Json::Object(entries)) => entries,
        Some(_) => {
            return Err(ShapeError::Mismatch(Field::McpServers));
        },
    };
    let ghost all = members_view(entries@);
    let mut servers: NameMap<McpServer> = NameMap::new();
    let mut i: usize = 0;
    assert(registered(servers@) =~= Seq::empty());
    assert(all.skip(0) =~= all);
    while i < entries.len()
        invariant
            i <= entries@.len(),
            all == members_view(entries@),
            project_of(tree@) == match servers_of(Seq::empty(), all) {
                Err(e) => Err::<McpConfigView, ShapeError>(e),
                Ok(servers) => Ok(McpConfigView { mcp_servers: servers }),
            },
            servers_of(Seq::empty(), all) == servers_of(registered(servers@), all.skip(i as int)),
        decreases entries@.len() - i,
    {
        let ghost before = servers@;
        let ghost rest = all.skip(i as int);
        assert(rest[0] == all[i as int]);
        match decode_server(&entries[i].1) {
            Err(e) => {
                return Err(e);
            },
            Ok(server) => {
                servers.insert(entries[i].0.clone(), server);
                proof {
                    lemma_registered_put(before, entries@[i as int].0@, server);
                    assert(rest.drop_first() =~= all.skip(i + 1));
                }
            },
        }
        i += 1;
    }
    Ok(McpConfig { mcp_servers: servers })
}

/// Reads a tree as a saved server: a name and a server entry.
fn decode_saved_server(item: &Json) -> (r: Result<(String, McpServer), ShapeError>)
    ensures
        match r {
            Ok(entry) => saved_server_of(item@) == Ok::<(Seq<char>, ServerView), ShapeError>(
                (entry.0@, entry.1@),
            ),
            Err(e) => saved_server_of(item@) == Err::<(Seq<char>, ServerView), ShapeError>(e),
        },
{
    let pair = match item {
        Json::Array(pair) => pair,
        _ => {
            return Err(ShapeError::Mismatch(Field::SavedServer));
        },
    };
    if pair.len() != 2 {
        return Err(ShapeError::Mismatch(Field::SavedServer));
    }
    assert(items_view(pair@)[0] == pair@[0]@);
    assert(items_view(pair@)[1] == pair@[1]@);
    let name = match &pair[0] {
        Json::Text(name) => name.clone(),
        _ => {
            return Err(ShapeError::Mismatch(Field::SavedServer));
        },
    };
    match decode_server(&pair[1]) {
        Err(e) => Err(e),
        Ok(server) => Ok((name, server)),
    }
}

/// Reads a tree as the application's preferences.
pub fn decode_app_config(tree: &Json) -> (r: Result<AppConfig, ShapeError>)
    ensures
        match r {
            Ok(config) => app_of(tree@) == Ok::<AppConfigView, ShapeError>(config@),
            Err(e) => app_of(tree@) == Err::<AppConfigView, ShapeError>(e),
        },
{
    let members = match tree {
        Json::Object(members) => members,
        _ => {
            return Err(ShapeError::Mismatch(Field::Document));
        },
    };
    let items = match member(members, "saved_servers") {
        None => {
            return Err(ShapeError::Missing(Field::SavedServers));
        },
        Some(Json::Array(items)) => items,
        Some(_) => {
            return Err(ShapeError::Mismatch(Field::SavedServers));
        },
    };
    let ghost all = items_view(items@);
    let mut saved_servers: Vec<(String, McpServer)> = Vec::new();
    let mut i: usize = 0;
    assert(saved(saved_servers@) =~= Seq::empty());
    assert(all.skip(0) =~= all);
    while i < items.len()
        invariant
            i <= items@.len(),
            all == items_view(items@),
            app_of(tree@) == match saved_servers_of(Seq::empty(), all) {
                Err(e) => Err::<AppConfigView, ShapeError>(e),
                Ok(saved_servers) => match last_directory_of(members_view(members@)) {
                    Err(e) => Err(e),
                    Ok(last_directory) => Ok(AppConfigView { saved_servers, last_directory }),
                },
            },
            saved_servers_of(Seq::empty(), all) == saved_servers_of(
                saved(saved_servers@),
                all.skip(i as int),
            ),
        decreases items@.len() - i,
    {
        let ghost before = saved_servers@;
        let ghost rest = all.skip(i as int);
        assert(rest[0] == all[i as int]);
        match decode_saved_server(&items[i]) {
            Err(e) => {
                return Err(e);
            },
            Ok(entry) => {
                saved_servers.push(entry);
                proof {
                    assert(saved(saved_servers@) =~= saved(before).push((entry.0@, entry.1@)));
                    assert(rest.drop_first() =~= all.skip(i + 1));
                }
            },
        }
        i += 1;
    }
    let last_directory = match member(members, "last_directory") {
        None => None,
        Some(Json::Null) => None,
        Some(Json::Text(directory)) => Some(directory.clone()),
        Some(_) => {
            return Err(ShapeError::Mismatch(Field::LastDirectory));
        },
    };
    Ok(AppConfig { saved_servers, last_directory })
}

} // verus!
