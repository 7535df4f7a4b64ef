//! What holds of the JSON shape as a whole: a configuration that is written
//! as a tree is read back from that tree unchanged, and no object of such a
//! tree has a name twice.

use crate::codec::{
    app_of, app_tree, named_texts, project_of, project_tree, saved_items, saved_servers_of,
    server_members, server_of, server_tree, servers_of, text_items, text_members,
};
use crate::error::ShapeError;
use crate::json::{unique_keys, JsonView};
use crate::model::{AppConfigView, McpConfigView, ServerView};
use crate::names::{
    distinct, lemma_file_all_distinct, lemma_find_none, lemma_find_some, lemma_without_forgets,
    lookup, names_of, without,
};
use vstd::prelude::*;

verus! {

/// The names of a server entry's members differ from each other, and so do
/// those of the preferences.
proof fn lemma_member_names_differ()
    ensures
        "command"@ != "args"@,
        "command"@ != "env"@,
        "args"@ != "env"@,
        "saved_servers"@ != "last_directory"@,
{
    reveal_strlit("command");
    reveal_strlit("args");
    reveal_strlit("env");
    reveal_strlit("saved_servers");
    reveal_strlit("last_directory");
    assert("command"@.len() == 7);
    assert("args"@.len() == 4);
    assert("env"@.len() == 3);
    assert("saved_servers"@.len() == 13);
    assert("last_directory"@.len() == 14);
}

/// In the tree of a well-formed server entry no object has a name twice.
pub proof fn lemma_server_tree_unique_keys(server: ServerView)
    requires
        server.well_formed(),
    ensures
        unique_keys(server_tree(server)),
{
    lemma_member_names_differ();
    let members = server_tree(server)->Object_0;
    assert(unique_keys(members[0].1));
    assert(unique_keys(members[1].1)) by {
        let items = text_items(server.args);
        assert forall|i: int| 0 <= i < items.len() implies unique_keys(#[trigger] items[i]) by {}
    }
    match server.env {
        Some(env) => {
            assert(unique_keys(members[2].1)) by {
                let variables = text_members(env);
                assert(names_of(variables) =~= names_of(env));
                assert forall|i: int| 0 <= i < variables.len() implies unique_keys(
                    (#[trigger] variables[i]).1,
                ) by {}
            }
        },
        None => {},
    }
}

/// In the tree of a well-formed project configuration no object has a name
/// twice.
pub proof fn lemma_project_tree_unique_keys(config: McpConfigView)
    requires
        config.well_formed(),
    ensures
        unique_keys(project_tree(config)),
{
    let members = server_members(config.mcp_servers);
    assert(names_of(members) =~= names_of(config.mcp_servers));
    assert forall|i: int| 0 <= i < members.len() implies unique_keys((#[trigger] members[i]).1) by {
        assert(config.mcp_servers[i].1.well_formed());
        lemma_server_tree_unique_keys(config.mcp_servers[i].1);
    }
    assert(unique_keys(JsonView::Object(members)));
    let top = project_tree(config)->Object_0;
    assert(top[0].1 == JsonView::Object(members));
}

/// In the tree of well-formed preferences no object has a name twice.
pub proof fn lemma_app_tree_unique_keys(config: AppConfigView)
    requires
        config.well_formed(),
    ensures
        unique_keys(app_tree(config)),
{
    lemma_member_names_differ();
    let items = saved_items(config.saved_servers);
    assert forall|i: int| 0 <= i < items.len() implies unique_keys(#[trigger] items[i]) by {
        assert(config.saved_servers[i].1.well_formed());
        lemma_server_tree_unique_keys(config.saved_servers[i].1);
        let pair = items[i]->Array_0;
        assert(unique_keys(pair[0]));
        assert(unique_keys(pair[1]));
    }
    assert(unique_keys(JsonView::Array(items)));
    let top = app_tree(config)->Object_0;
    assert(top[0].1 == JsonView::Array(items));
    assert(unique_keys(top[1].1));
}

/// A server entry that is written as a tree is read back from it unchanged.
pub proof fn law_server_round_trip(server: ServerView)
    requires
        server.well_formed(),
    ensures
        server_of(server_tree(server)) == Ok::<ServerView, ShapeError>(server),
{
    lemma_member_names_differ();
    let members = server_tree(server)->Object_0;
    let names = names_of(members);
    assert(names[0] == "command"@);
    assert(names[1] == "args"@);
    lemma_find_some(names, "command"@, 0);
    lemma_find_some(names, "args"@, 1);
    assert(Seq::new(server.args.len(), |i: int| text_items(server.args)[i]->Text_0)
        =~= server.args);
    match server.env {
        Some(env) => {
            assert(names[2] == "env"@);
            lemma_find_some(names, "env"@, 2);
            assert(named_texts(text_members(env)) =~= env);
            assert(Seq::<(Seq<char>, Seq<char>)>::empty() + env =~= env);
            lemma_file_all_distinct(Seq::empty(), env);
        },
        None => {
            lemma_find_none(names, "env"@);
        },
    }
}

/// Servers with distinct names that are written as members are read back in
/// their order, behind those that were read before.
proof fn lemma_servers_round_trip(
    done: Seq<(Seq<char>, ServerView)>,
    rest: Seq<(Seq<char>, ServerView)>,
)
    requires
        distinct(names_of(done + rest)),
        forall|i: int| 0 <= i < rest.len() ==> (#[trigger] rest[i]).1.well_formed(),
    ensures
        servers_of(done, server_members(rest)) == Ok::<Seq<(Seq<char>, ServerView)>, ShapeError>(
            done + rest,
        ),
    decreases rest.len(),
{
    if rest.len() == 0 {
        assert(done + rest =~= done);
    } else {
        let all = names_of(done + rest);
        let name = rest[0].0;
        assert(rest[0].1.well_formed());
        law_server_round_trip(rest[0].1);
        assert(all[done.len() as int] == name);
        assert forall|j: int| 0 <= j < done.len() implies #[trigger] names_of(done)[j] != name by {
            assert(all[j] == names_of(done)[j]);
        }
        lemma_find_none(names_of(done), name);
        let next = done.push(rest[0]);
        assert(next + rest.drop_first() =~= done + rest);
        assert(server_members(rest).drop_first() =~= server_members(rest.drop_first()));
        assert forall|i: int| 0 <= i < rest.drop_first().len() implies (
        #[trigger] rest.drop_first()[i]).1.well_formed() by {
            assert(rest[i + 1].1.well_formed());
        }
        lemma_servers_round_trip(next, rest.drop_first());
    }
}

/// A project configuration that is written as a tree is read back from it
/// unchanged: the same servers under the same names, in the same order.
pub proof fn law_project_round_trip(config: McpConfigView)
    requires
        config.well_formed(),
    ensures
        project_of(project_tree(config)) == Ok::<McpConfigView, ShapeError>(config),
{
    let members = project_tree(config)->Object_0;
    assert(names_of(members)[0] == "mcpServers"@);
    lemma_find_some(names_of(members), "mcpServers"@, 0);
    assert(Seq::<(Seq<char>, ServerView)>::empty() + config.mcp_servers =~= config.mcp_servers);
    lemma_servers_round_trip(Seq::empty(), config.mcp_servers);
}

/// A server that was taken out of a project configuration does not come
/// back: what is written and read back afterwards is the configuration
/// without it, and the server's name is not found there.
pub proof fn law_removed_server_stays_removed(config: McpConfigView, name: Seq<char>)
    requires
        config.well_formed(),
    ensures
        ({
            let edited = McpConfigView { mcp_servers: without(config.mcp_servers, name) };
            &&& project_of(project_tree(edited)) == Ok::<McpConfigView, ShapeError>(edited)
            &&& lookup(edited.mcp_servers, name) is None
        }),
{
    let edited = McpConfigView { mcp_servers: without(config.mcp_servers, name) };
    lemma_without_forgets(config.mcp_servers, name);
    assert forall|k: int| 0 <= k < edited.mcp_servers.len() implies (
    #[trigger] edited.mcp_servers[k]).1.well_formed() by {
        assert(config.mcp_servers.contains(edited.mcp_servers[k]));
        let j = choose|j: int|
            0 <= j < config.mcp_servers.len() && config.mcp_servers[j] == edited.mcp_servers[k];
        assert(config.mcp_servers[j].1.well_formed());
    }
    law_project_round_trip(edited);
}

/// Saved servers that are written as items are read back in their order,
/// behind those that were read before.
proof fn lemma_saved_round_trip(
    done: Seq<(Seq<char>, ServerView)>,
    rest: Seq<(Seq<char>, ServerView)>,
)
    requires
        forall|i: int| 0 <= i < rest.len() ==> (#[trigger] rest[i]).1.well_formed(),
    ensures
        saved_servers_of(done, saved_items(rest)) == Ok::<
            Seq<(Seq<char>, ServerView)>,
            ShapeError,
        >(done + rest),
    decreases rest.len(),
{
    if rest.len() == 0 {
        assert(done + rest =~= done);
    } else {
        assert(rest[0].1.well_formed());
        law_server_round_trip(rest[0].1);
        let next = done.push(rest[0]);
        assert(next + rest.drop_first() =~= done + rest);
        assert(saved_items(rest).drop_first() =~= saved_items(rest.drop_first()));
        assert forall|i: int| 0 <= i < rest.drop_first().len() implies (
        #[trigger] rest.drop_first()[i]).1.well_formed() by {
            assert(rest[i + 1].1.well_formed());
        }
        lemma_saved_round_trip(next, rest.drop_first());
    }
}

/// The application's preferences that are written as a tree are read back
/// from it unchanged: the saved servers in their order, a name that occurs
/// twice still twice, and the last directory.
pub proof fn law_app_round_trip(config: AppConfigView)
    requires
        config.well_formed(),
    ensures
        app_of(app_tree(config)) == Ok::<AppConfigView, ShapeError>(config),
{
    lemma_member_names_differ();
    let members = app_tree(config)->Object_0;
    let names = names_of(members);
    assert(names[0] == "saved_servers"@);
    assert(names[1] == "last_directory"@);
    lemma_find_some(names, "saved_servers"@, 0);
    lemma_find_some(names, "last_directory"@, 1);
    assert(Seq::<(Seq<char>, ServerView)>::empty() + config.saved_servers
        =~= config.saved_servers);
    lemma_saved_round_trip(Seq::empty(), config.saved_servers);
}

} // verus!
