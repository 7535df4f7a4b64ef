//! The rules that a project configuration must meet before it is saved.

use crate::error::{ValidationError, ValidationFault};
use crate::model::{registered, McpConfig, McpConfigView, ServerView};
use vstd::prelude::*;

verus! {

/// What is wrong with one entry: its name is looked at before its command.
pub open spec fn fault_of(entry: (Seq<char>, ServerView)) -> Option<ValidationFault> {
    if entry.0.len() == 0 {
        Some(ValidationFault::EmptyServerName)
    } else if entry.1.command.len() == 0 {
        Some(ValidationFault::EmptyCommand(entry.0))
    } else {
        None
    }
}

/// The fault of the first entry that has one.
pub open spec fn first_fault(servers: Seq<(Seq<char>, ServerView)>) -> Option<ValidationFault>
    decreases servers.len(),
{
    if servers.len() == 0 {
        None
    } else {
        match fault_of(servers[0]) {
            Some(fault) => Some(fault),
            None => first_fault(servers.drop_first()),
        }
    }
}

/// What the rules say of a project configuration: it must have a server, and then
/// the first entry with a fault decides.
pub open spec fn validation(config: McpConfigView) -> Result<(), ValidationFault> {
    if config.mcp_servers.len() == 0 {
        Err(ValidationFault::EmptyServerSet)
    } else {
        match first_fault(config.mcp_servers) {
            Some(fault) => Err(fault),
            None => Ok(()),
        }
    }
}

/// No entry has a fault exactly when every name and every command is
/// non-empty; a fault that is found belongs to an entry of the sequence.
pub proof fn lemma_first_fault(servers: Seq<(Seq<char>, ServerView)>)
    ensures
        first_fault(servers) is None <==> forall|i: int|
            0 <= i < servers.len() ==> (#[trigger] servers[i]).0.len() > 0
                && servers[i].1.command.len() > 0,
        first_fault(servers) is Some ==> exists|i: int|
            0 <= i < servers.len() && fault_of(#[trigger] servers[i]) == first_fault(servers),
    decreases servers.len(),
{
    if servers.len() > 0 {
        let rest = servers.drop_first();
        lemma_first_fault(rest);
        assert forall|i: int| 0 <= i < rest.len() implies rest[i] == servers[i + 1] by {}
        if fault_of(servers[0]) is None {
            if first_fault(rest) is None {
                assert forall|i: int| 0 <= i < servers.len() implies (#[trigger] servers[i]).0.len()
                    > 0 && servers[i].1.command.len() > 0 by {
                    if i > 0 {
                        assert(rest[i - 1] == servers[i]);
                    }
                }
            } else {
                let k = choose|k: int|
                    0 <= k < rest.len() && fault_of(#[trigger] rest[k]) == first_fault(rest);
                assert(fault_of(servers[k + 1]) == first_fault(servers));
                if forall|i: int|
                    0 <= i < servers.len() ==> (#[trigger] servers[i]).0.len() > 0
                        && servers[i].1.command.len() > 0 {
                    assert forall|i: int| 0 <= i < rest.len() implies (#[trigger] rest[i]).0.len()
                        > 0 && rest[i].1.command.len() > 0 by {
                        assert(servers[i + 1].0.len() > 0);
                    }
                }
            }
        } else {
            assert(fault_of(servers[0]) == first_fault(servers));
        }
    }
}

/// A project configuration is accepted exactly when it has a server and
/// every server has a non-empty name and a non-empty command. It is refused
/// as empty exactly when it has no server. A refusal for an empty name or an
/// empty command is that of an entry of the configuration.
pub proof fn law_validation(config: McpConfigView)
    ensures
        validation(config) is Ok <==> config.mcp_servers.len() > 0 && forall|i: int|
            0 <= i < config.mcp_servers.len() ==> (#[trigger] config.mcp_servers[i]).0.len() > 0
                && config.mcp_servers[i].1.command.len() > 0,
        validation(config) == Err::<(), ValidationFault>(ValidationFault::EmptyServerSet)
            <==> config.mcp_servers.len() == 0,
        validation(config) == Err::<(), ValidationFault>(ValidationFault::EmptyServerName)
            ==> exists|i: int|
            0 <= i < config.mcp_servers.len() && (#[trigger] config.mcp_servers[i]).0.len() == 0,
        forall|name: Seq<char>|
            validation(config) == Err::<(), ValidationFault>(
                ValidationFault::EmptyCommand(name),
            ) ==> name.len() > 0 && exists|i: int|
                0 <= i < config.mcp_servers.len() && (#[trigger] config.mcp_servers[i]).0 == name
                    && config.mcp_servers[i].1.command.len() == 0,
{
    lemma_first_fault(config.mcp_servers);
    if first_fault(config.mcp_servers) is Some {
        let k = choose|k: int|
            0 <= k < config.mcp_servers.len() && fault_of(#[trigger] config.mcp_servers[k])
                == first_fault(config.mcp_servers);
        assert(fault_of(config.mcp_servers[k]) is Some);
    }
}

/// Checks a project configuration before it is saved.
pub fn validate_mcp_config(config: &McpConfig) -> (r: Result<(), ValidationError>)
    ensures
        match r {
            Ok(()) => validation(config@) is Ok,
            Err(e) => validation(config@) == Err::<(), ValidationFault>(e@),
        },
{
    let entries = config.mcp_servers.entries();
    if entries.len() == 0 {
        return Err(ValidationError::EmptyServerSet);
    }
    let ghost all = config@.mcp_servers;
    assert(all.skip(0) =~= all);
    let mut i: usize = 0;
    while i < entries.len()
        invariant
            i <= entries@.len(),
            entries@.len() == all.len(),
            all == registered(config.mcp_servers@),
            forall|j: int| 0 <= j < entries@.len() ==> (#[trigger] entries@[j]).0@ == all[j].0,
            forall|j: int| 0 <= j < entries@.len() ==> (#[trigger] entries@[j]).1@ == all[j].1,
            first_fault(all) == first_fault(all.skip(i as int)),
        decreases entries@.len() - i,
    {
        let ghost rest = all.skip(i as int);
        assert(rest[0] == all[i as int]);
        if entries[i].0.as_str().is_empty() {
            return Err(ValidationError::EmptyServerName);
        }
        if entries[i].1.command.as_str().is_empty() {
            return Err(ValidationError::EmptyCommand(entries[i].0.clone()));
        }
        assert(rest.drop_first() =~= all.skip(i + 1));
        i += 1;
    }
    Ok(())
}

} // verus!
