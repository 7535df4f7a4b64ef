//! Loading and saving as far as the content of the files goes: what a file's
//! content, or its absence, means, and what content is written.

use crate::codec::{
    app_of, app_tree, decode_app_config, decode_mcp_config, encode_app_config,
    encode_mcp_config, project_of, project_tree,
};
use crate::error::{ConfigError, ParseError, ShapeError};
use crate::json::{json_parse, json_pretty, parse_json, pretty_json};
use crate::laws::{
    law_app_round_trip, law_project_round_trip, lemma_app_tree_unique_keys,
    lemma_project_tree_unique_keys,
};
use crate::model::{AppConfig, AppConfigView, McpConfig, McpConfigView};
use vstd::prelude::*;

verus! {

/// The name of the file in a project's directory that holds its
/// configuration.
pub fn project_file_name() -> (name: &'static str)
    ensures
        name@ == ".mcp.json"@,
{
    ".mcp.json"
}

/// The name of the file in the application's data directory that holds its
/// preferences.
pub fn app_file_name() -> (name: &'static str)
    ensures
        name@ == "config.json"@,
{
    "config.json"
}

/// The preferences of an application that has saved none yet: no saved
/// server and no last directory.
pub open spec fn first_run() -> AppConfigView {
    AppConfigView { saved_servers: Seq::empty(), last_directory: None }
}

/// The configuration of a project, given the content of its file, or `None`
/// where the project has no such file. No file is no error: the result is
/// then `None`. A content that is not JSON, or JSON of another shape, is
/// refused as it is.
pub fn load_mcp_config(content: Option<&str>) -> (r: Result<Option<McpConfig>, ConfigError>)
    ensures
        match content {
            None => r matches Ok(None),
            Some(text) => match json_parse(text@) {
                Err(detail) => r matches Err(ConfigError::Parse(ParseError::Syntax(told)))
                    && told@ == detail,
                Ok(tree) => match project_of(tree) {
                    Err(e) => r matches Err(ConfigError::Parse(ParseError::Shape(told)))
                        && told == e,
                    Ok(config) => r matches Ok(Some(loaded)) && loaded@ == config,
                },
            },
        },
{
    let text = match content {
        None => {
            return Ok(None);
        },
        Some(text) => text,
    };
    let tree = match parse_json(text) {
        Err(detail) => {
            return Err(ConfigError::Parse(ParseError::Syntax(detail)));
        },
        Ok(tree) => tree,
    };
    match decode_mcp_config(&tree) {
        Err(e) => Err(ConfigError::Parse(ParseError::Shape(e))),
        Ok(config) => Ok(Some(config)),
    }
}

/// The content to write to a project's file for this configuration. The
/// configuration is written as it is, valid or not.
pub fn save_mcp_config(config: &McpConfig) -> (r: Result<String, ConfigError>)
    ensures
        match json_pretty(project_tree(config@)) {
            Ok(text) => r matches Ok(written) && written@ == text,
            Err(detail) => r matches Err(ConfigError::Serialization(told)) && told@ == detail,
        },
        project_of(project_tree(config@)) == Ok::<McpConfigView, ShapeError>(config@),
{
    let tree = encode_mcp_config(config);
    proof {
        law_project_round_trip(config@);
        lemma_project_tree_unique_keys(config@);
    }
    match pretty_json(&tree) {
        Ok(text) => Ok(text),
        Err(detail) => Err(ConfigError::Serialization(detail)),
    }
}

/// The application's preferences, given the content of its file, or `None`
/// where there is no such file yet. No file is no error: the result is then
/// the preferences of a first run.
pub fn load_app_config(content: Option<&str>) -> (r: Result<AppConfig, ConfigError>)
    ensures
        match content {
            None => r matches Ok(loaded) && loaded@ == first_run(),
            Some(text) => match json_parse(text@) {
                Err(detail) => r matches Err(ConfigError::Parse(ParseError::Syntax(told)))
                    && told@ == detail,
                Ok(tree) => match app_of(tree) {
                    Err(e) => r matches Err(ConfigError::Parse(ParseError::Shape(told)))
                        && told == e,
                    Ok(config) => r matches Ok(loaded) && loaded@ == config,
                },
            },
        },
{
    let text = match content {
        None => {
            let fresh = AppConfig { saved_servers: Vec::new(), last_directory: None };
            assert(fresh@.saved_servers =~= first_run().saved_servers);
            return Ok(fresh);
        },
        Some(text) => text,
    };
    let tree = match parse_json(text) {
        Err(detail) => {
            return Err(ConfigError::Parse(ParseError::Syntax(detail)));
        },
        Ok(tree) => tree,
    };
    match decode_app_config(&tree) {
        Err(e) => Err(ConfigError::Parse(ParseError::Shape(e))),
        Ok(config) => Ok(config),
    }
}

/// The content to write to the application's file for these preferences.
pub fn save_app_config(config: &AppConfig) -> (r: Result<String, ConfigError>)
    ensures
        match json_pretty(app_tree(config@)) {
            Ok(text) => r matches Ok(written) && written@ == text,
            Err(detail) => r matches Err(ConfigError::Serialization(told)) && told@ == detail,
        },
        app_of(app_tree(config@)) == Ok::<AppConfigView, ShapeError>(config@),
{
    let tree = encode_app_config(config);
    proof {
        law_app_round_trip(config@);
        lemma_app_tree_unique_keys(config@);
    }
    match pretty_json(&tree) {
        Ok(text) => Ok(text),
        Err(detail) => Err(ConfigError::Serialization(detail)),
    }
}

} // verus!
