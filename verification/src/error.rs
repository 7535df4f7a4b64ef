//! The ways in which reading, writing and checking a configuration fail.

use vstd::prelude::*;

verus! {

/// A place in a configuration document.
#[derive(Clone, Copy, Debug, PartialEq, Eq, Structural)]
pub enum Field {
    /// The document as a whole.
    Document,
    /// `mcpServers`: the servers of a project, by name.
    McpServers,
    /// One server entry.
    Server,
    /// `command` of a server entry.
    Command,
    /// `args` of a server entry.
    Args,
    /// `env` of a server entry.
    Env,
    /// `saved_servers`: the list of saved servers.
    SavedServers,
    /// One item of `saved_servers`: a name and a server entry.
    SavedServer,
    /// `last_directory`.
    LastDirectory,
}

/// How a JSON document fails to have the shape of a configuration.
#[derive(Clone, Copy, Debug, PartialEq, Eq, Structural)]
pub enum ShapeError {
    /// A field that must be there is not.
    Missing(Field),
    /// What stands at this place is of the wrong kind.
    Mismatch(Field),
}

/// Why a text could not be read as a configuration.
#[derive(Clone, Debug)]
pub enum ParseError {
    /// The text is not JSON; the parser's message says where and why.
    Syntax(String),
    /// The text is JSON of another shape.
    Shape(ShapeError),
}

impl Field {
    /// How a message names the place.
    pub open spec fn described(self) -> Seq<char> {
        match self {
            Field::Document => "the document"@,
            Field::McpServers => "`mcpServers`"@,
            Field::Server => "a server entry"@,
            Field::Command => "`command`"@,
            Field::Args => "`args`"@,
            Field::Env => "`env`"@,
            Field::SavedServers => "`saved_servers`"@,
            Field::SavedServer => "an item of `saved_servers`"@,
            Field::LastDirectory => "`last_directory`"@,
        }
    }

    /// How a message names the place.
    pub fn describe(&self) -> (text: &'static str)
        ensures
            text@ == self.described(),
    {
        match self {
            Field::Document => "the document",
            Field::McpServers => "`mcpServers`",
            Field::Server => "a server entry",
            Field::Command => "`command`",
            Field::Args => "`args`",
            Field::Env => "`env`",
            Field::SavedServers => "`saved_servers`",
            Field::SavedServer => "an item of `saved_servers`",
            Field::LastDirectory => "`last_directory`",
        }
    }
}

impl ShapeError {
    /// The text that tells a user what is wrong with the document's shape.
    pub open spec fn message_text(self) -> Seq<char> {
        match self {
            ShapeError::Missing(field) => "missing "@ + field.described(),
            ShapeError::Mismatch(field) => "unexpected shape of "@ + field.described(),
        }
    }

    /// The text that tells a user what is wrong with the document's shape.
    pub fn message(&self) -> (text: String)
        ensures
            text@ == self.message_text(),
    {
        match self {
            ShapeError::Missing(field) => "missing ".to_owned().concat(field.describe()),
            ShapeError::Mismatch(field) => "unexpected shape of ".to_owned().concat(
                field.describe(),
            ),
        }
    }
}

impl ParseError {
    /// The text that tells a user why the text could not be read.
    pub open spec fn message_text(self) -> Seq<char> {
        match self {
            ParseError::Syntax(detail) => detail@,
            ParseError::Shape(e) => e.message_text(),
        }
    }

    /// The text that tells a user why the text could not be read.
    pub fn message(&self) -> (text: String)
        ensures
            text@ == self.message_text(),
    {
        match self {
            ParseError::Syntax(detail) => detail.clone(),
            ParseError::Shape(e) => e.message(),
        }
    }
}

/// Why a project configuration is refused.
#[derive(Clone, Debug)]
pub enum ValidationError {
    /// The configuration has no server.
    EmptyServerSet,
    /// A server stands under the empty name.
    EmptyServerName,
    /// The server of this name has an empty command.
    EmptyCommand(String),
}

/// The value of a [`ValidationError`].
pub enum ValidationFault {
    EmptyServerSet,
    EmptyServerName,
    EmptyCommand(Seq<char>),
}

impl View for ValidationError {
    type V = ValidationFault;

    open spec fn view(&self) -> ValidationFault {
        match self {
            ValidationError::EmptyServerSet => ValidationFault::EmptyServerSet,
            ValidationError::EmptyServerName => ValidationFault::EmptyServerName,
            ValidationError::EmptyCommand(name) => ValidationFault::EmptyCommand(name@),
        }
    }
}

/// The text that tells a user of a fault.
pub open spec fn fault_message(fault: ValidationFault) -> Seq<char> {
    match fault {
        ValidationFault::EmptyServerSet => "At least one MCP server must be configured"@,
        ValidationFault::EmptyServerName => "Server name cannot be empty"@,
        ValidationFault::EmptyCommand(name) => "Command for server '"@ + name
            + "' cannot be empty"@,
    }
}

impl ValidationError {
    /// The text that tells a user why the configuration was refused.
    pub fn message(&self) -> (text: String)
        ensures
            text@ == fault_message(self@),
    {
        match self {
            ValidationError::EmptyServerSet => "At least one MCP server must be configured".to_owned(),
            ValidationError::EmptyServerName => "Server name cannot be empty".to_owned(),
            ValidationError::EmptyCommand(name) => {
                let mut text = "Command for server '".to_owned();
                text.append(name.as_str());
                text.append("' cannot be empty");
                text
            },
        }
    }
}

/// Why an operation on a configuration failed.
#[derive(Clone, Debug)]
pub enum ConfigError {
    /// The file system refused; the text is the system's own.
    Io(String),
    /// The file's content is no configuration.
    Parse(ParseError),
    /// The configuration could not be written as JSON; the text is the
    /// serializer's own.
    Serialization(String),
    /// The configuration breaks a rule.
    Validation(ValidationError),
    /// The directory picker closed its channel before it answered.
    PickerChannel(String),
}

impl ConfigError {
    /// The text that tells a user what failed.
    pub open spec fn message_text(self) -> Seq<char> {
        match self {
            ConfigError::Io(detail) => detail@,
            ConfigError::Parse(e) => e.message_text(),
            ConfigError::Serialization(detail) => detail@,
            ConfigError::Validation(e) => fault_message(e@),
            ConfigError::PickerChannel(detail) => detail@,
        }
    }

    /// The text that tells a user what failed.
    pub fn message(&self) -> (text: String)
        ensures
            text@ == self.message_text(),
    {
        match self {
            ConfigError::Io(detail) => detail.clone(),
            ConfigError::Parse(e) => e.message(),
            ConfigError::Serialization(detail) => detail.clone(),
            ConfigError::Validation(e) => e.message(),
            ConfigError::PickerChannel(detail) => detail.clone(),
        }
    }
}

} // verus!
