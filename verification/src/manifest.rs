//! The manifest of an extension: its commands, their arguments and their
//! handlers. These are passive values, built once from a manifest file and
//! never changed.

use vstd::prelude::*;
use vstd::string::*;
use crate::json::JsonValue;
use crate::text::text_eq;

verus! {

/// One positional argument of a command.
#[derive(Debug, Clone, PartialEq)]
pub struct ExtensionArg {
    /// Names the positional slot and the placeholder in macro steps.
    pub name: String,
    /// `int`, `number` or `bool`; anything else, or nothing, means text.
    pub arg_type: Option<String>,
    /// Whether the argument must be given; it must where nothing is said.
    pub required: Option<bool>,
    /// Bound where the caller gives no token for this slot.
    pub default: Option<JsonValue>,
    pub description: Option<String>,
}

/// How a command is carried out.
#[derive(Debug, Clone, PartialEq)]
pub struct ExtensionHandler {
    /// `macro` or `daemon`; any other word can be loaded but not run.
    pub handler_type: String,
    /// The request templates of a macro, in the order in which they go out.
    pub steps: Option<Vec<JsonValue>>,
}

/// One command of an extension.
#[derive(Debug, Clone, PartialEq)]
pub struct ExtensionCommand {
    /// Matched exactly against what the user typed; dots have no meaning.
    pub name: String,
    pub description: Option<String>,
    /// The positional arguments in order; none where nothing is declared.
    pub args: Option<Vec<ExtensionArg>>,
    pub handler: ExtensionHandler,
}

/// What one extension declares.
#[derive(Debug, Clone, PartialEq)]
pub struct ExtensionManifest {
    pub name: String,
    pub version: Option<String>,
    pub description: Option<String>,
    pub entry: Option<String>,
    /// Capabilities the extension asks for; kept, not enforced.
    pub permissions: Option<Vec<String>>,
    pub commands: Vec<ExtensionCommand>,
    /// Kept, not checked.
    pub min_cli_version: Option<String>,
    /// Kept, not checked.
    pub max_cli_version: Option<String>,
}

/// The ways of reading a token as a value.
#[derive(Debug, Clone, Copy, PartialEq, Eq, Structural)]
pub enum ArgKind {
    Int,
    Number,
    Bool,
    Text,
}

/// The ways of carrying out a command.
#[derive(Debug, Clone, Copy, PartialEq, Eq, Structural)]
pub enum HandlerKind {
    Macro,
    Daemon,
    Unsupported,
}

/// The text of an optional text; empty where there is none.
pub open spec fn text_or_empty(t: Option<String>) -> Seq<char> {
    match t {
        Some(s) => s@,
        None => Seq::empty(),
    }
}

impl ExtensionArg {
    /// Whether the argument must be given: it must unless `required` says
    /// no.
    pub open spec fn is_required(&self) -> bool {
        self.required != Some(false)
    }

    /// Whether the argument must be given.
    pub fn required_or_default(&self) -> (r: bool)
        ensures
            r == self.is_required(),
    {
        match self.required {
            Some(b) => b,
            None => true,
        }
    }

    /// How a token for this argument is read.
    pub fn arg_kind(&self) -> (r: ArgKind)
        ensures
            r == self.kind(),
    {
        match &self.arg_type {
            Some(t) => {
                if text_eq(t.as_str(), "int") {
                    ArgKind::Int
                } else if text_eq(t.as_str(), "number") {
                    ArgKind::Number
                } else if text_eq(t.as_str(), "bool") {
                    ArgKind::Bool
                } else {
                    ArgKind::Text
                }
            },
            None => ArgKind::Text,
        }
    }

    /// How a token for this argument is read.
    pub open spec fn kind(&self) -> ArgKind {
        match self.arg_type {
            Some(t) => if t@ == "int"@ {
                ArgKind::Int
            } else if t@ == "number"@ {
                ArgKind::Number
            } else if t@ == "bool"@ {
                ArgKind::Bool
            } else {
                ArgKind::Text
            },
            None => ArgKind::Text,
        }
    }
}

impl ExtensionCommand {
    /// The declared arguments in order; none where nothing is declared.
    pub open spec fn arg_defs(&self) -> Seq<ExtensionArg> {
        match self.args {
            Some(defs) => defs@,
            None => Seq::empty(),
        }
    }
}

/// The position of the first command in `commands` named `name`, or the
/// length of `commands` where none bears the name.
pub open spec fn first_command(commands: Seq<ExtensionCommand>, name: Seq<char>) -> int
    decreases commands.len(),
{
    if commands.len() == 0 {
        0
    } else if commands[0].name@ == name {
        0
    } else {
        1 + first_command(commands.skip(1), name)
    }
}

impl ExtensionManifest {
    /// The first command named `name`.
    pub open spec fn command_named(&self, name: Seq<char>) -> Option<ExtensionCommand> {
        if first_command(self.commands@, name) < self.commands@.len() {
            Some(self.commands@[first_command(self.commands@, name)])
        } else {
            None
        }
    }

    /// The first command named exactly `name`.
    pub fn command(&self, name: &str) -> (r: Option<&ExtensionCommand>)
        ensures
            match r {
                Some(c) => self.command_named(name@) == Some(*c),
                None => self.command_named(name@) is None,
            },
    {
        let ghost all = self.commands@;
        let mut i: usize = 0;
        assert(all.skip(0) == all);
        while i < self.commands.len()
            invariant
                all == self.commands@,
                i <= self.commands.len(),
                first_command(all, name@) == i + first_command(all.skip(i as int), name@),
            decreases self.commands.len() - i,
        {
            assert(all.skip(i as int)[0] == all[i as int]);
            if text_eq(self.commands[i].name.as_str(), name) {
                return Some(&self.commands[i]);
            }
            assert(all.skip(i as int).skip(1) == all.skip(i + 1));
            i += 1;
        }
        None
    }
}

impl ExtensionHandler {
    /// How the handler is carried out.
    pub fn handler_kind(&self) -> (r: HandlerKind)
        ensures
            r == self.kind(),
    {
        if text_eq(self.handler_type.as_str(), "macro") {
            HandlerKind::Macro
        } else if text_eq(self.handler_type.as_str(), "daemon") {
            HandlerKind::Daemon
        } else {
            HandlerKind::Unsupported
        }
    }

    /// How the handler is carried out.
    pub open spec fn kind(&self) -> HandlerKind {
        if self.handler_type@ == "macro"@ {
            HandlerKind::Macro
        } else if self.handler_type@ == "daemon"@ {
            HandlerKind::Daemon
        } else {
            HandlerKind::Unsupported
        }
    }
}

} // verus!
