use vstd::prelude::*;
use crate::flag::FlagDef;

verus! {

/// One node of the command tree: a command or subcommand with its own flag
/// catalog.
#[derive(Debug)]
pub struct CommandDef {
    /// Name of the command.
    pub name: String,
    /// Description of the command.
    pub description: String,
    /// Other names the command answers to.
    pub aliases: Vec<String>,
    /// Nested subcommands, in declaration order.
    pub subcommands: Vec<CommandDef>,
    /// Flags of this command.
    pub flags: Vec<FlagDef>,
    /// Version reported by `--version`.
    pub version: Option<String>,
}

impl CommandDef {
    /// `t` names child `c`, by its name or an alias.
    pub open spec fn names_child(self, c: int, t: Seq<char>) -> bool {
        let sub = self.subcommands@[c];
        sub.name@ == t || exists|j: int| 0 <= j < sub.aliases@.len() && #[trigger] sub.aliases@[j]@ == t
    }

    /// A command with no aliases, subcommands, flags or version.
    pub fn new(name: &str, description: &str) -> (r: CommandDef)
        ensures
            r.name@ == name@,
            r.description@ == description@,
            r.aliases@.len() == 0,
            r.subcommands@.len() == 0,
            r.flags@.len() == 0,
            r.version is None,
    {
        CommandDef {
            name: String::from_str(name),
            description: String::from_str(description),
            aliases: Vec::new(),
            subcommands: Vec::new(),
            flags: Vec::new(),
            version: None,
        }
    }

    /// Sets the aliases.
    pub fn with_aliases(self, aliases: Vec<String>) -> (r: CommandDef)
        ensures
            r == (CommandDef { aliases, ..self }),
    {
        CommandDef { aliases, ..self }
    }

    /// Sets the subcommands.
    pub fn with_subcommands(self, subcommands: Vec<CommandDef>) -> (r: CommandDef)
        ensures
            r == (CommandDef { subcommands, ..self }),
    {
        CommandDef { subcommands, ..self }
    }

    /// Sets the flags.
    pub fn with_flags(self, flags: Vec<FlagDef>) -> (r: CommandDef)
        ensures
            r == (CommandDef { flags, ..self }),
    {
        CommandDef { flags, ..self }
    }

    /// Sets the version.
    pub fn with_version(self, version: &str) -> (r: CommandDef)
        ensures
            r.version matches Some(v) && v@ == version@,
            r == (CommandDef { version: r.version, ..self }),
    {
        CommandDef { version: Some(String::from_str(version)), ..self }
    }
}

} // verus!
