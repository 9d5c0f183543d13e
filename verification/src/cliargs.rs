//! The command-line surface as plain data: global options, the command
//! and its arguments, and the factory settings for the remote-agent
//! connection. The argument parser itself lives in the surrounding
//! program; these types carry the parsed values.

use vstd::prelude::*;

verus! {

/// Global options: verbosity, network selection, and the name under which
/// credentials are looked up.
#[derive(Debug, Clone)]
pub struct GlobalOpts {
    pub verbose: u8,
    pub ic: bool,
    pub identity: String,
}

/// The parsed command line: global options and one command.
#[derive(Debug, Clone)]
pub struct Cli {
    pub global: GlobalOpts,
    pub command: Command,
}

/// One invocation's command with its arguments.
#[derive(Debug, Clone)]
pub enum Command {
    Create(CreateArgs),
    List(ListArgs),
    Insert(InsertArgs),
    InsertPdf(InsertPdfArgs),
    ConvertPdf(ConvertPdfArgs),
    Search(SearchArgs),
    Config(ConfigArgs),
}

/// Arguments for deploying a new memory.
#[derive(Debug, Clone)]
pub struct CreateArgs {
    pub name: String,
    pub description: String,
}

/// Arguments for listing deployed memories.
#[derive(Debug, Clone)]
pub struct ListArgs {}

/// Arguments for inserting text: exactly one of inline text or a file
/// path carries the content.
#[derive(Debug, Clone)]
pub struct InsertArgs {
    pub memory_id: String,
    pub text: Option<String>,
    pub file_path: Option<String>,
    pub tag: String,
}

/// Arguments for inserting a document converted to text.
#[derive(Debug, Clone)]
pub struct InsertPdfArgs {
    pub memory_id: String,
    pub file_path: String,
    pub tag: String,
}

/// Arguments for converting a document to text without inserting it.
#[derive(Debug, Clone)]
pub struct ConvertPdfArgs {
    pub file_path: String,
}

/// Arguments for searching within a memory.
#[derive(Debug, Clone)]
pub struct SearchArgs {
    pub memory_id: String,
    pub query: String,
}

/// Arguments for configuration operations.
#[derive(Debug, Clone)]
pub struct ConfigArgs {
    pub memory_id: String,
    pub add_user: Option<Vec<String>>,
}

/// Where an insert command's content comes from.
pub fn insert_source(args: &InsertArgs) -> (r: &'static str)
    ensures
        args.file_path is Some ==> r@ == "file"@,
        args.file_path is None ==> r@ == "text"@,
{
    if args.file_path.is_some() {
        "file"
    } else {
        "text"
    }
}

/// Settings for building a connection to the remote network: which
/// network, and the credential name to load.
#[derive(Debug, Clone)]
pub struct AgentFactory {
    pub use_mainnet: bool,
    pub identity_suffix: String,
}

impl AgentFactory {
    /// A factory for the chosen network and credential name.
    pub fn new(use_mainnet: bool, identity_suffix: String) -> (r: AgentFactory)
        ensures
            r.use_mainnet == use_mainnet,
            r.identity_suffix@ == identity_suffix@,
    {
        AgentFactory { use_mainnet, identity_suffix }
    }
}

/// What a command handler receives besides its own arguments.
#[derive(Debug, Clone)]
pub struct CommandContext {
    pub agent_factory: AgentFactory,
}

} // verus!
