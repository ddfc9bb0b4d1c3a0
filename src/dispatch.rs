//! What each subcommand decides. The decisions take what the outside world
//! gave (the loaded table, the shims directory, how a child process ended) and
//! return an `Action` for the caller to carry out.
use vstd::prelude::*;
use vstd::string::StringExecFns;

use crate::config::Config;
use crate::error::PintasError;
use crate::listing::{list_aliases, listing_of};
use crate::registry::{add_alias, edit_alias, remove_alias};
use crate::shim::{bash_snippet, init_shell};

verus! {

/// Exit status with which an internal run reports that no alias was
/// resolved, so that the calling shell hook falls through.
pub const NOT_RESOLVED_EXIT: i32 = 126;

/// A subcommand of the alias manager.
#[derive(Debug, Clone, PartialEq, Eq)]
pub enum Commands {
    /// Runs an alias with the given arguments; `internal` marks a run made
    /// by a shim or a shell hook.
    Run { alias: String, args: Vec<String>, internal: bool },
    /// Prints the shell integration snippet for a shell.
    Init { shell: String },
    /// Lists the aliases.
    List,
    /// Adds an alias.
    Add { alias: String, command: String },
    /// Changes the command of an alias.
    Edit { alias: String, command: String },
    /// Removes an alias.
    Remove { alias: String },
    /// Rebuilds the shims.
    Sync,
}

/// A run of an alias's command by a shell.
#[derive(Debug, Clone, PartialEq, Eq)]
pub struct Invocation {
    /// The program started: the shell.
    pub program: String,
    /// Its arguments: `-c`, the command, the alias name as `$0`, then the
    /// arguments of the run as `$1`, `$2`, ...
    pub args: Vec<String>,
    /// Whether the run is internal: the child's exit code then becomes the
    /// manager's own.
    pub internal: bool,
    /// The line to print before the run, on a direct run.
    pub announce: Option<String>,
}

/// What the caller is to do next.
#[derive(Debug, PartialEq, Eq)]
pub enum Action {
    /// Print these lines, then succeed.
    Print(Vec<String>),
    /// Print `message`, save `config`, then rebuild the shims from it.
    Persist { config: Config, message: String },
    /// Rebuild the shims from `config`.
    SyncShims(Config),
    /// Create `shims_dir` if it is missing, then print `snippet`.
    Integrate { shims_dir: String, snippet: String },
    /// Start the shell run, wait for it, and hand how it ended to
    /// `finish_run`.
    Spawn(Invocation),
    /// End the process at once with this status, printing nothing.
    Exit(i32),
    /// Succeed.
    Done,
    /// Report the failure and end with the generic failure status.
    Fail(PintasError),
}

/// The views of a sequence of strings.
pub open spec fn texts(v: Seq<String>) -> Seq<Seq<char>> {
    v.map_values(|s: String| s@)
}

/// The arguments of the shell that runs `command` as `alias` with `args`.
pub open spec fn shell_args(command: Seq<char>, alias: Seq<char>, args: Seq<Seq<char>>) -> Seq<Seq<char>> {
    seq!["-c"@, command, alias] + args
}

/// The line printed before a direct run of `command`.
pub open spec fn announce_line(command: Seq<char>) -> Seq<char> {
    "Executing command: '"@ + command + "'"@
}

/// The line that reports a change of the table.
pub open spec fn success_line(verb: Seq<char>, alias: Seq<char>) -> Seq<char> {
    "Successfully "@ + verb + " alias '"@ + alias + "'."@
}

/// What `run` of `alias` with `args` decides. A missing table or alias ends
/// an internal run silently with the reserved status, and fails a direct one;
/// a present alias is run by `sh -c`, with the alias as `$0` and the
/// arguments after it.
pub open spec fn run_action(
    alias: Seq<char>,
    args: Seq<Seq<char>>,
    internal: bool,
    loaded: Result<Config, PintasError>,
    r: Action,
) -> bool {
    match loaded {
        Err(e) => if internal {
            r == Action::Exit(NOT_RESOLVED_EXIT)
        } else {
            r == Action::Fail(e)
        },
        Ok(c) => if !c@.contains_key(alias) {
            if internal {
                r == Action::Exit(NOT_RESOLVED_EXIT)
            } else {
                r matches Action::Fail(PintasError::AliasNotFound(n)) && n@ == alias
            }
        } else {
            r matches Action::Spawn(inv) && inv.program@ == "sh"@ && texts(inv.args@) == shell_args(
                c@[alias],
                alias,
                args,
            ) && inv.internal == internal && (if internal {
                inv.announce is None
            } else {
                inv.announce matches Some(l) && l@ == announce_line(c@[alias])
            })
        },
    }
}

/// What `list` decides: the listing of the loaded table, or its load error.
pub open spec fn list_action(loaded: Result<Config, PintasError>, r: Action) -> bool {
    match loaded {
        Err(e) => r == Action::Fail(e),
        Ok(c) => r matches Action::Print(lines) && texts(lines@) == listing_of(c.pairs()),
    }
}

/// The table that a change starts from: the loaded one; for `add`, an empty
/// one when there is no table yet; none when the load error is reported.
pub open spec fn starting_table(command: Commands, loaded: Result<Config, PintasError>) -> Option<
    Map<Seq<char>, Seq<char>>,
> {
    match loaded {
        Ok(c) => Some(c@),
        Err(e) => if command is Add && e is ConfigNotFound {
            Some(Map::empty())
        } else {
            None
        },
    }
}

/// What `add`, `edit` and `remove` decide: the changed table to persist,
/// with the line that reports the change, or the reason for refusing it.
pub open spec fn change_action(command: Commands, loaded: Result<Config, PintasError>, r: Action) -> bool {
    match starting_table(command, loaded) {
        None => r == Action::Fail(loaded->Err_0),
        Some(m) => match command {
            Commands::Add { alias, command } => if m.contains_key(alias@) {
                r matches Action::Fail(PintasError::AliasAlreadyExists(n)) && n@ == alias@
            } else {
                r matches Action::Persist { config, message } && config@ == m.insert(alias@, command@)
                    && message@ == success_line("added"@, alias@)
            },
            Commands::Edit { alias, command } => if !m.contains_key(alias@) {
                r matches Action::Fail(PintasError::AliasNotFound(n)) && n@ == alias@
            } else {
                r matches Action::Persist { config, message } && config@ == m.insert(alias@, command@)
                    && message@ == success_line("edited"@, alias@)
            },
            Commands::Remove { alias } => if !m.contains_key(alias@) {
                r matches Action::Fail(PintasError::AliasNotFound(n)) && n@ == alias@
            } else {
                r matches Action::Persist { config, message } && config@ == m.remove(alias@)
                    && message@ == success_line("removed"@, alias@)
            },
            _ => false,
        },
    }
}

/// What `init` decides: the bash snippet for the shims directory, which must
/// be known; any other shell is refused.
pub open spec fn init_action(shell: Seq<char>, shims_dir: Option<String>, r: Action) -> bool {
    match shims_dir {
        None => r == Action::Fail(PintasError::HomeUnknown),
        Some(d) => if shell == "bash"@ {
            r matches Action::Integrate { shims_dir, snippet } && shims_dir == d && snippet@
                == bash_snippet(d@)
        } else {
            r matches Action::Fail(PintasError::UnsupportedShell(s)) && s@ == shell
        },
    }
}

/// What `sync` decides: rebuild the shims from the loaded table.
pub open spec fn sync_action(loaded: Result<Config, PintasError>, r: Action) -> bool {
    match loaded {
        Err(e) => r == Action::Fail(e),
        Ok(c) => r matches Action::SyncShims(s) && s@ == c@,
    }
}

/// An internal run that cannot resolve its alias, because there is no table
/// or the table lacks the alias, ends the process with the reserved status
/// and nothing else: no shell is started and no failure is reported.
pub proof fn lemma_internal_unresolved_exits(
    alias: Seq<char>,
    args: Seq<Seq<char>>,
    loaded: Result<Config, PintasError>,
    r: Action,
)
    requires
        run_action(alias, args, true, loaded, r),
        loaded is Err || !loaded->Ok_0@.contains_key(alias),
    ensures
        r == Action::Exit(126),
{
}

/// Decides a run of `alias` with `args` on the loaded table.
pub fn run_alias(alias: String, args: Vec<String>, internal: bool, loaded: Result<Config, PintasError>) -> (r: Action)
    ensures
        run_action(alias@, texts(args@), internal, loaded, r),
{
    let config = match loaded {
        Ok(c) => c,
        Err(e) => {
            if internal {
                return Action::Exit(NOT_RESOLVED_EXIT);
            }
            return Action::Fail(e);
        },
    };
    let command = match config.get(alias.as_str()) {
        Some(c) => c,
        None => {
            if internal {
                return Action::Exit(NOT_RESOLVED_EXIT);
            }
            return Action::Fail(PintasError::AliasNotFound(alias));
        },
    };
    let announce = if internal {
        None
    } else {
        let mut line = String::from_str("Executing command: '");
        line.append(command.as_str());
        line.append("'");
        Some(line)
    };
    let ghost cmd = config@[alias@];
    let ghost name = alias@;
    let mut argv: Vec<String> = Vec::new();
    argv.push(String::from_str("-c"));
    argv.push(command.clone());
    argv.push(alias);
    assert(texts(argv@) =~= shell_args(cmd, name, texts(args@.take(0))));
    let mut i: usize = 0;
    while i < args.len()
        invariant
            i <= args@.len(),
            texts(argv@) == shell_args(cmd, name, texts(args@.take(i as int))),
        decreases args@.len() - i,
    {
        let ghost prev = argv@;
        argv.push(args[i].clone());
        proof {
            assert(texts(argv@) =~= texts(prev).push(args@[i as int]@));
            assert(texts(args@.take(i + 1)) =~= texts(args@.take(i as int)).push(args@[i as int]@));
            assert(texts(argv@) =~= shell_args(cmd, name, texts(args@.take(i + 1))));
        }
        i = i + 1;
    }
    assert(args@.take(args@.len() as int) =~= args@);
    Action::Spawn(
        Invocation { program: String::from_str("sh"), args: argv, internal, announce },
    )
}

/// Decides how a run ends, from the exit code of the shell (`None` when a
/// signal ended it). An internal run ends with that code (1 for a signal); a
/// direct run succeeds on code 0 and fails otherwise.
pub fn finish_run(internal: bool, code: Option<i32>) -> (r: Action)
    ensures
        internal ==> r == Action::Exit(
            match code {
                Some(c) => c,
                None => 1,
            },
        ),
        !internal && code == Some(0i32) ==> r == Action::Done,
        !internal && code != Some(0i32) ==> r == Action::Fail(PintasError::ChildNonZeroExit(code)),
{
    if internal {
        match code {
            Some(c) => Action::Exit(c),
            None => Action::Exit(1),
        }
    } else {
        match code {
            Some(0) => Action::Done,
            _ => Action::Fail(PintasError::ChildNonZeroExit(code)),
        }
    }
}

/// Decides a read-only subcommand; `list` is the one there is.
pub fn run_readonly_command(command: Commands, loaded: Result<Config, PintasError>) -> (r: Action)
    requires
        command is List,
    ensures
        list_action(loaded, r),
{
    match loaded {
        Ok(config) => Action::Print(list_aliases(&config)),
        Err(e) => Action::Fail(e),
    }
}

/// The line that reports a change of the table.
fn success_text(verb: &str, alias: &str) -> (r: String)
    ensures
        r@ == success_line(verb@, alias@),
{
    let mut line = String::from_str("Successfully ");
    line.append(verb);
    line.append(" alias '");
    line.append(alias);
    line.append("'.");
    line
}

/// Decides `add`, `edit` or `remove` on the loaded table. `add` starts from
/// an empty table when there is none yet; a table that could not be parsed
/// is never replaced.
pub fn run_mutating_command(command: Commands, loaded: Result<Config, PintasError>) -> (r: Action)
    requires
        command is Add || command is Edit || command is Remove,
    ensures
        change_action(command, loaded, r),
{
    let mut config = match loaded {
        Ok(c) => c,
        Err(e) => {
            if matches!(command, Commands::Add { .. }) && matches!(e, PintasError::ConfigNotFound) {
                Config::new()
            } else {
                return Action::Fail(e);
            }
        },
    };
    match command {
        Commands::Add { alias, command } => match add_alias(&mut config, alias.as_str(), command.as_str()) {
            Ok(()) => Action::Persist { config, message: success_text("added", alias.as_str()) },
            Err(e) => Action::Fail(e),
        },
        Commands::Edit { alias, command } => match edit_alias(&mut config, alias.as_str(), command.as_str()) {
            Ok(()) => Action::Persist { config, message: success_text("edited", alias.as_str()) },
            Err(e) => Action::Fail(e),
        },
        Commands::Remove { alias } => match remove_alias(&mut config, alias.as_str()) {
            Ok(()) => Action::Persist { config, message: success_text("removed", alias.as_str()) },
            Err(e) => Action::Fail(e),
        },
        _ => Action::Done,
    }
}

/// Decides one subcommand, given the loaded table (or why it could not be
/// loaded) and the shims directory (if the home directory is known).
pub fn run_command(command: Commands, loaded: Result<Config, PintasError>, shims_dir: Option<String>) -> (r: Action)
    ensures
        match command {
            Commands::Run { alias, args, internal } => run_action(alias@, texts(args@), internal, loaded, r),
            Commands::Init { shell } => init_action(shell@, shims_dir, r),
            Commands::List => list_action(loaded, r),
            Commands::Sync => sync_action(loaded, r),
            _ => change_action(command, loaded, r),
        },
{
    match command {
        Commands::Run { alias, args, internal } => run_alias(alias, args, internal, loaded),
        Commands::Init { shell } => match shims_dir {
            None => Action::Fail(PintasError::HomeUnknown),
            Some(d) => match init_shell(shell.as_str(), d.as_str()) {
                Ok(snippet) => Action::Integrate { shims_dir: d, snippet },
                Err(e) => Action::Fail(e),
            },
        },
        Commands::List => run_readonly_command(command, loaded),
        Commands::Sync => match loaded {
            Ok(config) => Action::SyncShims(config),
            Err(e) => Action::Fail(e),
        },
        _ => run_mutating_command(command, loaded),
    }
}

} // verus!
