//! The command line: a subcommand in kebab case and its options, long
//! (`--name value`, `--name=value`) or short (`-n value`, `-nvalue`,
//! `-n=value`).
use crate::pod_handler::{parse_u8, parse_u8_chars};
use crate::text::{chars_of, find_from, index_of, is_text, slice_of, string_of};
use vstd::prelude::*;

verus! {

/// THU Med Login Helper CLI
#[derive(Debug)]
pub struct Cli {
    pub command: Option<Commands>,
}

#[derive(Debug)]
pub enum Commands {
    /// Initialize or check environment and tools
    CheckEnv,
    /// List pods and website addresses
    ListPods,
    /// Install a new pod
    InstallPod {
        /// Pod name (lowercase letters and numbers only)
        name: Option<String>,
        /// CPU cores (default: 16)
        cpu: Option<u8>,
        /// Memory in GB (default: 50)
        memory: Option<u8>,
    },
    /// Login to a pod in the terminal
    LoginPod {
        /// Pod name to login to
        name: Option<String>,
    },
    /// Forward port to access web service (RStudio)
    ForwardPod {
        /// Pod name to forward
        name: Option<String>,
    },
    /// Uninstall a pod
    UninstallPod {
        /// Pod name to uninstall
        name: Option<String>,
    },
    /// Update user information
    UpdateUser,
}

/// The subcommands, by name.
#[derive(Clone, Copy, Debug, PartialEq, Eq, Structural)]
pub enum CommandName {
    CheckEnv,
    ListPods,
    InstallPod,
    LoginPod,
    ForwardPod,
    UninstallPod,
    UpdateUser,
}

/// The options of the subcommands.
#[derive(Clone, Copy, Debug, PartialEq, Eq, Structural)]
pub enum CliOption {
    Name,
    Cpu,
    Memory,
}

/// Why a command line was not taken.
#[derive(Clone, Copy, Debug, PartialEq, Eq, Structural)]
pub enum CliErrorKind {
    /// Help was asked for (`help`, `-h`, `--help`).
    Help,
    /// The version was asked for (`-V`, `--version`).
    Version,
    /// No such subcommand.
    UnknownCommand,
    /// An argument that the subcommand does not take.
    UnexpectedArgument,
    /// An option without its value.
    MissingValue,
    /// A number that is not a whole number from 0 to 255.
    InvalidValue,
    /// An option given twice.
    RepeatedArgument,
}

/// Why a command line was not taken, and the argument concerned.
#[derive(Debug)]
pub struct CliError {
    pub kind: CliErrorKind,
    pub arg: String,
}

/// The subcommand of a name.
pub open spec fn command_of(name: Seq<char>) -> Option<CommandName> {
    if name == "check-env"@ {
        Some(CommandName::CheckEnv)
    } else if name == "list-pods"@ {
        Some(CommandName::ListPods)
    } else if name == "install-pod"@ {
        Some(CommandName::InstallPod)
    } else if name == "login-pod"@ {
        Some(CommandName::LoginPod)
    } else if name == "forward-pod"@ {
        Some(CommandName::ForwardPod)
    } else if name == "uninstall-pod"@ {
        Some(CommandName::UninstallPod)
    } else if name == "update-user"@ {
        Some(CommandName::UpdateUser)
    } else {
        None
    }
}

/// The subcommands that name a pod.
pub open spec fn takes_name(cmd: CommandName) -> bool {
    cmd == CommandName::InstallPod || cmd == CommandName::LoginPod || cmd == CommandName::ForwardPod
        || cmd == CommandName::UninstallPod
}

/// The option of a long name, where the subcommand takes it.
pub open spec fn long_option(cmd: CommandName, key: Seq<char>) -> Option<CliOption> {
    if key == "name"@ && takes_name(cmd) {
        Some(CliOption::Name)
    } else if key == "cpu"@ && cmd == CommandName::InstallPod {
        Some(CliOption::Cpu)
    } else if key == "memory"@ && cmd == CommandName::InstallPod {
        Some(CliOption::Memory)
    } else {
        None
    }
}

/// The option of a short name, where the subcommand takes it.
pub open spec fn short_option(cmd: CommandName, c: char) -> Option<CliOption> {
    if c == 'n' && takes_name(cmd) {
        Some(CliOption::Name)
    } else if c == 'c' && cmd == CommandName::InstallPod {
        Some(CliOption::Cpu)
    } else if c == 'm' && cmd == CommandName::InstallPod {
        Some(CliOption::Memory)
    } else {
        None
    }
}

/// An argument that names an option of the subcommand, and the value
/// attached to it, if any.
pub open spec fn split_option(cmd: CommandName, t: Seq<char>) -> Option<(CliOption, Option<Seq<char>>)> {
    if t.len() >= 2 && t[0] == '-' && t[1] == '-' {
        let body = t.skip(2);
        let k = index_of(body, '=');
        match long_option(cmd, body.take(k)) {
            Some(o) => Some((o, if k < body.len() {
                Some(body.skip(k + 1))
            } else {
                None
            })),
            None => None,
        }
    } else if t.len() >= 2 && t[0] == '-' {
        let rest = t.skip(2);
        match short_option(cmd, t[1]) {
            Some(o) => Some((o, if rest.len() == 0 {
                None
            } else if rest[0] == '=' {
                Some(rest.skip(1))
            } else {
                Some(rest)
            })),
            None => None,
        }
    } else {
        None
    }
}

/// An argument that asks for help.
pub open spec fn is_help(t: Seq<char>) -> bool {
    t == "-h"@ || t == "--help"@
}

/// An argument that can be an option's value: not an option itself.
pub open spec fn is_value(t: Seq<char>) -> bool {
    t.len() == 0 || t[0] != '-' || t == "-"@
}

/// The options read so far: name, CPU cores, memory.
pub type Options = (Option<Seq<char>>, Option<u8>, Option<u8>);

/// Whether an option was given already.
pub open spec fn is_set(acc: Options, o: CliOption) -> bool {
    match o {
        CliOption::Name => acc.0 is Some,
        CliOption::Cpu => acc.1 is Some,
        CliOption::Memory => acc.2 is Some,
    }
}

/// The options with `o` set to `v`; none where a number does not read.
pub open spec fn with_option(acc: Options, o: CliOption, v: Seq<char>) -> Option<Options> {
    match o {
        CliOption::Name => Some((Some(v), acc.1, acc.2)),
        CliOption::Cpu => match parse_u8(v) {
            Some(n) => Some((acc.0, Some(n as u8), acc.2)),
            None => None,
        },
        CliOption::Memory => match parse_u8(v) {
            Some(n) => Some((acc.0, acc.1, Some(n as u8))),
            None => None,
        },
    }
}

/// Reads the options of `cmd` from the arguments from position `i` on.
pub open spec fn read_options(cmd: CommandName, args: Seq<Seq<char>>, i: int, acc: Options) -> Result<
    Options,
    (CliErrorKind, Seq<char>),
>
    decreases args.len() - i,
{
    if i < 0 || i >= args.len() {
        Ok(acc)
    } else {
        let t = args[i];
        if is_help(t) {
            Err((CliErrorKind::Help, t))
        } else {
            match split_option(cmd, t) {
                None => Err((CliErrorKind::UnexpectedArgument, t)),
                Some((o, attached)) => {
                    let taken = attached is None && i + 1 < args.len() && is_value(args[i + 1]);
                    let value = if attached is Some {
                        attached
                    } else if taken {
                        Some(args[i + 1])
                    } else {
                        None
                    };
                    match value {
                        None => Err((CliErrorKind::MissingValue, t)),
                        Some(v) => if is_set(acc, o) {
                            Err((CliErrorKind::RepeatedArgument, t))
                        } else {
                            match with_option(acc, o, v) {
                                None => Err((CliErrorKind::InvalidValue, v)),
                                Some(next) => read_options(
                                    cmd,
                                    args,
                                    if taken {
                                        i + 2
                                    } else {
                                        i + 1
                                    },
                                    next,
                                ),
                            }
                        },
                    }
                },
            }
        }
    }
}

/// The subcommand with the options read for it, or why they were not taken.
pub open spec fn with_command(cmd: CommandName, r: Result<Options, (CliErrorKind, Seq<char>)>) -> Result<
    Option<(CommandName, Options)>,
    (CliErrorKind, Seq<char>),
> {
    match r {
        Ok(o) => Ok(Some((cmd, o))),
        Err(e) => Err(e),
    }
}

/// What a command line means: the program's name, then nothing or a
/// subcommand with its options.
pub open spec fn command_line_of(args: Seq<Seq<char>>) -> Result<
    Option<(CommandName, Options)>,
    (CliErrorKind, Seq<char>),
> {
    if args.len() <= 1 {
        Ok(None)
    } else {
        let t = args[1];
        if is_help(t) || t == "help"@ {
            Err((CliErrorKind::Help, t))
        } else if t == "-V"@ || t == "--version"@ {
            Err((CliErrorKind::Version, t))
        } else {
            match command_of(t) {
                None => if t.len() > 0 && t[0] == '-' {
                    Err((CliErrorKind::UnexpectedArgument, t))
                } else {
                    Err((CliErrorKind::UnknownCommand, t))
                },
                Some(cmd) => with_command(cmd, read_options(cmd, args, 2, (None, None, None))),
            }
        }
    }
}

pub open spec fn text_option(o: Option<String>) -> Option<Seq<char>> {
    match o {
        Some(s) => Some(s@),
        None => None,
    }
}

/// The subcommand that `c` holds is `cmd` with the options `o`.
pub open spec fn holds_command(c: Commands, cmd: CommandName, o: Options) -> bool {
    match cmd {
        CommandName::CheckEnv => c is CheckEnv,
        CommandName::ListPods => c is ListPods,
        CommandName::UpdateUser => c is UpdateUser,
        CommandName::InstallPod => c matches Commands::InstallPod { name, cpu, memory } && text_option(
            name,
        ) == o.0 && cpu == o.1 && memory == o.2,
        CommandName::LoginPod => c matches Commands::LoginPod { name } && text_option(name) == o.0,
        CommandName::ForwardPod => c matches Commands::ForwardPod { name } && text_option(name)
            == o.0,
        CommandName::UninstallPod => c matches Commands::UninstallPod { name } && text_option(name)
            == o.0,
    }
}

pub open spec fn arg_texts(args: Seq<&str>) -> Seq<Seq<char>> {
    args.map_values(|a: &str| a@)
}

fn command_named(t: &[char]) -> (r: Option<CommandName>)
    ensures
        r == command_of(t@),
{
    if is_text(t, "check-env") {
        Some(CommandName::CheckEnv)
    } else if is_text(t, "list-pods") {
        Some(CommandName::ListPods)
    } else if is_text(t, "install-pod") {
        Some(CommandName::InstallPod)
    } else if is_text(t, "login-pod") {
        Some(CommandName::LoginPod)
    } else if is_text(t, "forward-pod") {
        Some(CommandName::ForwardPod)
    } else if is_text(t, "uninstall-pod") {
        Some(CommandName::UninstallPod)
    } else if is_text(t, "update-user") {
        Some(CommandName::UpdateUser)
    } else {
        None
    }
}

fn names_pod(cmd: CommandName) -> (r: bool)
    ensures
        r == takes_name(cmd),
{
    match cmd {
        CommandName::InstallPod | CommandName::LoginPod | CommandName::ForwardPod
        | CommandName::UninstallPod => true,
        _ => false,
    }
}

fn long_named(cmd: CommandName, key: &[char]) -> (r: Option<CliOption>)
    ensures
        r == long_option(cmd, key@),
{
    let install = match cmd {
        CommandName::InstallPod => true,
        _ => false,
    };
    if is_text(key, "name") && names_pod(cmd) {
        Some(CliOption::Name)
    } else if is_text(key, "cpu") && install {
        Some(CliOption::Cpu)
    } else if is_text(key, "memory") && install {
        Some(CliOption::Memory)
    } else {
        None
    }
}

fn short_named(cmd: CommandName, c: char) -> (r: Option<CliOption>)
    ensures
        r == short_option(cmd, c),
{
    let install = match cmd {
        CommandName::InstallPod => true,
        _ => false,
    };
    if c == 'n' && names_pod(cmd) {
        Some(CliOption::Name)
    } else if c == 'c' && install {
        Some(CliOption::Cpu)
    } else if c == 'm' && install {
        Some(CliOption::Memory)
    } else {
        None
    }
}

/// Splits an argument into the option it names and its attached value.
fn option_in(cmd: CommandName, t: &[char]) -> (r: Option<(CliOption, Option<Vec<char>>)>)
    ensures
        match split_option(cmd, t@) {
            None => r is None,
            Some((o, a)) => r matches Some((x, b)) && x == o && match a {
                None => b is None,
                Some(v) => b matches Some(w) && w@ == v,
            },
        },
{
    if t.len() >= 2 && t[0] == '-' && t[1] == '-' {
        let body = slice_of(t, 2, t.len());
        let k = find_from(body.as_slice(), 0, '=');
        proof {
            assert(body@.skip(0) =~= body@);
            assert(body@ =~= t@.skip(2));
        }
        let key = slice_of(body.as_slice(), 0, k);
        match long_named(cmd, key.as_slice()) {
            None => None,
            Some(o) => {
                if k < body.len() {
                    let v = slice_of(body.as_slice(), k + 1, body.len());
                    Some((o, Some(v)))
                } else {
                    Some((o, None))
                }
            },
        }
    } else if t.len() >= 2 && t[0] == '-' {
        let rest = slice_of(t, 2, t.len());
        assert(rest@ =~= t@.skip(2));
        match short_named(cmd, t[1]) {
            None => None,
            Some(o) => {
                if rest.len() == 0 {
                    Some((o, None))
                } else if rest[0] == '=' {
                    let v = slice_of(rest.as_slice(), 1, rest.len());
                    assert(v@ =~= rest@.skip(1));
                    Some((o, Some(v)))
                } else {
                    Some((o, Some(rest)))
                }
            },
        }
    } else {
        None
    }
}

fn help_arg(t: &[char]) -> (r: bool)
    ensures
        r == is_help(t@),
{
    is_text(t, "-h") || is_text(t, "--help")
}

fn value_arg(t: &[char]) -> (r: bool)
    ensures
        r == is_value(t@),
{
    proof {
        reveal_strlit("-");
    }
    t.len() == 0 || t[0] != '-' || is_text(t, "-")
}

fn cli_error(kind: CliErrorKind, arg: &[char]) -> (r: CliError)
    ensures
        r.kind == kind,
        r.arg@ == arg@,
{
    CliError { kind, arg: string_of(arg) }
}

impl Cli {
    /// Reads a command line: the program's name, then nothing or a
    /// subcommand with its options. Help, the version and every malformed
    /// line come back as errors, with the argument concerned.
    pub fn parse_from(args: &[&str]) -> (r: core::result::Result<Cli, CliError>)
        ensures
            match command_line_of(arg_texts(args@)) {
                Err((kind, t)) => r matches Err(e) && e.kind == kind && e.arg@ == t,
                Ok(None) => r matches Ok(cli) && cli.command is None,
                Ok(Some((cmd, o))) => r matches Ok(cli) && cli.command matches Some(c)
                    && holds_command(c, cmd, o),
            },
    {
        let ghost all = arg_texts(args@);
        if args.len() <= 1 {
            return Ok(Cli { command: None });
        }
        let first = chars_of(args[1]);
        assert(first@ == all[1]);
        proof {
            reveal_strlit("help");
        }
        if help_arg(first.as_slice()) || is_text(first.as_slice(), "help") {
            return Err(cli_error(CliErrorKind::Help, first.as_slice()));
        }
        if is_text(first.as_slice(), "-V") || is_text(first.as_slice(), "--version") {
            return Err(cli_error(CliErrorKind::Version, first.as_slice()));
        }
        let cmd = match command_named(first.as_slice()) {
            None => {
                if first.len() > 0 && first[0] == '-' {
                    return Err(cli_error(CliErrorKind::UnexpectedArgument, first.as_slice()));
                }
                return Err(cli_error(CliErrorKind::UnknownCommand, first.as_slice()));
            },
            Some(cmd) => cmd,
        };
        let mut name: Option<String> = None;
        let mut cpu: Option<u8> = None;
        let mut memory: Option<u8> = None;
        let mut i: usize = 2;
        while i < args.len()
            invariant
                2 <= i <= args.len(),
                all == arg_texts(args@),
                all.len() == args@.len(),
                command_line_of(all) == with_command(cmd, read_options(cmd, all, 2, (None, None, None))),
                read_options(cmd, all, 2, (None, None, None)) == read_options(
                    cmd,
                    all,
                    i as int,
                    (text_option(name), cpu, memory),
                ),
            decreases args.len() - i,
        {
            let t = chars_of(args[i]);
            assert(t@ == all[i as int]);
            if help_arg(t.as_slice()) {
                return Err(cli_error(CliErrorKind::Help, t.as_slice()));
            }
            let (o, attached) = match option_in(cmd, t.as_slice()) {
                None => {
                    return Err(cli_error(CliErrorKind::UnexpectedArgument, t.as_slice()));
                },
                Some(p) => p,
            };
            let mut next = i + 1;
            let value: Vec<char> = match attached {
                Some(v) => v,
                None => {
                    if i + 1 < args.len() {
                        let n = chars_of(args[i + 1]);
                        assert(n@ == all[i + 1]);
                        if value_arg(n.as_slice()) {
                            next = i + 2;
                            n
                        } else {
                            return Err(cli_error(CliErrorKind::MissingValue, t.as_slice()));
                        }
                    } else {
                        return Err(cli_error(CliErrorKind::MissingValue, t.as_slice()));
                    }
                },
            };
            let repeated = match o {
                CliOption::Name => name.is_some(),
                CliOption::Cpu => cpu.is_some(),
                CliOption::Memory => memory.is_some(),
            };
            if repeated {
                return Err(cli_error(CliErrorKind::RepeatedArgument, t.as_slice()));
            }
            match o {
                CliOption::Name => {
                    name = Some(string_of(value.as_slice()));
                },
                CliOption::Cpu => match parse_u8_chars(value.as_slice()) {
                    None => {
                        return Err(cli_error(CliErrorKind::InvalidValue, value.as_slice()));
                    },
                    Some(n) => {
                        cpu = Some(n);
                    },
                },
                CliOption::Memory => match parse_u8_chars(value.as_slice()) {
                    None => {
                        return Err(cli_error(CliErrorKind::InvalidValue, value.as_slice()));
                    },
                    Some(n) => {
                        memory = Some(n);
                    },
                },
            }
            i = next;
        }
        let command = match cmd {
            CommandName::CheckEnv => Commands::CheckEnv,
            CommandName::ListPods => Commands::ListPods,
            CommandName::InstallPod => Commands::InstallPod { name, cpu, memory },
            CommandName::LoginPod => Commands::LoginPod { name },
            CommandName::ForwardPod => Commands::ForwardPod { name },
            CommandName::UninstallPod => Commands::UninstallPod { name },
            CommandName::UpdateUser => Commands::UpdateUser,
        };
        Ok(Cli { command: Some(command) })
    }
}

} // verus!
