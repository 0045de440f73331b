use vstd::prelude::*;
use vstd::string::StrSliceExecFns;
use crate::text::str_eq;

verus! {

/// Which of the two circuits a command is about.
#[derive(Clone, Copy, Debug, PartialEq, Eq, Structural)]
pub enum CircuitKind {
    Prepare,
    Show,
}

/// What a command does with its circuit.
#[derive(Clone, Copy, Debug, PartialEq, Eq, Structural)]
pub enum CircuitAction {
    Run,
    Setup,
    Prove,
    Verify,
    Reblind,
    GenerateSharedBlinds,
    Benchmark,
}

/// Options of a command.
pub struct CommandOptions {
    /// A replacement for the circuit's default input document.
    pub input: Option<String>,
}

/// A command line, understood.
pub struct ParsedCommand {
    pub circuit: CircuitKind,
    pub action: CircuitAction,
    pub options: CommandOptions,
}

/// Why a command line was not accepted. Positions count from the first argument
/// after the program name.
#[derive(Clone, Copy, Debug, PartialEq, Eq, Structural)]
pub enum CliError {
    /// Usage was asked for; the caller prints it and exits successfully.
    HelpRequested,
    NoCommand,
    /// The first argument names no command.
    UnknownCommand,
    /// The word after `prepare` or `show` names no action.
    UnknownAction,
    /// `generate_shared_blinds` was asked of the Show circuit.
    SharedBlindsOnlyForPrepare,
    /// Options were given, from this position on, to an action that takes none.
    UnexpectedOptions(usize),
    /// `--input` was given without a value.
    MissingInputValue,
    /// The argument at this position is no option.
    UnknownOption(usize),
}

/// The arguments as character sequences.
pub open spec fn args_view(args: Seq<String>) -> Seq<Seq<char>> {
    args.map_values(|s: String| s@)
}

pub open spec fn opt_view(o: Option<String>) -> Option<Seq<char>> {
    match o {
        Some(s) => Some(s@),
        None => None,
    }
}

/// A parsed command as plain values.
pub open spec fn command_view(c: ParsedCommand) -> (CircuitKind, CircuitAction, Option<Seq<char>>) {
    (c.circuit, c.action, opt_view(c.options.input))
}

/// Whether a word starts with `prefix`.
pub open spec fn has_prefix(w: Seq<char>, prefix: Seq<char>) -> bool {
    prefix.len() <= w.len() && w.subrange(0, prefix.len() as int) == prefix
}

/// Reading options from position `i` on, with `input` set so far.
pub open spec fn options_from(args: Seq<Seq<char>>, i: int, input: Option<Seq<char>>) -> Result<Option<Seq<char>>, CliError>
    decreases args.len() - i,
{
    if i < 0 || i >= args.len() {
        Ok(input)
    } else if args[i] == "--input"@ || args[i] == "-i"@ {
        if i + 1 < args.len() {
            options_from(args, i + 2, Some(args[i + 1]))
        } else {
            Err(CliError::MissingInputValue)
        }
    } else if has_prefix(args[i], "--input="@) {
        let value = args[i].subrange(8, args[i].len() as int);
        if value.len() == 0 {
            Err(CliError::MissingInputValue)
        } else {
            options_from(args, i + 1, Some(value))
        }
    } else if args[i] == "--help"@ || args[i] == "-h"@ {
        Err(CliError::HelpRequested)
    } else {
        Err(CliError::UnknownOption(i as usize))
    }
}

/// Options from position `start` to the end.
pub open spec fn spec_options(args: Seq<Seq<char>>, start: int) -> Result<Option<Seq<char>>, CliError> {
    options_from(args, start, None)
}

/// No options may follow position `start`.
pub open spec fn spec_no_options(args: Seq<Seq<char>>, start: int) -> Result<Option<Seq<char>>, CliError> {
    if start >= args.len() {
        Ok(None)
    } else {
        Err(CliError::UnexpectedOptions(start as usize))
    }
}

/// Reads `--input <path>`, `-i <path>` and `--input=<path>` from position `start` on;
/// the last one given wins.
pub fn parse_options(args: &[String], start: usize) -> (r: Result<CommandOptions, CliError>)
    ensures
        match spec_options(args_view(args@), start as int) {
            Ok(v) => r matches Ok(o) && opt_view(o.input) == v,
            Err(e) => r == Err::<CommandOptions, CliError>(e),
        },
{
    let ghost a = args_view(args@);
    let mut input: Option<String> = None;
    let mut index: usize = start;
    while index < args.len()
        invariant
            a == args_view(args@),
            start <= index,
            spec_options(a, start as int) == options_from(a, index as int, opt_view(input)),
        decreases args@.len() - index,
    {
        let arg = args[index].as_str();
        assert(a[index as int] == arg@);
        proof {
            reveal_strlit("--input=");
        }
        if str_eq(arg, "--input") || str_eq(arg, "-i") {
            if index + 1 < args.len() {
                input = Some(args[index + 1].clone());
                index = index + 2;
            } else {
                return Err(CliError::MissingInputValue);
            }
        } else if arg.unicode_len() >= 8 && str_eq(arg.substring_char(0, 8), "--input=") {
            let value = arg.substring_char(8, arg.unicode_len());
            if value.unicode_len() == 0 {
                return Err(CliError::MissingInputValue);
            }
            input = Some(value.to_owned());
            index = index + 1;
        } else if str_eq(arg, "--help") || str_eq(arg, "-h") {
            return Err(CliError::HelpRequested);
        } else {
            return Err(CliError::UnknownOption(index));
        }
    }
    Ok(CommandOptions { input })
}

/// Accepts no options from position `start` on.
pub fn ensure_no_options(args: &[String], start: usize) -> (r: Result<CommandOptions, CliError>)
    ensures
        match spec_no_options(args_view(args@), start as int) {
            Ok(v) => r matches Ok(o) && opt_view(o.input) == v,
            Err(e) => r == Err::<CommandOptions, CliError>(e),
        },
{
    if start >= args.len() {
        Ok(CommandOptions { input: None })
    } else {
        Err(CliError::UnexpectedOptions(start))
    }
}

/// The action a word after the circuit names, and where its options start.
pub open spec fn spec_action_word(w: Seq<char>, at: int) -> Option<(CircuitAction, int)> {
    if w == "run"@ {
        Some((CircuitAction::Run, at + 1))
    } else if w == "setup"@ {
        Some((CircuitAction::Setup, at + 1))
    } else if w == "prove"@ {
        Some((CircuitAction::Prove, at + 1))
    } else if w == "verify"@ {
        Some((CircuitAction::Verify, at + 1))
    } else if w == "reblind"@ {
        Some((CircuitAction::Reblind, at + 1))
    } else if w == "generate_shared_blinds"@ {
        Some((CircuitAction::GenerateSharedBlinds, at + 1))
    } else if w == "benchmark"@ {
        Some((CircuitAction::Benchmark, at + 1))
    } else if w.len() > 0 && w[0] == '-' {
        Some((CircuitAction::Run, at))
    } else {
        None
    }
}

/// Whether an action reads options (`--input`); the others take none.
pub open spec fn takes_options(action: CircuitAction) -> bool {
    match action {
        CircuitAction::Run | CircuitAction::Prove | CircuitAction::Setup | CircuitAction::Benchmark => true,
        _ => false,
    }
}

/// The options of `action` from position `start` on.
pub open spec fn spec_action_options(args: Seq<Seq<char>>, action: CircuitAction, start: int) -> Result<Option<Seq<char>>, CliError> {
    if takes_options(action) {
        spec_options(args, start)
    } else {
        spec_no_options(args, start)
    }
}

/// A command for `circuit` with its action and options.
pub open spec fn with_options(circuit: CircuitKind, action: CircuitAction, o: Result<Option<Seq<char>>, CliError>)
    -> Result<(CircuitKind, CircuitAction, Option<Seq<char>>), CliError>
{
    match o {
        Ok(input) => Ok((circuit, action, input)),
        Err(e) => Err(e),
    }
}

/// The command that `prepare ...` or `show ...` denotes, its action at position `start`.
pub open spec fn spec_circuit_command(circuit: CircuitKind, args: Seq<Seq<char>>, start: int)
    -> Result<(CircuitKind, CircuitAction, Option<Seq<char>>), CliError>
{
    if start >= args.len() {
        Ok((circuit, CircuitAction::Run, None))
    } else {
        match spec_action_word(args[start], start) {
            None => Err(CliError::UnknownAction),
            Some((action, option_start)) => if action == CircuitAction::GenerateSharedBlinds
                && circuit != CircuitKind::Prepare {
                Err(CliError::SharedBlindsOnlyForPrepare)
            } else {
                with_options(circuit, action, spec_action_options(args, action, option_start))
            },
        }
    }
}

/// Whether `r` is the command that `spec` describes.
pub open spec fn command_agrees(r: Result<ParsedCommand, CliError>, spec: Result<(CircuitKind, CircuitAction, Option<Seq<char>>), CliError>) -> bool {
    match spec {
        Ok(c) => r matches Ok(p) && command_view(p) == c,
        Err(e) => r == Err::<ParsedCommand, CliError>(e),
    }
}

fn command_with(circuit: CircuitKind, action: CircuitAction, options: Result<CommandOptions, CliError>) -> (r: Result<ParsedCommand, CliError>)
    ensures
        match options {
            Ok(o) => r matches Ok(p) && p.circuit == circuit && p.action == action && p.options == o,
            Err(e) => r == Err::<ParsedCommand, CliError>(e),
        },
{
    match options {
        Ok(options) => Ok(ParsedCommand { circuit, action, options }),
        Err(e) => Err(e),
    }
}

/// Reads the action of a `prepare` or `show` command from position `start` on: no
/// action means `run`, and an option in its place means `run` with that option.
pub fn parse_circuit_command(circuit: CircuitKind, args: &[String], start: usize) -> (r: Result<ParsedCommand, CliError>)
    ensures
        command_agrees(r, spec_circuit_command(circuit, args_view(args@), start as int)),
{
    let ghost a = args_view(args@);
    if start >= args.len() {
        return Ok(ParsedCommand { circuit, action: CircuitAction::Run, options: CommandOptions { input: None } });
    }
    let first = args[start].as_str();
    assert(a[start as int] == first@);
    let next = start + 1;
    let (action, option_start) = if str_eq(first, "run") {
        (CircuitAction::Run, next)
    } else if str_eq(first, "setup") {
        (CircuitAction::Setup, next)
    } else if str_eq(first, "prove") {
        (CircuitAction::Prove, next)
    } else if str_eq(first, "verify") {
        (CircuitAction::Verify, next)
    } else if str_eq(first, "reblind") {
        (CircuitAction::Reblind, next)
    } else if str_eq(first, "generate_shared_blinds") {
        (CircuitAction::GenerateSharedBlinds, next)
    } else if str_eq(first, "benchmark") {
        (CircuitAction::Benchmark, next)
    } else if first.unicode_len() > 0 && first.get_char(0) == '-' {
        (CircuitAction::Run, start)
    } else {
        return Err(CliError::UnknownAction);
    };
    if action == CircuitAction::GenerateSharedBlinds && circuit != CircuitKind::Prepare {
        return Err(CliError::SharedBlindsOnlyForPrepare);
    }
    let options = match action {
        CircuitAction::Run | CircuitAction::Prove | CircuitAction::Setup | CircuitAction::Benchmark => parse_options(args, option_start),
        CircuitAction::Verify | CircuitAction::Reblind | CircuitAction::GenerateSharedBlinds => ensure_no_options(args, option_start),
    };
    command_with(circuit, action, options)
}

/// The command that a whole command line denotes.
pub open spec fn spec_command(args: Seq<Seq<char>>) -> Result<(CircuitKind, CircuitAction, Option<Seq<char>>), CliError> {
    if args.len() == 0 {
        Err(CliError::NoCommand)
    } else {
        let w = args[0];
        if w == "-h"@ || w == "--help"@ {
            Err(CliError::HelpRequested)
        } else if w == "prepare"@ {
            spec_circuit_command(CircuitKind::Prepare, args, 1)
        } else if w == "show"@ {
            spec_circuit_command(CircuitKind::Show, args, 1)
        } else if w == "benchmark"@ {
            with_options(CircuitKind::Prepare, CircuitAction::Benchmark, spec_options(args, 1))
        } else if w == "setup_prepare"@ {
            with_options(CircuitKind::Prepare, CircuitAction::Setup, spec_options(args, 1))
        } else if w == "setup_show"@ {
            with_options(CircuitKind::Show, CircuitAction::Setup, spec_options(args, 1))
        } else if w == "prove_prepare"@ {
            with_options(CircuitKind::Prepare, CircuitAction::Prove, spec_options(args, 1))
        } else if w == "prove_show"@ {
            with_options(CircuitKind::Show, CircuitAction::Prove, spec_options(args, 1))
        } else if w == "verify_prepare"@ {
            with_options(CircuitKind::Prepare, CircuitAction::Verify, spec_no_options(args, 1))
        } else if w == "verify_show"@ {
            with_options(CircuitKind::Show, CircuitAction::Verify, spec_no_options(args, 1))
        } else if w == "reblind_prepare"@ {
            with_options(CircuitKind::Prepare, CircuitAction::Reblind, spec_no_options(args, 1))
        } else if w == "reblind_show"@ {
            with_options(CircuitKind::Show, CircuitAction::Reblind, spec_no_options(args, 1))
        } else if w == "generate_shared_blinds"@ {
            with_options(CircuitKind::Prepare, CircuitAction::GenerateSharedBlinds, spec_no_options(args, 1))
        } else {
            Err(CliError::UnknownCommand)
        }
    }
}

/// Reads a command line (without the program name): `prepare|show [action] [options]`,
/// `benchmark [options]`, or one of the single-word forms such as `prove_show`.
pub fn parse_command(args: &[String]) -> (r: Result<ParsedCommand, CliError>)
    ensures
        command_agrees(r, spec_command(args_view(args@))),
{
    let ghost a = args_view(args@);
    if args.len() == 0 {
        return Err(CliError::NoCommand);
    }
    let w = args[0].as_str();
    assert(a[0] == w@);
    if str_eq(w, "-h") || str_eq(w, "--help") {
        Err(CliError::HelpRequested)
    } else if str_eq(w, "prepare") {
        parse_circuit_command(CircuitKind::Prepare, args, 1)
    } else if str_eq(w, "show") {
        parse_circuit_command(CircuitKind::Show, args, 1)
    } else if str_eq(w, "benchmark") {
        command_with(CircuitKind::Prepare, CircuitAction::Benchmark, parse_options(args, 1))
    } else if str_eq(w, "setup_prepare") {
        command_with(CircuitKind::Prepare, CircuitAction::Setup, parse_options(args, 1))
    } else if str_eq(w, "setup_show") {
        command_with(CircuitKind::Show, CircuitAction::Setup, parse_options(args, 1))
    } else if str_eq(w, "prove_prepare") {
        command_with(CircuitKind::Prepare, CircuitAction::Prove, parse_options(args, 1))
    } else if str_eq(w, "prove_show") {
        command_with(CircuitKind::Show, CircuitAction::Prove, parse_options(args, 1))
    } else if str_eq(w, "verify_prepare") {
        command_with(CircuitKind::Prepare, CircuitAction::Verify, ensure_no_options(args, 1))
    } else if str_eq(w, "verify_show") {
        command_with(CircuitKind::Show, CircuitAction::Verify, ensure_no_options(args, 1))
    } else if str_eq(w, "reblind_prepare") {
        command_with(CircuitKind::Prepare, CircuitAction::Reblind, ensure_no_options(args, 1))
    } else if str_eq(w, "reblind_show") {
        command_with(CircuitKind::Show, CircuitAction::Reblind, ensure_no_options(args, 1))
    } else if str_eq(w, "generate_shared_blinds") {
        command_with(CircuitKind::Prepare, CircuitAction::GenerateSharedBlinds, ensure_no_options(args, 1))
    } else {
        Err(CliError::UnknownCommand)
    }
}

} // verus!
