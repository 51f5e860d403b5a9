//! The command line of the application.

use vstd::prelude::*;

use crate::text::same_text;

verus! {

broadcast use vstd::string::group_string_axioms;

/// What the command line asks for.
#[derive(Debug, PartialEq, Eq)]
pub enum CliRequest {
    /// Show the dashboard, with the configuration file given by `--config`, if any.
    Run { config_path: Option<String> },
    /// Print the usage and stop.
    Help,
}

/// What a command line means, as plain values.
pub enum CliOutcome {
    Run(Option<Seq<char>>),
    Help,
    Error(Seq<char>),
}

/// What the arguments `args` mean, read from left to right, when the
/// configuration path found so far is `current`: `--config` takes the next
/// argument as the path (a later one wins), `--help` or `-h` asks for the
/// usage at once, anything else is an error that stops the reading.
pub open spec fn cli_outcome(args: Seq<Seq<char>>, current: Option<Seq<char>>) -> CliOutcome
    decreases args.len(),
{
    if args.len() == 0 {
        CliOutcome::Run(current)
    } else if args[0] == "--config"@ {
        if args.len() < 2 {
            CliOutcome::Error("--config requires a path"@)
        } else {
            cli_outcome(args.skip(2), Some(args[1]))
        }
    } else if args[0] == "--help"@ || args[0] == "-h"@ {
        CliOutcome::Help
    } else {
        CliOutcome::Error("unknown argument: "@ + args[0])
    }
}

/// The texts of the arguments.
pub open spec fn arg_texts(args: Seq<String>) -> Seq<Seq<char>> {
    args.map_values(|a: String| a@)
}

/// `r` is what `outcome` describes.
pub open spec fn describes(outcome: CliOutcome, r: Result<CliRequest, String>) -> bool {
    match outcome {
        CliOutcome::Run(path) => r matches Ok(CliRequest::Run { config_path }) && match (
            config_path,
            path,
        ) {
            (Some(p), Some(q)) => p@ == q,
            (None, None) => true,
            _ => false,
        },
        CliOutcome::Help => r matches Ok(CliRequest::Help),
        CliOutcome::Error(m) => r matches Err(message) && message@ == m,
    }
}

/// Reads the arguments of the command line (without the program name).
pub fn parse_config_path(args: &Vec<String>) -> (r: Result<CliRequest, String>)
    ensures
        describes(cli_outcome(arg_texts(args@), None), r),
{
    let mut config_path: Option<String> = None;
    let mut i: usize = 0;
    assert(arg_texts(args@).skip(0) =~= arg_texts(args@));
    while i < args.len()
        invariant
            0 <= i <= args@.len(),
            cli_outcome(arg_texts(args@), None) == cli_outcome(
                arg_texts(args@).skip(i as int),
                match config_path {
                    Some(p) => Some(p@),
                    None => None,
                },
            ),
        decreases args@.len() - i,
    {
        let ghost rest = arg_texts(args@).skip(i as int);
        let arg = args[i].as_str();
        assert(rest[0] == arg@);
        if same_text(arg, "--config") {
            if i + 1 >= args.len() {
                return Err(String::from_str("--config requires a path"));
            }
            config_path = Some(args[i + 1].clone());
            assert(rest[1] == args@[i + 1]@);
            assert(rest.skip(2) =~= arg_texts(args@).skip(i + 2));
            i = i + 2;
        } else if same_text(arg, "--help") || same_text(arg, "-h") {
            return Ok(CliRequest::Help);
        } else {
            let mut message = String::from_str("unknown argument: ");
            message.append(arg);
            return Err(message);
        }
    }
    Ok(CliRequest::Run { config_path })
}

} // verus!
