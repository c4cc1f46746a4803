//! Where a run reads from and writes to.

use vstd::prelude::*;

use crate::args::Args;

verus! {

/// Where the input comes from.
#[derive(Debug)]
pub enum Source {
    /// Standard input, which is not a terminal.
    Stdin,
    /// The file at this path.
    File(String),
}

/// Where the output goes.
#[derive(Debug)]
pub enum Sink {
    /// Standard output, which is not a terminal.
    Stdout,
    /// The file at this path.
    File(String),
}

/// Why a run has nothing to read from or to write to.
#[derive(Clone, Copy, Debug, PartialEq, Eq, Structural)]
pub enum SetupError {
    /// No input path was given and standard input is a terminal.
    NoInput,
    /// No output path was given and standard output is a terminal.
    NoOutput,
}

/// The two ends of a run.
#[derive(Debug)]
pub struct IoBufs {
    pub input: Source,
    pub output: Sink,
}

/// The input of a run: the path given, or else standard input unless it is a terminal.
pub open spec fn chosen_source(path: Option<String>, stdin_is_terminal: bool) -> Result<
    Source,
    SetupError,
> {
    match path {
        Some(p) => Ok(Source::File(p)),
        None => if stdin_is_terminal {
            Err(SetupError::NoInput)
        } else {
            Ok(Source::Stdin)
        },
    }
}

/// The output of a run: the path given, or else standard output unless it is a terminal.
pub open spec fn chosen_sink(path: Option<String>, stdout_is_terminal: bool) -> Result<
    Sink,
    SetupError,
> {
    match path {
        Some(p) => Ok(Sink::File(p)),
        None => if stdout_is_terminal {
            Err(SetupError::NoOutput)
        } else {
            Ok(Sink::Stdout)
        },
    }
}

/// Chooses the input of a run.
pub fn select_source(path: &Option<String>, stdin_is_terminal: bool) -> (res: Result<
    Source,
    SetupError,
>)
    ensures
        res == chosen_source(*path, stdin_is_terminal),
{
    match path {
        Some(p) => Ok(Source::File(p.clone())),
        None => if stdin_is_terminal {
            Err(SetupError::NoInput)
        } else {
            Ok(Source::Stdin)
        },
    }
}

/// Chooses the output of a run.
pub fn select_sink(path: &Option<String>, stdout_is_terminal: bool) -> (res: Result<
    Sink,
    SetupError,
>)
    ensures
        res == chosen_sink(*path, stdout_is_terminal),
{
    match path {
        Some(p) => Ok(Sink::File(p.clone())),
        None => if stdout_is_terminal {
            Err(SetupError::NoOutput)
        } else {
            Ok(Sink::Stdout)
        },
    }
}

impl IoBufs {
    /// Chooses both ends of a run. A missing input is reported before a
    /// missing output.
    pub fn new(args: &Args, stdin_is_terminal: bool, stdout_is_terminal: bool) -> (res: Result<
        IoBufs,
        SetupError,
    >)
        ensures
            res == match chosen_source(args.input, stdin_is_terminal) {
                Err(e) => Err(e),
                Ok(input) => match chosen_sink(args.output, stdout_is_terminal) {
                    Err(e) => Err(e),
                    Ok(output) => Ok(IoBufs { input, output }),
                },
            },
    {
        let input = match select_source(&args.input, stdin_is_terminal) {
            Ok(input) => input,
            Err(e) => {
                return Err(e);
            },
        };
        match select_sink(&args.output, stdout_is_terminal) {
            Ok(output) => Ok(IoBufs { input, output }),
            Err(e) => Err(e),
        }
    }
}

} // verus!
