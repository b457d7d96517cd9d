//! Reading the positional arguments of an invocation.

use vstd::prelude::*;
use vstd::string::StringExecFns;

verus! {

/// The four values that a run needs.
#[derive(Clone, Debug, PartialEq, Eq)]
pub struct Request {
    pub query: String,
    pub replacement: String,
    pub source: String,
    pub destination: String,
}

/// What the arguments ask for.
#[derive(Clone, Debug, PartialEq, Eq)]
pub enum Invocation {
    /// The first argument is `-help`.
    Help,
    /// Pattern, replacement, source directory and destination directory.
    Run(Request),
}

/// A required argument is absent.
#[derive(Clone, Copy, Debug, PartialEq, Eq, Structural)]
pub enum ArgError {
    /// No argument stands at this position.
    Missing(usize),
}

/// The argument at `index`.
pub fn get_arg(index: usize, args: &[String]) -> (arg: String)
    requires
        index < args@.len(),
    ensures
        arg == args@[index as int],
{
    args[index].clone()
}

/// The argument at `index`, or the error that names the missing position.
pub fn find_arg(index: usize, args: &[String]) -> (found: Result<String, ArgError>)
    ensures
        index < args@.len() ==> found == Ok::<String, ArgError>(args@[index as int]),
        index >= args@.len() ==> found == Err::<String, ArgError>(ArgError::Missing(index)),
{
    if index < args.len() {
        Ok(get_arg(index, args))
    } else {
        Err(ArgError::Missing(index))
    }
}

/// Whether the arguments ask for the help text.
pub open spec fn wants_help(args: Seq<String>) -> bool {
    args.len() >= 2 && args[1]@ == "-help"@
}

/// Reads an argument list whose first entry is the program's own name.
///
/// `-help` in first position short-circuits everything else. Otherwise four
/// values are needed, and the first position that is absent is reported.
pub fn parse_args(args: &[String]) -> (parsed: Result<Invocation, ArgError>)
    ensures
        args@.len() < 2 ==> parsed == Err::<Invocation, ArgError>(ArgError::Missing(1)),
        wants_help(args@) ==> parsed == Ok::<Invocation, ArgError>(Invocation::Help),
        2 <= args@.len() < 5 && !wants_help(args@) ==> parsed == Err::<Invocation, ArgError>(
            ArgError::Missing(args.len()),
        ),
        args@.len() >= 5 && !wants_help(args@) ==> parsed == Ok::<Invocation, ArgError>(
            Invocation::Run(
                Request {
                    query: args@[1],
                    replacement: args@[2],
                    source: args@[3],
                    destination: args@[4],
                },
            ),
        ),
{
    let query = match find_arg(1, args) {
        Ok(value) => value,
        Err(missing) => return Err(missing),
    };
    if query == String::from_str("-help") {
        return Ok(Invocation::Help);
    }
    let replacement = match find_arg(2, args) {
        Ok(value) => value,
        Err(missing) => return Err(missing),
    };
    let source = match find_arg(3, args) {
        Ok(value) => value,
        Err(missing) => return Err(missing),
    };
    let destination = match find_arg(4, args) {
        Ok(value) => value,
        Err(missing) => return Err(missing),
    };
    Ok(Invocation::Run(Request { query, replacement, source, destination }))
}

} // verus!
