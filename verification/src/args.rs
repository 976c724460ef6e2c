use vstd::prelude::*;

verus! {

/// Parsed command-line input: the two mode flags and the positional paths,
/// in the order they were given.
pub struct Args {
    pub verbose: bool,
    pub quiet: bool,
    pub paths: Vec<String>,
}

/// A fatal misuse of the command line. Either one is detected before any
/// deletion is attempted, and ends the run with no filesystem mutation.
#[derive(Clone, Copy, PartialEq, Eq, Structural, Debug)]
pub enum CliError {
    /// `--verbose` and `--quiet` were both set; they exclude one another.
    ConflictingFlags,
    /// No positional path was given; at least one is required.
    NoPathsProvided,
}

/// Run-level guards: the flag conflict is checked first, then that at least
/// one path was given. Deletion may start only when this returns `Ok`.
pub fn validate_args(args: &Args) -> (r: Result<(), CliError>)
    ensures
        r == Err::<(), CliError>(CliError::ConflictingFlags) <==> (args.verbose && args.quiet),
        r == Err::<(), CliError>(CliError::NoPathsProvided)
            <==> (!(args.verbose && args.quiet) && args.paths@.len() == 0),
        r is Ok <==> (!(args.verbose && args.quiet) && args.paths@.len() > 0),
{
    if args.verbose && args.quiet {
        Err(CliError::ConflictingFlags)
    } else if args.paths.len() == 0 {
        Err(CliError::NoPathsProvided)
    } else {
        Ok(())
    }
}

} // verus!
