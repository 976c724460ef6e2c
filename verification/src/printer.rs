use vstd::prelude::*;
use crate::args::Args;
use crate::counters::Counters;

verus! {

/// Decides which channel, if any, a line may go to. The printing itself is
/// the caller's: this type only answers, from the two mode flags, whether a
/// line is emitted.
pub struct Printer {
    verbose: bool,
    quiet: bool,
}

/// The end-of-run summary, line by line: whether the separator is shown,
/// and each counter line with its value where it is shown. A counter line
/// is shown only when its count is non-zero and quiet mode is off.
#[derive(Clone, Copy, PartialEq, Eq, Structural, Debug)]
pub struct SummaryPlan {
    pub separator: bool,
    pub files_line: Option<u64>,
    pub dirs_line: Option<u64>,
    pub errors_line: Option<u64>,
}

impl Printer {
    /// Whether verbose mode is on.
    pub closed spec fn is_verbose(self) -> bool {
        self.verbose
    }

    /// Whether quiet mode is on.
    pub closed spec fn is_quiet(self) -> bool {
        self.quiet
    }

    /// Takes the two mode flags from the parsed arguments.
    pub fn new(args: &Args) -> (p: Self)
        ensures
            p.is_verbose() == args.verbose,
            p.is_quiet() == args.quiet,
    {
        Printer { verbose: args.verbose, quiet: args.quiet }
    }

    /// Whether an ordinary standard-output line is emitted: quiet mode
    /// suspends all of them.
    pub fn emits_stdout(&self) -> (b: bool)
        ensures
            b == !self.is_quiet(),
    {
        !self.quiet
    }

    /// Whether a verbose line (one "Deleting: ..." announcement per
    /// attempt) is emitted: only in verbose mode, and never in quiet mode.
    pub fn emits_verbose(&self) -> (b: bool)
        ensures
            b == (self.is_verbose() && !self.is_quiet()),
    {
        self.verbose && !self.quiet
    }

    /// Whether an error line is emitted on standard error: always,
    /// regardless of quiet mode.
    pub fn emits_stderr(&self) -> (b: bool)
        ensures
            b,
    {
        true
    }

    /// Lays out the end-of-run summary: the separator appears only in
    /// verbose mode, each counter line only when its count is non-zero,
    /// and quiet mode suppresses the whole summary.
    pub fn summary_plan(&self, c: &Counters) -> (s: SummaryPlan)
        ensures
            s.separator == (self.is_verbose() && !self.is_quiet()),
            s.files_line == (if !self.is_quiet() && c.deleted_files != 0 {
                Some(c.deleted_files)
            } else {
                None::<u64>
            }),
            s.dirs_line == (if !self.is_quiet() && c.deleted_directories != 0 {
                Some(c.deleted_directories)
            } else {
                None::<u64>
            }),
            s.errors_line == (if !self.is_quiet() && c.errors != 0 {
                Some(c.errors)
            } else {
                None::<u64>
            }),
    {
        if self.quiet {
            SummaryPlan { separator: false, files_line: None, dirs_line: None, errors_line: None }
        } else {
            SummaryPlan {
                separator: self.verbose,
                files_line: if c.deleted_files != 0 { Some(c.deleted_files) } else { None },
                dirs_line: if c.deleted_directories != 0 { Some(c.deleted_directories) } else { None },
                errors_line: if c.errors != 0 { Some(c.errors) } else { None },
            }
        }
    }
}

} // verus!
