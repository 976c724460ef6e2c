use deleter::args::{validate_args, Args, CliError};
use deleter::counters::{tally, Counters, Event};
use deleter::events::{
    entry_action, entry_outcome, path_action, path_outcome, EntryAction, EntryKind, PathAction,
    PathKind,
};
use deleter::printer::Printer;
use deleter::walk::{removal_plan, run_events, Node, Step};

fn args(verbose: bool, quiet: bool, paths: Vec<String>) -> Args {
    Args { verbose, quiet, paths }
}

#[test]
fn single_file_run_counts() {
    let plan = removal_plan(&Node::File);
    assert_eq!(plan, vec![Step::File]);
    let events = run_events(&plan, &vec![true]);
    assert_eq!(events, vec![Event::FileDeleted]);
    let c = tally(&events);
    assert_eq!(c.deleted_files, 1);
    assert_eq!(c.deleted_directories, 0);
    assert_eq!(c.errors, 0);
}

#[test]
fn removable_tree_counts_everything() {
    // A root with a file, a subdirectory holding a file, and one more file:
    // three files and two directories, nothing failing.
    let tree = Node::Dir(vec![
        Node::File,
        Node::Dir(vec![Node::File]),
        Node::File,
    ]);
    let plan = removal_plan(&tree);
    assert_eq!(plan.len(), 5);
    let oks = vec![true; plan.len()];
    let events = run_events(&plan, &oks);
    let c = tally(&events);
    assert_eq!(c.deleted_files, 3);
    assert_eq!(c.deleted_directories, 2);
    assert_eq!(c.errors, 0);
}

#[test]
fn plan_is_contents_first() {
    // Each directory's own attempt comes after everything inside it.
    let tree = Node::Dir(vec![Node::Dir(vec![Node::File]), Node::File]);
    let plan = removal_plan(&tree);
    assert_eq!(plan, vec![Step::File, Step::Dir, Step::File, Step::Dir]);

    let deep = Node::Dir(vec![Node::Dir(vec![Node::Dir(vec![])])]);
    let plan = removal_plan(&deep);
    assert_eq!(plan, vec![Step::Dir, Step::Dir, Step::Dir]);
}

#[test]
fn failed_file_blocks_its_directory() {
    // The file inside cannot be removed, so the directory stays non-empty
    // and its own removal fails too: at least two errors.
    let tree = Node::Dir(vec![Node::File]);
    let plan = removal_plan(&tree);
    assert_eq!(plan, vec![Step::File, Step::Dir]);
    let events = run_events(&plan, &vec![false, false]);
    assert_eq!(events, vec![Event::FileRemovalFailed, Event::DirRemovalFailed]);
    let c = tally(&events);
    assert_eq!(c.deleted_files, 0);
    assert_eq!(c.deleted_directories, 0);
    assert_eq!(c.errors, 2);
}

#[test]
fn zero_paths_is_rejected_before_any_deletion() {
    let r = validate_args(&args(false, false, vec![]));
    assert_eq!(r, Err(CliError::NoPathsProvided));
    let r = validate_args(&args(true, false, vec![]));
    assert_eq!(r, Err(CliError::NoPathsProvided));
}

#[test]
fn conflicting_flags_are_rejected_first() {
    let r = validate_args(&args(true, true, vec!["a".to_string()]));
    assert_eq!(r, Err(CliError::ConflictingFlags));
    // The conflict is detected even before the empty path list.
    let r = validate_args(&args(true, true, vec![]));
    assert_eq!(r, Err(CliError::ConflictingFlags));
}

#[test]
fn well_formed_arguments_pass() {
    let r = validate_args(&args(false, true, vec!["a".to_string()]));
    assert_eq!(r, Ok(()));
    let r = validate_args(&args(true, false, vec!["a".to_string(), "b".to_string()]));
    assert_eq!(r, Ok(()));
}

#[test]
fn quiet_run_on_missing_path() {
    // Quiet mode with a nonexistent path: nothing may reach standard
    // output, the error still goes to standard error, and the error
    // counter ends at one.
    let a = args(false, true, vec!["gone".to_string()]);
    assert_eq!(validate_args(&a), Ok(()));
    let p = Printer::new(&a);
    assert!(!p.emits_stdout());
    assert!(!p.emits_verbose());
    assert!(p.emits_stderr());

    assert_eq!(path_action(PathKind::Missing), PathAction::ReportMissing);
    let e = path_outcome(PathKind::Missing, false).unwrap();
    assert_eq!(e, Event::PathNotFound);
    let c = tally(&vec![e]);
    assert_eq!(c.errors, 1);
    assert_eq!(c.deleted_files, 0);
    assert_eq!(c.deleted_directories, 0);

    // The whole summary is suppressed under quiet mode.
    let s = p.summary_plan(&c);
    assert!(!s.separator);
    assert_eq!(s.files_line, None);
    assert_eq!(s.dirs_line, None);
    assert_eq!(s.errors_line, None);
}

#[test]
fn deleting_an_already_deleted_path_again() {
    // The first run removes the file; a second run on the now-missing path
    // reports it as not found and counts one error, nothing more.
    let first = tally(&vec![Event::FileDeleted]);
    assert_eq!(first.deleted_files, 1);
    assert_eq!(first.errors, 0);
    let second = tally(&vec![path_outcome(PathKind::Missing, false).unwrap()]);
    assert_eq!(second.deleted_files, 0);
    assert_eq!(second.deleted_directories, 0);
    assert_eq!(second.errors, 1);
}

#[test]
fn path_decisions_follow_the_probe() {
    assert_eq!(path_action(PathKind::File), PathAction::DeleteFile);
    assert_eq!(path_action(PathKind::Dir), PathAction::WalkTree);
    assert_eq!(path_action(PathKind::Missing), PathAction::ReportMissing);
    assert_eq!(path_action(PathKind::Other), PathAction::ReportUnsupported);

    assert_eq!(path_outcome(PathKind::File, true), Some(Event::FileDeleted));
    assert_eq!(path_outcome(PathKind::File, false), Some(Event::FileRemovalFailed));
    assert_eq!(path_outcome(PathKind::Dir, true), None);
    assert_eq!(path_outcome(PathKind::Dir, false), None);
    assert_eq!(path_outcome(PathKind::Other, true), Some(Event::UnsupportedEntryType));
}

#[test]
fn entry_decisions_follow_the_entry() {
    assert_eq!(entry_action(EntryKind::Dir), EntryAction::DeleteDir);
    assert_eq!(entry_action(EntryKind::File), EntryAction::DeleteFile);
    assert_eq!(entry_action(EntryKind::Other), EntryAction::ReportUnsupported);

    assert_eq!(entry_outcome(EntryKind::Dir, true), Event::DirDeleted);
    assert_eq!(entry_outcome(EntryKind::Dir, false), Event::DirRemovalFailed);
    assert_eq!(entry_outcome(EntryKind::File, true), Event::FileDeleted);
    assert_eq!(entry_outcome(EntryKind::File, false), Event::FileRemovalFailed);
    // Nothing is attempted for an unsupported entry, whatever the flag says.
    assert_eq!(entry_outcome(EntryKind::Other, true), Event::UnsupportedEntryType);
    assert_eq!(entry_outcome(EntryKind::Other, false), Event::UnsupportedEntryType);
}

#[test]
fn every_event_moves_exactly_one_counter() {
    let mut c = Counters::new();
    c.record(Event::FileDeleted);
    assert_eq!((c.deleted_files, c.deleted_directories, c.errors), (1, 0, 0));
    c.record(Event::DirDeleted);
    assert_eq!((c.deleted_files, c.deleted_directories, c.errors), (1, 1, 0));
    c.record(Event::PathNotFound);
    c.record(Event::FileRemovalFailed);
    c.record(Event::DirRemovalFailed);
    c.record(Event::UnsupportedEntryType);
    c.record(Event::TraversalReadError);
    assert_eq!((c.deleted_files, c.deleted_directories, c.errors), (1, 1, 5));
}

#[test]
fn tally_of_no_events_is_all_zero() {
    let c = tally(&vec![]);
    assert_eq!(c, Counters { deleted_files: 0, deleted_directories: 0, errors: 0 });
}

#[test]
fn summary_shows_only_nonzero_counters() {
    let a = args(false, false, vec!["a".to_string()]);
    let p = Printer::new(&a);
    let s = p.summary_plan(&Counters { deleted_files: 0, deleted_directories: 0, errors: 0 });
    assert!(!s.separator);
    assert_eq!(s.files_line, None);
    assert_eq!(s.dirs_line, None);
    assert_eq!(s.errors_line, None);

    let s = p.summary_plan(&Counters { deleted_files: 2, deleted_directories: 0, errors: 3 });
    assert!(!s.separator);
    assert_eq!(s.files_line, Some(2));
    assert_eq!(s.dirs_line, None);
    assert_eq!(s.errors_line, Some(3));
}

#[test]
fn verbose_summary_has_the_separator() {
    let a = args(true, false, vec!["a".to_string()]);
    let p = Printer::new(&a);
    assert!(p.emits_stdout());
    assert!(p.emits_verbose());
    let s = p.summary_plan(&Counters { deleted_files: 1, deleted_directories: 2, errors: 0 });
    assert!(s.separator);
    assert_eq!(s.files_line, Some(1));
    assert_eq!(s.dirs_line, Some(2));
    assert_eq!(s.errors_line, None);
}

#[test]
fn traversal_read_error_is_counted_and_continues() {
    // A walk that could not read one entry but went on removing the rest.
    let events = vec![
        Event::FileDeleted,
        Event::TraversalReadError,
        Event::FileDeleted,
        Event::DirDeleted,
    ];
    let c = tally(&events);
    assert_eq!(c.deleted_files, 2);
    assert_eq!(c.deleted_directories, 1);
    assert_eq!(c.errors, 1);
}

#[test]
fn unsupported_top_level_path_is_one_error() {
    let e = path_outcome(PathKind::Other, false).unwrap();
    assert_eq!(e, Event::UnsupportedEntryType);
    let c = tally(&vec![e]);
    assert_eq!((c.deleted_files, c.deleted_directories, c.errors), (0, 0, 1));
}
