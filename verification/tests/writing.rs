use fcr::engine::compile;
use fcr::gate::{classify_response, Gate, PromptAnswer};
use fcr::matcher::{scan, CandidateFile, MatchedFile};
use fcr::writer::{start, step, target_path, Action, Awaiting, Event, WriterState};

struct Disk {
    root_exists: bool,
    creation_works: bool,
    files: Vec<(String, String)>,
}

struct Outcome {
    aborted: bool,
    prompts: usize,
    root_checks: usize,
    warnings: Vec<String>,
    written: Vec<String>,
}

fn lookup(disk: &Disk, path: &str) -> Option<String> {
    disk.files.iter().find(|(p, _)| p == path).map(|(_, c)| c.clone())
}

fn run(files: &[MatchedFile], root: &str, replies: &[&str], disk: &mut Disk) -> Outcome {
    let mut outcome =
        Outcome { aborted: false, prompts: 0, root_checks: 0, warnings: vec![], written: vec![] };
    let mut replies = replies.iter();
    let (mut state, mut action) = start(files.len());
    loop {
        let event = match action {
            Action::CheckRoot => {
                outcome.root_checks += 1;
                Event::RootChecked(disk.root_exists)
            }
            Action::Prompt => {
                outcome.prompts += 1;
                Event::Answered(classify_response(replies.next().unwrap()))
            }
            Action::CreateRoot => {
                disk.root_exists = disk.creation_works;
                Event::RootCreated(disk.creation_works)
            }
            Action::Abort => {
                outcome.aborted = true;
                return outcome;
            }
            Action::CheckTarget(i) => {
                Event::TargetChecked(lookup(disk, &target_path(root, "/", &files[i])).is_some())
            }
            Action::Skip(i) => {
                outcome.warnings.push(files[i].name.clone());
                Event::Completed
            }
            Action::Write(i) => {
                assert!(disk.root_exists);
                let path = target_path(root, "/", &files[i]);
                assert!(lookup(disk, &path).is_none());
                disk.files.push((path.clone(), files[i].content.clone()));
                outcome.written.push(path);
                Event::Completed
            }
            Action::Finish => return outcome,
            Action::Rejected => panic!("an event in turn was rejected"),
        };
        let after = step(state, event, files.len());
        state = after.0;
        action = after.1;
    }
}

fn record(name: &str, content: &str) -> MatchedFile {
    MatchedFile { path: format!("/src/{}", name), name: name.to_string(), content: content.to_string() }
}

fn candidate(path: &str, name: &str, text: &str) -> CandidateFile {
    CandidateFile {
        path: path.to_string(),
        name: name.to_string(),
        lines: Some(text.lines().map(|l| l.to_string()).collect()),
    }
}

fn scenario_files() -> Vec<MatchedFile> {
    let re = compile("foo").unwrap();
    let files =
        vec![candidate("/src/a.txt", "a.txt", "foo bar foo"), candidate("/src/b.txt", "b.txt", "baz")];
    scan(&re, "qux", &files)
}

#[test]
fn target_path_is_flat_under_the_root() {
    let file = MatchedFile {
        path: "/src/deep/er/a.txt".to_string(),
        name: "a.txt".to_string(),
        content: String::new(),
    };
    assert_eq!(target_path("/dst", "/", &file), "/dst/a.txt");
    assert_eq!(target_path("C:\\dst", "\\", &file), "C:\\dst\\a.txt");
}

#[test]
fn start_without_matches_finishes_at_once() {
    let (state, action) = start(0);
    assert_eq!(action, Action::Finish);
    assert_eq!(state, WriterState { gate: Gate::Unchecked, cursor: 0, awaiting: Awaiting::Nothing });
}

#[test]
fn start_with_matches_checks_the_root_first() {
    let (state, action) = start(3);
    assert_eq!(action, Action::CheckRoot);
    assert_eq!(state, WriterState { gate: Gate::Unchecked, cursor: 0, awaiting: Awaiting::RootCheck });
}

#[test]
fn no_match_never_prompts() {
    let mut disk = Disk { root_exists: false, creation_works: true, files: vec![] };
    let outcome = run(&[], "/dst", &[], &mut disk);
    assert!(!outcome.aborted);
    assert_eq!(outcome.prompts, 0);
    assert_eq!(outcome.root_checks, 0);
    assert!(!disk.root_exists);
    assert!(disk.files.is_empty());
}

#[test]
fn no_match_rejects_every_event() {
    let (state, _) = start(0);
    let events = [
        Event::RootChecked(true),
        Event::RootChecked(false),
        Event::Answered(PromptAnswer::Affirmative),
        Event::RootCreated(true),
        Event::TargetChecked(false),
        Event::Completed,
    ];
    for event in events {
        assert_eq!(step(state, event, 0), (state, Action::Rejected));
    }
}

#[test]
fn scenario_copies_only_the_matching_file() {
    let files = scenario_files();
    let mut disk = Disk { root_exists: true, creation_works: true, files: vec![] };
    let outcome = run(&files, "/dst", &[], &mut disk);
    assert!(!outcome.aborted);
    assert_eq!(outcome.prompts, 0);
    assert_eq!(disk.files, vec![("/dst/a.txt".to_string(), "qux bar qux".to_string())]);
    assert!(lookup(&disk, "/dst/b.txt").is_none());
}

#[test]
fn scenario_existing_file_is_kept_with_a_warning() {
    let files = scenario_files();
    let mut disk = Disk {
        root_exists: true,
        creation_works: true,
        files: vec![("/dst/a.txt".to_string(), "old".to_string())],
    };
    let outcome = run(&files, "/dst", &[], &mut disk);
    assert!(!outcome.aborted);
    assert_eq!(outcome.warnings, vec!["a.txt".to_string()]);
    assert!(outcome.written.is_empty());
    assert_eq!(disk.files, vec![("/dst/a.txt".to_string(), "old".to_string())]);
}

#[test]
fn second_run_skips_everything() {
    let files = vec![record("a.txt", "one"), record("b.txt", "two")];
    let mut disk = Disk { root_exists: false, creation_works: true, files: vec![] };
    let first = run(&files, "/dst", &["y\n"], &mut disk);
    assert_eq!(first.written, vec!["/dst/a.txt".to_string(), "/dst/b.txt".to_string()]);
    let snapshot = disk.files.clone();
    let second = run(&files, "/dst", &[], &mut disk);
    assert!(second.written.is_empty());
    assert_eq!(second.warnings, vec!["a.txt".to_string(), "b.txt".to_string()]);
    assert_eq!(second.prompts, 0);
    assert_eq!(disk.files, snapshot);
}

#[test]
fn declining_creation_writes_nothing() {
    let files = vec![record("a.txt", "one"), record("b.txt", "two")];
    let mut disk = Disk { root_exists: false, creation_works: true, files: vec![] };
    let outcome = run(&files, "/dst", &["n\n"], &mut disk);
    assert!(outcome.aborted);
    assert!(outcome.written.is_empty());
    assert!(disk.files.is_empty());
    assert!(!disk.root_exists);
}

#[test]
fn cancelling_creation_writes_nothing() {
    let files = vec![record("a.txt", "one")];
    let mut disk = Disk { root_exists: false, creation_works: true, files: vec![] };
    let outcome = run(&files, "/dst", &["C\n"], &mut disk);
    assert!(outcome.aborted);
    assert!(disk.files.is_empty());
}

#[test]
fn empty_reply_creates_the_root() {
    let files = vec![record("a.txt", "one")];
    let mut disk = Disk { root_exists: false, creation_works: true, files: vec![] };
    let outcome = run(&files, "/dst", &["\n"], &mut disk);
    assert!(!outcome.aborted);
    assert_eq!(outcome.prompts, 1);
    assert!(disk.root_exists);
    assert_eq!(disk.files, vec![("/dst/a.txt".to_string(), "one".to_string())]);
}

#[test]
fn unrecognized_reply_prompts_again() {
    let files = vec![record("a.txt", "one")];
    let mut disk = Disk { root_exists: false, creation_works: true, files: vec![] };
    let outcome = run(&files, "/dst", &["maybe\n", "what\n", "Y\n"], &mut disk);
    assert!(!outcome.aborted);
    assert_eq!(outcome.prompts, 3);
    assert_eq!(disk.files.len(), 1);
}

#[test]
fn gate_is_consulted_once_per_run() {
    let files = vec![record("a", "1"), record("b", "2"), record("c", "3")];
    let mut disk = Disk { root_exists: false, creation_works: true, files: vec![] };
    let outcome = run(&files, "/dst", &["y"], &mut disk);
    assert_eq!(outcome.root_checks, 1);
    assert_eq!(outcome.prompts, 1);
    assert_eq!(outcome.written.len(), 3);
}

#[test]
fn failed_creation_aborts() {
    let files = vec![record("a.txt", "one")];
    let mut disk = Disk { root_exists: false, creation_works: false, files: vec![] };
    let outcome = run(&files, "/dst", &["y\n"], &mut disk);
    assert!(outcome.aborted);
    assert!(disk.files.is_empty());
}

#[test]
fn same_name_twice_is_written_once() {
    let files = vec![
        MatchedFile { path: "/src/x/a".to_string(), name: "a".to_string(), content: "first".to_string() },
        MatchedFile { path: "/src/y/a".to_string(), name: "a".to_string(), content: "second".to_string() },
    ];
    let mut disk = Disk { root_exists: true, creation_works: true, files: vec![] };
    let outcome = run(&files, "/dst", &[], &mut disk);
    assert_eq!(disk.files, vec![("/dst/a".to_string(), "first".to_string())]);
    assert_eq!(outcome.warnings, vec!["a".to_string()]);
}

#[test]
fn step_follows_the_table() {
    let (s0, _) = start(2);
    let (s1, a1) = step(s0, Event::RootChecked(false), 2);
    assert_eq!(a1, Action::Prompt);
    assert_eq!(s1, WriterState { gate: Gate::PromptedCreate, cursor: 0, awaiting: Awaiting::Answer });
    let (s2, a2) = step(s1, Event::Answered(PromptAnswer::Unrecognized), 2);
    assert_eq!((s2, a2), (s1, Action::Prompt));
    let (s3, a3) = step(s2, Event::Answered(PromptAnswer::Affirmative), 2);
    assert_eq!(a3, Action::CreateRoot);
    assert_eq!(s3.awaiting, Awaiting::Creation);
    let (s4, a4) = step(s3, Event::RootCreated(true), 2);
    assert_eq!(a4, Action::CheckTarget(0));
    assert_eq!(s4, WriterState { gate: Gate::Created, cursor: 0, awaiting: Awaiting::TargetCheck });
    let (s5, a5) = step(s4, Event::TargetChecked(false), 2);
    assert_eq!(a5, Action::Write(0));
    let (s6, a6) = step(s5, Event::Completed, 2);
    assert_eq!(a6, Action::CheckTarget(1));
    assert_eq!(s6.cursor, 1);
    let (s7, a7) = step(s6, Event::TargetChecked(true), 2);
    assert_eq!(a7, Action::Skip(1));
    let (s8, a8) = step(s7, Event::Completed, 2);
    assert_eq!(a8, Action::Finish);
    assert_eq!(s8, WriterState { gate: Gate::Created, cursor: 2, awaiting: Awaiting::Nothing });
    assert_eq!(step(s8, Event::Completed, 2), (s8, Action::Rejected));
}

#[test]
fn step_rejects_an_event_out_of_turn() {
    let (s0, _) = start(1);
    assert_eq!(step(s0, Event::TargetChecked(false), 1), (s0, Action::Rejected));
    assert_eq!(step(s0, Event::Completed, 1), (s0, Action::Rejected));
    assert_eq!(step(s0, Event::Answered(PromptAnswer::Affirmative), 1), (s0, Action::Rejected));
    let (s1, _) = step(s0, Event::RootChecked(true), 1);
    assert_eq!(s1.gate, Gate::Exists);
    assert_eq!(step(s1, Event::RootChecked(false), 1), (s1, Action::Rejected));
}

#[test]
fn aborted_run_rejects_everything() {
    let (s0, _) = start(1);
    let (s1, _) = step(s0, Event::RootChecked(false), 1);
    let (s2, a2) = step(s1, Event::Answered(PromptAnswer::Negative), 1);
    assert_eq!(a2, Action::Abort);
    assert_eq!(s2.gate, Gate::Aborted);
    assert_eq!(step(s2, Event::TargetChecked(false), 1), (s2, Action::Rejected));
    assert_eq!(step(s2, Event::RootCreated(true), 1), (s2, Action::Rejected));
    assert_eq!(step(s2, Event::Answered(PromptAnswer::Affirmative), 1), (s2, Action::Rejected));
}

#[test]
fn well_formed_knows_the_states_of_a_run() {
    let (s0, _) = start(2);
    assert!(s0.well_formed(2));
    assert!(!s0.well_formed(0));
    let (s1, _) = step(s0, Event::RootChecked(true), 2);
    assert!(s1.well_formed(2));
    let odd = WriterState { gate: Gate::Unchecked, cursor: 0, awaiting: Awaiting::TargetCheck };
    assert!(!odd.well_formed(2));
    let beyond = WriterState { gate: Gate::Exists, cursor: 3, awaiting: Awaiting::Nothing };
    assert!(!beyond.well_formed(2));
    let done = WriterState { gate: Gate::Exists, cursor: 2, awaiting: Awaiting::Nothing };
    assert!(done.well_formed(2));
}

#[test]
fn step_never_writes_through_a_closed_gate() {
    let odd = WriterState { gate: Gate::Unchecked, cursor: 0, awaiting: Awaiting::TargetCheck };
    assert_eq!(step(odd, Event::TargetChecked(false), 2), (odd, Action::Rejected));
    let aborted = WriterState { gate: Gate::Aborted, cursor: 0, awaiting: Awaiting::TargetCheck };
    assert_eq!(step(aborted, Event::TargetChecked(false), 2), (aborted, Action::Rejected));
}
