use neatify::config::{Config, Stages};
use neatify::processor::{fix_indentation, remove_comments, remove_empty_lines, QuoteStyle};
use neatify::utils::{Entry, File};
use neatify::{apply_stages, run, Action, Event, RunError, RunState};

fn config() -> Config {
    Config {
        indent_size: None,
        remove_comments: None,
        remove_empty_lines: None,
        remove_trailing_spaces: None,
        quote_style: None,
        bracket_spacing: None,
        ignore_files: None,
        path: None,
    }
}

fn stages() -> Stages {
    Stages {
        comments: false,
        empty_lines: false,
        trailing_spaces: false,
        bracket_spacing: false,
        quote_style: None,
        indent: None,
    }
}

fn file(name: &str) -> File {
    File::new(name.to_string(), format!("dir/{}", name), 1, "txt".to_string(), false)
}

fn entry(name: &str, depth: usize, is_file: bool) -> Entry {
    Entry {
        name: name.to_string(),
        path: if depth == 0 { name.to_string() } else { format!("dir\\{}", name) },
        size: 1,
        extension: "txt".to_string(),
        depth,
        is_file,
    }
}

/// Runs to the end over a disk held in memory; gives the last action and
/// the descriptors that were written, in order.
fn drive(config: Config, entries: Vec<Entry>, disk: &mut Vec<(String, String)>) -> (Action, Vec<File>) {
    let mut written = Vec::new();
    let mut state = RunState::Started;
    let mut event = Event::ConfigLoaded(config);
    loop {
        let (next, action) = run(state, event);
        state = next;
        event = match action {
            Action::Walk { .. } => Event::Walked(entries.clone()),
            Action::Read { file } => match disk.iter().find(|(p, _)| *p == file.path) {
                Some((_, content)) => Event::ContentRead(content.clone()),
                None => Event::ReadFailed,
            },
            Action::Write { file, content } => match disk.iter_mut().find(|(p, _)| *p == file.path) {
                Some(slot) => {
                    slot.1 = content;
                    written.push(file);
                    Event::Written
                }
                None => Event::TargetMissing,
            },
            last => return (last, written),
        };
    }
}

#[test]
fn the_stages_run_in_their_fixed_order() {
    let mut all = stages();
    all.comments = true;
    all.empty_lines = true;
    all.trailing_spaces = true;
    all.bracket_spacing = true;
    all.quote_style = Some(QuoteStyle::Double);
    all.indent = Some(2);
    let content = "# note\nfn f() {x}  \n\n    let s = 'a';\n}".to_string();
    let (text, f) = apply_stages(content, file("a"), &all);
    assert_eq!(text, "fn f() { x }\n    let s = \"a\";\n}\n");
    assert!(f.is_modified);
    assert_eq!(f.path, "dir/a");
}

#[test]
fn comment_removal_comes_before_empty_line_removal() {
    let mut two = stages();
    two.comments = true;
    two.empty_lines = true;
    let (text, f) = apply_stages("a\n  # gone\n\nb\n".to_string(), file("a"), &two);
    assert_eq!(text, "a\nb");
    assert!(f.is_modified);
}

#[test]
fn no_stage_leaves_content_and_descriptor_alone() {
    let content = "# a\n\n  'x' {y}  ".to_string();
    let (text, f) = apply_stages(content.clone(), file("a"), &stages());
    assert_eq!(text, content);
    assert_eq!(f, file("a"));
}

#[test]
fn the_mark_tells_whether_any_stage_changed_the_content() {
    let mut two = stages();
    two.quote_style = Some(QuoteStyle::Single);
    two.indent = Some(4);
    let (text, f) = apply_stages("a\n    'b'".to_string(), file("a"), &two);
    assert_eq!(text, "a\n    'b'");
    assert!(!f.is_modified);
    let (text, f) = apply_stages("a\n    \"b\"".to_string(), file("a"), &two);
    assert_eq!(text, "a\n    'b'");
    assert!(f.is_modified);
    let mut one = stages();
    one.trailing_spaces = true;
    let (text, f) = apply_stages("a".to_string(), file("a"), &one);
    assert_eq!(text, "a\n");
    assert!(!f.is_modified);
}

#[test]
fn a_directory_of_three_files_with_one_ignored_gets_two_rewritten() {
    let mut c = config();
    c.remove_comments = Some(true);
    c.remove_empty_lines = Some(true);
    c.indent_size = Some(2);
    c.ignore_files = Some(vec!["skip.txt".to_string()]);
    c.path = Some("dir".to_string());
    let entries = vec![
        entry("dir", 0, false),
        entry("a.txt", 1, true),
        entry("skip.txt", 1, true),
        entry("b.txt", 1, true),
    ];
    let before = vec![
        ("dir/a.txt".to_string(), "# head\n\nx\n    y\n}".to_string()),
        ("dir/skip.txt".to_string(), "# untouched\n\n".to_string()),
        ("dir/b.txt".to_string(), "x\n  y".to_string()),
    ];
    let mut disk = before.clone();
    let (last, written) = drive(c, entries, &mut disk);
    assert_eq!(last, Action::Finish);
    assert_eq!(written.len(), 2);
    assert_eq!(written[0].path, "dir/a.txt");
    assert_eq!(written[1].path, "dir/b.txt");
    assert_eq!(disk[0].1, "x\n    y\n}");
    assert_eq!(disk[1], before[1]);
    assert_eq!(disk[2].1, "x\n  y");
    for (file, at) in [(&written[0], 0), (&written[1], 2)] {
        let fresh = File::new(file.name.clone(), file.path.clone(), 1, "txt".to_string(), false);
        let (text, one) = remove_comments(before[at].1.clone(), fresh.clone()).unwrap();
        let (text, two) = remove_empty_lines(text, fresh.clone()).unwrap();
        let (_, three) = fix_indentation(text, 2, fresh).unwrap();
        let any = one.is_modified || two.is_modified || three.is_modified;
        assert_eq!(file.is_modified, any);
    }
    assert!(written[0].is_modified);
}

#[test]
fn a_root_without_files_aborts_before_any_write() {
    let mut disk = vec![("dir/skip.txt".to_string(), "a".to_string())];
    let mut c = config();
    c.ignore_files = Some(vec!["skip.txt".to_string()]);
    c.remove_trailing_spaces = Some(true);
    let entries = vec![entry("dir", 0, false), entry("skip.txt", 1, true)];
    let (last, written) = drive(c, entries, &mut disk);
    assert_eq!(last, Action::Abort(RunError::Discovery));
    assert!(written.is_empty());
    assert_eq!(disk[0].1, "a");
    let (last, written) = drive(config(), Vec::new(), &mut disk);
    assert_eq!(last, Action::Abort(RunError::Discovery));
    assert!(written.is_empty());
}

#[test]
fn the_configuration_sets_the_root_of_the_walk() {
    let (state, action) = run(RunState::Started, Event::ConfigLoaded(config()));
    assert_eq!(action, Action::Walk { root: ".".to_string() });
    assert!(matches!(state, RunState::Walking { .. }));
    let mut c = config();
    c.path = Some("src".to_string());
    c.ignore_files = Some(vec!["x".to_string()]);
    c.indent_size = Some(3);
    let (state, action) = run(RunState::Started, Event::ConfigLoaded(c));
    assert_eq!(action, Action::Walk { root: "src".to_string() });
    match state {
        RunState::Walking { stages, ignored } => {
            assert_eq!(stages.indent, Some(3));
            assert_eq!(ignored, vec!["x".to_string()]);
        }
        other => panic!("{:?}", other),
    }
}

#[test]
fn an_unknown_quote_style_aborts_before_the_walk() {
    let mut c = config();
    c.quote_style = Some("backtick".to_string());
    let (state, action) = run(RunState::Started, Event::ConfigLoaded(c));
    assert_eq!(action, Action::Abort(RunError::InvalidQuoteStyle));
    assert!(matches!(state, RunState::Aborted));
}

#[test]
fn a_configuration_that_cannot_be_had_aborts() {
    let (state, action) = run(RunState::Started, Event::ConfigUnreadable("gone".to_string()));
    assert_eq!(action, Action::Abort(RunError::ConfigRead("gone".to_string())));
    assert!(matches!(state, RunState::Aborted));
    let (state, action) = run(RunState::Started, Event::ConfigMalformed("line 1".to_string()));
    assert_eq!(action, Action::Abort(RunError::ConfigParse("line 1".to_string())));
    assert!(matches!(state, RunState::Aborted));
}

#[test]
fn files_are_read_and_written_one_after_another() {
    let walking = RunState::Walking { stages: stages(), ignored: Vec::new() };
    let entries = vec![entry("dir", 0, false), entry("a", 1, true), entry("b", 1, true)];
    let (state, action) = run(walking, Event::Walked(entries));
    assert_eq!(action, Action::Read { file: file("a") });
    let (state, action) = run(state, Event::ContentRead("one".to_string()));
    assert_eq!(action, Action::Write { file: file("a"), content: "one".to_string() });
    let (state, action) = run(state, Event::Written);
    assert_eq!(action, Action::Read { file: file("b") });
    let (state, action) = run(state, Event::ContentRead("two".to_string()));
    assert_eq!(action, Action::Write { file: file("b"), content: "two".to_string() });
    let (state, action) = run(state, Event::Written);
    assert_eq!(action, Action::Finish);
    assert!(matches!(state, RunState::Finished));
}

#[test]
fn a_failed_read_aborts_the_run() {
    let reading = RunState::Reading { stages: stages(), files: vec![file("a"), file("b")], index: 1 };
    let (state, action) = run(reading, Event::ReadFailed);
    assert_eq!(action, Action::Abort(RunError::FileRead { path: "dir/b".to_string() }));
    assert!(matches!(state, RunState::Aborted));
    let mut disk = vec![("dir/a".to_string(), "x".to_string())];
    let entries = vec![entry("a", 1, true), entry("b", 1, true)];
    let (last, written) = drive(config(), entries, &mut disk);
    assert_eq!(last, Action::Abort(RunError::FileRead { path: "dir/b".to_string() }));
    assert_eq!(written.len(), 1);
}

#[test]
fn a_missing_write_target_aborts_the_run() {
    let writing = RunState::Writing { stages: stages(), files: vec![file("a")], index: 0 };
    let (state, action) = run(writing, Event::TargetMissing);
    assert_eq!(action, Action::Abort(RunError::WriteTargetMissing { path: "dir/a".to_string() }));
    assert!(matches!(state, RunState::Aborted));
    let writing = RunState::Writing { stages: stages(), files: vec![file("a"), file("b")], index: 1 };
    let (state, action) = run(writing, Event::WriteFailed);
    assert_eq!(action, Action::Abort(RunError::FileWrite { path: "dir/b".to_string() }));
    assert!(matches!(state, RunState::Aborted));
}

#[test]
fn an_event_out_of_turn_aborts_the_run() {
    let (state, action) = run(RunState::Started, Event::Written);
    assert_eq!(action, Action::Abort(RunError::UnexpectedEvent));
    assert!(matches!(state, RunState::Aborted));
    let reading = RunState::Reading { stages: stages(), files: vec![file("a")], index: 0 };
    let (_, action) = run(reading, Event::Walked(Vec::new()));
    assert_eq!(action, Action::Abort(RunError::UnexpectedEvent));
    let (_, action) = run(RunState::Finished, Event::ContentRead("a".to_string()));
    assert_eq!(action, Action::Abort(RunError::UnexpectedEvent));
    let (_, action) = run(RunState::Aborted, Event::ConfigLoaded(config()));
    assert_eq!(action, Action::Abort(RunError::UnexpectedEvent));
}

#[test]
fn each_failure_has_its_message() {
    assert_eq!(
        RunError::ConfigRead("no such file".to_string()).message(),
        "Error reading config file: no such file"
    );
    assert_eq!(
        RunError::ConfigParse("eof".to_string()).message(),
        "Error parsing config file: eof"
    );
    assert_eq!(RunError::InvalidQuoteStyle.message(), "Invalid quote style");
    assert_eq!(RunError::Discovery.message(), "No files found in the directory");
    assert_eq!(RunError::FileRead { path: "p/a".to_string() }.message(), "Error reading file: p/a");
    assert_eq!(
        RunError::WriteTargetMissing { path: "p/a".to_string() }.message(),
        "File not found: p/a"
    );
    assert_eq!(
        RunError::FileWrite { path: "p/a".to_string() }.message(),
        "Error writing file: p/a"
    );
    assert_eq!(RunError::UnexpectedEvent.message(), "Unexpected event");
}
