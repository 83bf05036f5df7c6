//! Neatify tidies the text files under a directory: it strips comment
//! lines, empty lines and trailing whitespace, spaces braces, unifies quote
//! characters and re-levels indentation, each as the configuration asks.
//!
//! This library holds the decisions: the six stages ([`processor`]), their
//! fixed order ([`apply_stages`]), the catalogue of files ([`utils`]) and
//! the course of a run ([`run`]). It touches no file. A caller walks the
//! tree, reads and writes, and asks [`run`] after each step what comes next.

pub mod config;
pub mod constants;
pub mod laws;
pub mod processor;
pub mod text;
pub mod utils;

use config::{Config, Stages};
use processor::{
    fix_bracket_spacing, fix_indentation, fix_quote_style, has_comment_line, has_other_quote,
    has_spaced_brace, has_trailing_space, indentation_changes, reindented, remove_comments,
    remove_empty_lines, remove_trailing_spaces, restyle_quotes, with_spaced_braces,
    without_comments, without_empty_lines, without_trailing_spaces,
};
use text::push_text;
use utils::{discovered, entry_views, file_views, name_views, walk_dir, Entry, File};
use vstd::prelude::*;

verus! {

/// A text on its way through the stages, and whether a stage has changed it.
pub struct Staged {
    pub text: Seq<char>,
    pub changed: bool,
}

/// What the stages that are switched on make of `text`. The order is fixed:
/// comments, empty lines, trailing spaces, bracket spacing, quote style,
/// indentation. A stage that is off hands on what it was given.
pub open spec fn staged(text: Seq<char>, stages: Stages) -> Staged {
    let s = Staged { text, changed: false };
    let s = if stages.comments {
        Staged {
            text: without_comments(s.text),
            changed: s.changed || has_comment_line(s.text),
        }
    } else {
        s
    };
    let s = if stages.empty_lines {
        Staged {
            text: without_empty_lines(s.text),
            changed: s.changed || without_empty_lines(s.text) != s.text,
        }
    } else {
        s
    };
    let s = if stages.trailing_spaces {
        Staged {
            text: without_trailing_spaces(s.text),
            changed: s.changed || has_trailing_space(s.text),
        }
    } else {
        s
    };
    let s = if stages.bracket_spacing {
        Staged {
            text: with_spaced_braces(s.text),
            changed: s.changed || has_spaced_brace(s.text),
        }
    } else {
        s
    };
    let s = match stages.quote_style {
        Some(style) => Staged {
            text: restyle_quotes(s.text, style),
            changed: s.changed || has_other_quote(s.text, style),
        },
        None => s,
    };
    match stages.indent {
        Some(size) => Staged {
            text: reindented(s.text, size as nat),
            changed: s.changed || indentation_changes(s.text, size as nat),
        },
        None => s,
    }
}

/// Takes the content of one file through the stages that are switched on.
/// The descriptor comes back marked iff one of them changed the content;
/// a mark that it had stays, and nothing else of it moves.
pub fn apply_stages(content: String, file: File, stages: &Stages) -> (r: (String, File))
    requires
        stages.wf(),
    ensures
        r.0@ == staged(content@, *stages).text,
        r.1@ == file@.marked(staged(content@, *stages).changed),
        r.1.path == file.path,
{
    let (content, file) = if stages.comments {
        remove_comments(content, file).unwrap()
    } else {
        (content, file)
    };
    let (content, file) = if stages.empty_lines {
        remove_empty_lines(content, file).unwrap()
    } else {
        (content, file)
    };
    let (content, file) = if stages.trailing_spaces {
        remove_trailing_spaces(content, file).unwrap()
    } else {
        (content, file)
    };
    let (content, file) = if stages.bracket_spacing {
        fix_bracket_spacing(content, file).unwrap()
    } else {
        (content, file)
    };
    let (content, file) = match stages.quote_style {
        Some(style) => fix_quote_style(content, file, style).unwrap(),
        None => (content, file),
    };
    let (content, file) = match stages.indent {
        Some(size) => fix_indentation(content, size, file).unwrap(),
        None => (content, file),
    };
    (content, file)
}

/// Why a run was given up.
#[derive(Debug, PartialEq, Eq)]
pub enum RunError {
    /// The configuration file could not be read.
    ConfigRead(String),
    /// The configuration file could not be parsed.
    ConfigParse(String),
    /// The configuration names a quote style that is neither `single` nor `double`.
    InvalidQuoteStyle,
    /// The walk found no file to work on.
    Discovery,
    /// A file could not be read.
    FileRead { path: String },
    /// A file was gone when its content was to be written.
    WriteTargetMissing { path: String },
    /// A file could not be written for another reason.
    FileWrite { path: String },
    /// An event came that the run was not waiting for.
    UnexpectedEvent,
}

impl RunError {
    /// The message that tells a user of the failure.
    pub open spec fn message_text(self) -> Seq<char> {
        match self {
            RunError::ConfigRead(reason) => "Error reading config file: "@ + reason@,
            RunError::ConfigParse(reason) => "Error parsing config file: "@ + reason@,
            RunError::InvalidQuoteStyle => "Invalid quote style"@,
            RunError::Discovery => "No files found in the directory"@,
            RunError::FileRead { path } => "Error reading file: "@ + path@,
            RunError::WriteTargetMissing { path } => "File not found: "@ + path@,
            RunError::FileWrite { path } => "Error writing file: "@ + path@,
            RunError::UnexpectedEvent => "Unexpected event"@,
        }
    }

    /// The message that tells a user of the failure.
    pub fn message(&self) -> (m: String)
        ensures
            m@ == self.message_text(),
    {
        match self {
            RunError::ConfigRead(reason) => {
                let mut m = "Error reading config file: ".to_owned();
                push_text(&mut m, reason.as_str());
                m
            },
            RunError::ConfigParse(reason) => {
                let mut m = "Error parsing config file: ".to_owned();
                push_text(&mut m, reason.as_str());
                m
            },
            RunError::InvalidQuoteStyle => "Invalid quote style".to_owned(),
            RunError::Discovery => "No files found in the directory".to_owned(),
            RunError::FileRead { path } => {
                let mut m = "Error reading file: ".to_owned();
                push_text(&mut m, path.as_str());
                m
            },
            RunError::WriteTargetMissing { path } => {
                let mut m = "File not found: ".to_owned();
                push_text(&mut m, path.as_str());
                m
            },
            RunError::FileWrite { path } => {
                let mut m = "Error writing file: ".to_owned();
                push_text(&mut m, path.as_str());
                m
            },
            RunError::UnexpectedEvent => "Unexpected event".to_owned(),
        }
    }
}

/// Where a run stands.
#[derive(Debug)]
pub enum RunState {
    /// The configuration is awaited.
    Started,
    /// The entries of the walk are awaited.
    Walking { stages: Stages, ignored: Vec<String> },
    /// The content of `files[index]` is awaited.
    Reading { stages: Stages, files: Vec<File>, index: usize },
    /// The outcome of writing `files[index]` is awaited.
    Writing { stages: Stages, files: Vec<File>, index: usize },
    /// Every file was written.
    Finished,
    /// The run was given up.
    Aborted,
}

/// What happened outside since the last action.
#[derive(Debug)]
pub enum Event {
    /// The configuration was read and parsed.
    ConfigLoaded(Config),
    /// The configuration file could not be read; with the reason.
    ConfigUnreadable(String),
    /// The configuration file could not be parsed; with the reason.
    ConfigMalformed(String),
    /// The walk is over; these are its entries, a directory before what is in it.
    Walked(Vec<Entry>),
    /// The file was read; this is its content.
    ContentRead(String),
    /// The file could not be read.
    ReadFailed,
    /// The content was written.
    Written,
    /// The file was gone when its content was to be written.
    TargetMissing,
    /// The content could not be written for another reason.
    WriteFailed,
}

/// What is to be done outside next.
#[derive(Debug, PartialEq, Eq)]
pub enum Action {
    /// Walk the tree under `root` and hand back its entries.
    Walk { root: String },
    /// Read `file` and hand back its content.
    Read { file: File },
    /// Write `content` to the path of `file`, which tells whether it changed.
    Write { file: File, content: String },
    /// Nothing: the run is over.
    Finish,
    /// Nothing: the run is given up for this reason.
    Abort(RunError),
}

impl RunState {
    /// An indent size is positive, and a file that is awaited exists.
    pub open spec fn wf(self) -> bool {
        match self {
            RunState::Walking { stages, .. } => stages.wf(),
            RunState::Reading { stages, files, index } => stages.wf() && index < files.len(),
            RunState::Writing { stages, files, index } => stages.wf() && index < files.len(),
            _ => true,
        }
    }
}

/// What follows from `event` in `state`: the state after it and the action
/// to take.
///
/// - The configuration resolves the stages, the ignored names and the root,
///   and asks for the walk; an unknown quote style gives the run up, and so
///   does a configuration that could not be had.
/// - The walk's entries give the catalogue, and the first file is asked
///   for; an empty catalogue gives the run up.
/// - A file's content goes through the stages and is to be written to the
///   path it was discovered at; a failed read gives the run up.
/// - After a write the next file is asked for, or the run is over; a
///   missing target gives the run up, and so does any other failed write.
/// - Any other event gives the run up.
pub open spec fn follows(state: RunState, event: Event, next: RunState, action: Action) -> bool {
    match (state, event) {
        (RunState::Started, Event::ConfigLoaded(config)) => match config.stages_asked() {
            Some(asked) => {
                &&& next matches RunState::Walking { stages, ignored }
                &&& stages == asked
                &&& name_views(ignored@) == config.ignored()
                &&& action matches Action::Walk { root }
                &&& root@ == config.root()
            },
            None => next is Aborted && action == Action::Abort(RunError::InvalidQuoteStyle),
        },
        (RunState::Started, Event::ConfigUnreadable(reason)) => next is Aborted && action
            == Action::Abort(RunError::ConfigRead(reason)),
        (RunState::Started, Event::ConfigMalformed(reason)) => next is Aborted && action
            == Action::Abort(RunError::ConfigParse(reason)),
        (RunState::Walking { stages, ignored }, Event::Walked(entries)) => {
            let found = discovered(
                entry_views(entries@),
                name_views(ignored@),
                entries.len() as int,
            );
            if found.len() == 0 {
                next is Aborted && action == Action::Abort(RunError::Discovery)
            } else {
                &&& next matches RunState::Reading { stages: same, files, index }
                &&& same == stages
                &&& file_views(files@) == found
                &&& index == 0
                &&& action == (Action::Read { file: files[0] })
            }
        },
        (RunState::Reading { stages, files, index }, Event::ContentRead(content)) => {
            &&& next == (RunState::Writing { stages, files, index })
            &&& action matches Action::Write { file, content: text }
            &&& text@ == staged(content@, stages).text
            &&& file@ == files[index as int]@.marked(staged(content@, stages).changed)
            &&& file.path == files[index as int].path
        },
        (RunState::Reading { stages, files, index }, Event::ReadFailed) => {
            &&& next is Aborted
            &&& action == Action::Abort(RunError::FileRead { path: files[index as int].path })
        },
        (RunState::Writing { stages, files, index }, Event::Written) => {
            if index + 1 < files.len() {
                &&& next == (RunState::Reading { stages, files, index: (index + 1) as usize })
                &&& action == (Action::Read { file: files[index + 1] })
            } else {
                next is Finished && action is Finish
            }
        },
        (RunState::Writing { stages, files, index }, Event::TargetMissing) => {
            &&& next is Aborted
            &&& action == Action::Abort(
                RunError::WriteTargetMissing { path: files[index as int].path },
            )
        },
        (RunState::Writing { stages, files, index }, Event::WriteFailed) => {
            &&& next is Aborted
            &&& action == Action::Abort(RunError::FileWrite { path: files[index as int].path })
        },
        _ => next is Aborted && action == Action::Abort(RunError::UnexpectedEvent),
    }
}

/// Advances a run by one event: decides what the event means where the run
/// stands, and what is to be done next. The caller does what the action
/// says and comes back with the event that tells how it went, until the
/// action is to finish or to abort.
pub fn run(state: RunState, event: Event) -> (r: (RunState, Action))
    requires
        state.wf(),
        event matches Event::ConfigLoaded(config) ==> config.wf(),
    ensures
        r.0.wf(),
        follows(state, event, r.0, r.1),
{
    match state {
        RunState::Started => match event {
            Event::ConfigLoaded(config) => match config.stages() {
                Some(stages) => {
                    let ignored = config.ignored_names();
                    let root = config.root_path();
                    (RunState::Walking { stages, ignored }, Action::Walk { root })
                },
                None => (RunState::Aborted, Action::Abort(RunError::InvalidQuoteStyle)),
            },
            Event::ConfigUnreadable(reason) => (
                RunState::Aborted,
                Action::Abort(RunError::ConfigRead(reason)),
            ),
            Event::ConfigMalformed(reason) => (
                RunState::Aborted,
                Action::Abort(RunError::ConfigParse(reason)),
            ),
            _ => (RunState::Aborted, Action::Abort(RunError::UnexpectedEvent)),
        },
        RunState::Walking { stages, ignored } => match event {
            Event::Walked(entries) => match walk_dir(entries, ignored) {
                Ok(files) => {
                    let file = files[0].clone();
                    (RunState::Reading { stages, files, index: 0 }, Action::Read { file })
                },
                Err(_) => (RunState::Aborted, Action::Abort(RunError::Discovery)),
            },
            _ => (RunState::Aborted, Action::Abort(RunError::UnexpectedEvent)),
        },
        RunState::Reading { stages, files, index } => match event {
            Event::ContentRead(content) => {
                let (text, file) = apply_stages(content, files[index].clone(), &stages);
                (RunState::Writing { stages, files, index }, Action::Write { file, content: text })
            },
            Event::ReadFailed => {
                let path = files[index].path.clone();
                (RunState::Aborted, Action::Abort(RunError::FileRead { path }))
            },
            _ => (RunState::Aborted, Action::Abort(RunError::UnexpectedEvent)),
        },
        RunState::Writing { stages, files, index } => match event {
            Event::Written => {
                if index + 1 < files.len() {
                    let file = files[index + 1].clone();
                    (
                        RunState::Reading { stages, files, index: index + 1 },
                        Action::Read { file },
                    )
                } else {
                    (RunState::Finished, Action::Finish)
                }
            },
            Event::TargetMissing => {
                let path = files[index].path.clone();
                (RunState::Aborted, Action::Abort(RunError::WriteTargetMissing { path }))
            },
            Event::WriteFailed => {
                let path = files[index].path.clone();
                (RunState::Aborted, Action::Abort(RunError::FileWrite { path }))
            },
            _ => (RunState::Aborted, Action::Abort(RunError::UnexpectedEvent)),
        },
        _ => (RunState::Aborted, Action::Abort(RunError::UnexpectedEvent)),
    }
}

} // verus!
