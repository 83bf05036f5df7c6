//! The options of a run, and the stages that they resolve to.

use crate::processor::QuoteStyle;
use crate::utils::{parse_quote_style, parsed_quote_style};
use vstd::prelude::*;

verus! {

/// The options of a run as the configuration file gives them. A field that
/// is absent leaves its stage out.
#[derive(Debug, PartialEq, Eq)]
pub struct Config {
    /// Spaces per level of indentation; a positive number.
    pub indent_size: Option<u8>,
    pub remove_comments: Option<bool>,
    pub remove_empty_lines: Option<bool>,
    pub remove_trailing_spaces: Option<bool>,
    /// `single` or `double`, in any case.
    pub quote_style: Option<String>,
    pub bracket_spacing: Option<bool>,
    /// Base names that the walk leaves out, with all below them.
    pub ignore_files: Option<Vec<String>>,
    /// The directory to walk; the current one where absent.
    pub path: Option<String>,
}

/// Which stages a run applies. The order of the fields is the order of the
/// stages.
#[derive(Clone, Copy, Debug, PartialEq, Eq)]
pub struct Stages {
    pub comments: bool,
    pub empty_lines: bool,
    pub trailing_spaces: bool,
    pub bracket_spacing: bool,
    pub quote_style: Option<QuoteStyle>,
    pub indent: Option<u8>,
}

impl Stages {
    /// An indent size, where there is one, is positive.
    pub open spec fn wf(self) -> bool {
        self.indent != Some(0u8)
    }
}

impl Config {
    /// An indent size, where there is one, is positive.
    pub open spec fn wf(self) -> bool {
        self.indent_size != Some(0u8)
    }

    /// The quote style asked for: `None` where the field is absent,
    /// `Some(None)` where it names no style.
    pub open spec fn quote_style_asked(self) -> Option<Option<QuoteStyle>> {
        match self.quote_style {
            None => None,
            Some(name) => Some(parsed_quote_style(name@)),
        }
    }

    /// The stages asked for, or `None` where the quote style names no style.
    /// The four switches are on only where the field is present and true.
    pub open spec fn stages_asked(self) -> Option<Stages> {
        if self.quote_style_asked() == Some(None::<QuoteStyle>) {
            None
        } else {
            Some(
                Stages {
                    comments: self.remove_comments == Some(true),
                    empty_lines: self.remove_empty_lines == Some(true),
                    trailing_spaces: self.remove_trailing_spaces == Some(true),
                    bracket_spacing: self.bracket_spacing == Some(true),
                    quote_style: match self.quote_style_asked() {
                        Some(Some(style)) => Some(style),
                        _ => None,
                    },
                    indent: self.indent_size,
                },
            )
        }
    }

    /// The directory that the walk starts from.
    pub open spec fn root(self) -> Seq<char> {
        match self.path {
            Some(path) => path@,
            None => "."@,
        }
    }

    /// The base names that the walk leaves out.
    pub open spec fn ignored(self) -> Seq<Seq<char>> {
        match self.ignore_files {
            Some(names) => names@.map_values(|name: String| name@),
            None => Seq::empty(),
        }
    }

    /// Resolves the stages to apply; `None` where the quote style is unknown.
    pub fn stages(&self) -> (r: Option<Stages>)
        ensures
            r == self.stages_asked(),
    {
        let quote_style = match &self.quote_style {
            None => None,
            Some(name) => match parse_quote_style(name.as_str()) {
                Some(style) => Some(style),
                None => { return None; },
            },
        };
        Some(
            Stages {
                comments: is_on(&self.remove_comments),
                empty_lines: is_on(&self.remove_empty_lines),
                trailing_spaces: is_on(&self.remove_trailing_spaces),
                bracket_spacing: is_on(&self.bracket_spacing),
                quote_style,
                indent: self.indent_size,
            },
        )
    }

    /// The directory that the walk starts from: `path`, or `.` where absent.
    pub fn root_path(&self) -> (r: String)
        ensures
            r@ == self.root(),
    {
        match &self.path {
            Some(path) => path.clone(),
            None => ".".to_owned(),
        }
    }

    /// The base names that the walk leaves out; none where `ignore` is absent.
    pub fn ignored_names(&self) -> (r: Vec<String>)
        ensures
            r@.map_values(|name: String| name@) == self.ignored(),
    {
        match &self.ignore_files {
            Some(names) => {
                let mut r: Vec<String> = Vec::new();
                let mut i: usize = 0;
                while i < names.len()
                    invariant
                        i <= names.len(),
                        r@ == names@.take(i as int),
                    decreases names.len() - i,
                {
                    r.push(names[i].clone());
                    i += 1;
                }
                r
            },
            None => {
                let r: Vec<String> = Vec::new();
                r
            },
        }
    }
}

/// Whether a switch is present and on.
fn is_on(flag: &Option<bool>) -> (r: bool)
    ensures
        r == (*flag == Some(true)),
{
    match flag {
        Some(on) => *on,
        None => false,
    }
}

} // verus!
