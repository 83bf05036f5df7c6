//! The descriptor of a file, the catalogue that a walk over a directory tree
//! gives, and the reading of names from a configuration. Walking itself is
//! the caller's part: the functions here take what a walk met.

use crate::processor::QuoteStyle;
use crate::text::to_chars;
use vstd::prelude::*;

verus! {

/// What is known of one discovered file.
#[derive(Debug, PartialEq, Eq)]
pub struct File {
    /// Base name.
    pub name: String,
    /// Path with forward slashes; it identifies the file for reading and writing.
    pub path: String,
    /// Length in bytes when the file was discovered.
    pub size: u64,
    /// Suffix of the name after its last dot, or empty.
    pub extension: String,
    /// Whether any stage applied so far changed the content.
    pub is_modified: bool,
}

/// The mathematical value of a [`File`].
pub struct FileView {
    pub name: Seq<char>,
    pub path: Seq<char>,
    pub size: u64,
    pub extension: Seq<char>,
    pub is_modified: bool,
}

impl FileView {
    /// The same descriptor after a stage that changed the content iff `changed`:
    /// the flag is or-ed in, nothing else moves.
    pub open spec fn marked(self, changed: bool) -> FileView {
        FileView { is_modified: self.is_modified || changed, ..self }
    }
}

impl View for File {
    type V = FileView;

    open spec fn view(&self) -> FileView {
        FileView {
            name: self.name@,
            path: self.path@,
            size: self.size,
            extension: self.extension@,
            is_modified: self.is_modified,
        }
    }
}

impl File {
    /// The descriptor with these fields.
    pub fn new(name: String, path: String, size: u64, extension: String, is_modified: bool) -> (f:
        File)
        ensures
            f == (File { name, path, size, extension, is_modified }),
    {
        File { name, path, size, extension, is_modified }
    }

    /// Records the outcome of one stage.
    pub fn mark(self, changed: bool) -> (f: File)
        ensures
            f@ == self@.marked(changed),
            f.path == self.path,
    {
        let is_modified = self.is_modified || changed;
        File::new(self.name, self.path, self.size, self.extension, is_modified)
    }
}

impl Clone for File {
    fn clone(&self) -> (f: Self)
        ensures
            f == *self,
    {
        File {
            name: self.name.clone(),
            path: self.path.clone(),
            size: self.size,
            extension: self.extension.clone(),
            is_modified: self.is_modified,
        }
    }
}

/// One entry of a directory tree as a walk met it. A walk lists a directory
/// before what is in it, so an entry's descendants are the entries that
/// follow it for as long as they are deeper than it.
#[derive(Debug, PartialEq, Eq)]
pub struct Entry {
    /// Base name.
    pub name: String,
    /// Path as the platform writes it.
    pub path: String,
    /// Length in bytes.
    pub size: u64,
    /// Suffix of the name after its last dot, or empty.
    pub extension: String,
    /// Distance from the root of the walk, which is at depth 0.
    pub depth: usize,
    /// Whether the entry is a regular file.
    pub is_file: bool,
}

/// The mathematical value of an [`Entry`].
pub struct EntryView {
    pub name: Seq<char>,
    pub path: Seq<char>,
    pub size: u64,
    pub extension: Seq<char>,
    pub depth: nat,
    pub is_file: bool,
}

impl View for Entry {
    type V = EntryView;

    open spec fn view(&self) -> EntryView {
        EntryView {
            name: self.name@,
            path: self.path@,
            size: self.size,
            extension: self.extension@,
            depth: self.depth as nat,
            is_file: self.is_file,
        }
    }
}

impl Clone for Entry {
    fn clone(&self) -> (e: Self)
        ensures
            e == *self,
    {
        Entry {
            name: self.name.clone(),
            path: self.path.clone(),
            size: self.size,
            extension: self.extension.clone(),
            depth: self.depth,
            is_file: self.is_file,
        }
    }
}

/// The values of the entries of `entries`.
pub open spec fn entry_views(entries: Seq<Entry>) -> Seq<EntryView> {
    entries.map_values(|e: Entry| e@)
}

/// The values of the descriptors of `files`.
pub open spec fn file_views(files: Seq<File>) -> Seq<FileView> {
    files.map_values(|f: File| f@)
}

/// The contents of each of `names`.
pub open spec fn name_views(names: Seq<String>) -> Seq<Seq<char>> {
    names.map_values(|name: String| name@)
}

/// `path` with a forward slash for every backslash.
pub open spec fn normalized_path(path: Seq<char>) -> Seq<char> {
    path.map_values(
        |c: char|
            if c == '\\' {
                '/'
            } else {
                c
            },
    )
}

/// Whether entry `j` has an ignored name and entry `i` is that entry or
/// lies below it.
pub open spec fn is_below_ignored(
    entries: Seq<EntryView>,
    ignored: Seq<Seq<char>>,
    j: int,
    i: int,
) -> bool {
    &&& 0 <= j <= i < entries.len()
    &&& ignored.contains(entries[j].name)
    &&& forall|k: int| j < k <= i ==> (#[trigger] entries[k]).depth > entries[j].depth
}

/// Whether the walk leaves entry `i` out: its name is ignored, or that of a
/// directory above it.
pub open spec fn is_pruned(entries: Seq<EntryView>, ignored: Seq<Seq<char>>, i: int) -> bool {
    exists|j: int| is_below_ignored(entries, ignored, j, i)
}

/// The descriptor of a discovered file: its path normalized, not yet modified.
pub open spec fn descriptor(entry: EntryView) -> FileView {
    FileView {
        name: entry.name,
        path: normalized_path(entry.path),
        size: entry.size,
        extension: entry.extension,
        is_modified: false,
    }
}

/// The descriptors of the regular files among the first `n` entries that the
/// walk does not leave out, in the order of the walk.
pub open spec fn discovered(entries: Seq<EntryView>, ignored: Seq<Seq<char>>, n: int) -> Seq<
    FileView,
>
    decreases n,
{
    if n <= 0 {
        Seq::empty()
    } else {
        let before = discovered(entries, ignored, n - 1);
        if entries[n - 1].is_file && !is_pruned(entries, ignored, n - 1) {
            before.push(descriptor(entries[n - 1]))
        } else {
            before
        }
    }
}

/// Whether `outcome` is what cataloguing `entries` gives with `ignored`
/// left out: the files discovered, or the error where there are none.
pub open spec fn is_catalogue_of(
    outcome: Result<Vec<File>, String>,
    entries: Seq<EntryView>,
    ignored: Seq<Seq<char>>,
) -> bool {
    let found = discovered(entries, ignored, entries.len() as int);
    match outcome {
        Ok(files) => file_views(files@) == found && found.len() > 0,
        Err(message) => found.len() == 0 && message@ == "No files found in the directory"@,
    }
}

/// Whether `name` is one of `names`.
pub fn is_ignored(name: &String, names: &Vec<String>) -> (r: bool)
    ensures
        r == name_views(names@).contains(name@),
{
    let mut i: usize = 0;
    while i < names.len()
        invariant
            i <= names.len(),
            forall|j: int| 0 <= j < i ==> name_views(names@)[j] != name@,
        decreases names.len() - i,
    {
        if names[i] == *name {
            proof {
                assert(name_views(names@)[i as int] == name@);
            }
            return true;
        }
        i += 1;
    }
    false
}

/// `path` with a forward slash for every backslash.
pub fn normalize_path(path: &str) -> (r: String)
    ensures
        r@ == normalized_path(path@),
{
    let chars = to_chars(path);
    let mut r = String::new();
    let mut i: usize = 0;
    while i < chars.len()
        invariant
            i <= chars.len(),
            r@ == normalized_path(chars@.take(i as int)),
        decreases chars.len() - i,
    {
        let c = chars[i];
        if c == '\\' {
            r.push('/');
        } else {
            r.push(c);
        }
        i += 1;
    }
    r
}

/// Makes the catalogue of files from the entries of a walk. An entry whose
/// base name is in `ignored_files` is left out with everything below it;
/// of the others the regular files are kept, in the order of the walk, each
/// with its path normalized and its flag off. A catalogue without files is an
/// error.
pub fn walk_dir(entries: Vec<Entry>, ignored_files: Vec<String>) -> (r: Result<Vec<File>, String>)
    ensures
        is_catalogue_of(r, entry_views(entries@), name_views(ignored_files@)),
{
    let ghost all = entry_views(entries@);
    let ghost ignored = name_views(ignored_files@);
    let mut files: Vec<File> = Vec::new();
    // The index of the ignored entry whose descendants are being skipped.
    let mut skipping: Option<usize> = None;
    let mut i: usize = 0;
    while i < entries.len()
        invariant
            i <= entries.len(),
            all == entry_views(entries@),
            ignored == name_views(ignored_files@),
            file_views(files@) == discovered(all, ignored, i as int),
            match skipping {
                Some(j) => j < i && is_below_ignored(all, ignored, j as int, i - 1) && forall|
                    h: int,
                |
                    0 <= h < j ==> !is_below_ignored(all, ignored, h, j as int),
                None => !is_pruned(all, ignored, i - 1),
            },
        decreases entries.len() - i,
    {
        let entry = &entries[i];
        let below = match skipping {
            Some(j) => entry.depth > entries[j].depth,
            None => false,
        };
        let pruned = if below {
            proof {
                let j = skipping->0 as int;
                assert(is_below_ignored(all, ignored, j, i as int));
            }
            true
        } else {
            proof {
                assert forall|h: int| 0 <= h < i implies !is_below_ignored(
                    all,
                    ignored,
                    h,
                    i as int,
                ) by {
                    if is_below_ignored(all, ignored, h, i as int) {
                        assert(is_below_ignored(all, ignored, h, i - 1));
                        match skipping {
                            Some(j) if h < j => {
                                assert(is_below_ignored(all, ignored, h, j as int));
                            },
                            Some(j) if h > j => {
                                assert(all[i as int].depth > all[h].depth);
                            },
                            _ => {},
                        }
                    }
                }
            }
            if is_ignored(&entry.name, &ignored_files) {
                skipping = Some(i);
                proof {
                    assert(is_below_ignored(all, ignored, i as int, i as int));
                }
                true
            } else {
                skipping = None;
                false
            }
        };
        proof {
            assert(pruned == is_pruned(all, ignored, i as int));
        }
        if entry.is_file && !pruned {
            let file = File::new(
                entry.name.clone(),
                normalize_path(entry.path.as_str()),
                entry.size,
                entry.extension.clone(),
                false,
            );
            proof {
                assert(file_views(files@.push(file)) == file_views(files@).push(file@));
            }
            files.push(file);
        }
        i += 1;
    }
    if files.len() == 0 {
        Err("No files found in the directory".to_owned())
    } else {
        Ok(files)
    }
}

/// The name that a configuration file has.
pub const CONFIG_FILE_NAME: &'static str = ".neatify.json";

/// Whether entry `i` is the first of `entries` that is named as a
/// configuration file is.
pub open spec fn is_first_config(entries: Seq<EntryView>, i: int) -> bool {
    &&& 0 <= i < entries.len()
    &&& entries[i].name == CONFIG_FILE_NAME@
    &&& forall|j: int| 0 <= j < i ==> (#[trigger] entries[j]).name != CONFIG_FILE_NAME@
}

/// Looks among the entries of a walk for the configuration file: the first
/// entry whose base name is [`CONFIG_FILE_NAME`], letter for letter. Its path
/// is handed back as the walk gave it; where there is no such entry, an error
/// says so.
pub fn find_config_path(entries: &Vec<Entry>) -> (r: Result<String, String>)
    ensures
        match r {
            Ok(path) => exists|i: int|
                is_first_config(entry_views(entries@), i) && path@ == (#[trigger] entries[i]).path@,
            Err(message) => message@ == "No config file found in the current directory"@
                && forall|i: int|
                0 <= i < entries.len() ==> (#[trigger] entries[i]).name@ != CONFIG_FILE_NAME@,
        },
{
    let wanted = CONFIG_FILE_NAME.to_owned();
    let mut i: usize = 0;
    while i < entries.len()
        invariant
            i <= entries.len(),
            wanted@ == CONFIG_FILE_NAME@,
            forall|j: int| 0 <= j < i ==> (#[trigger] entries[j]).name@ != CONFIG_FILE_NAME@,
        decreases entries.len() - i,
    {
        if entries[i].name == wanted {
            return Ok(entries[i].path.clone());
        }
        i += 1;
    }
    Err("No config file found in the current directory".to_owned())
}

/// `c` in lower case where it is an upper-case letter of ASCII, else `c`.
pub open spec fn ascii_lower(c: char) -> char {
    if 'A' <= c && c <= 'Z' {
        ((c as u8) + 32) as char
    } else {
        c
    }
}

/// The style that `s` names: `single` or `double`, written exactly so.
pub open spec fn named_quote_style(s: Seq<char>) -> Option<QuoteStyle> {
    if s == "single"@ {
        Some(QuoteStyle::Single)
    } else if s == "double"@ {
        Some(QuoteStyle::Double)
    } else {
        None
    }
}

/// The style that `s` names when the case of its letters is set aside.
pub open spec fn parsed_quote_style(s: Seq<char>) -> Option<QuoteStyle> {
    named_quote_style(s.map_values(|c: char| ascii_lower(c)))
}

/// Reads the name of a quote style: `single` or `double`, in lower case.
pub fn str_to_quote_style(s: String) -> (r: Option<QuoteStyle>)
    ensures
        r == named_quote_style(s@),
{
    if s == "single".to_owned() {
        Some(QuoteStyle::Single)
    } else if s == "double".to_owned() {
        Some(QuoteStyle::Double)
    } else {
        None
    }
}

/// Reads the name of a quote style in any mix of upper and lower case.
pub fn parse_quote_style(s: &str) -> (r: Option<QuoteStyle>)
    ensures
        r == parsed_quote_style(s@),
{
    let chars = to_chars(s);
    let mut lowered = String::new();
    let mut i: usize = 0;
    while i < chars.len()
        invariant
            i <= chars.len(),
            lowered@ == chars@.take(i as int).map_values(|c: char| ascii_lower(c)),
        decreases chars.len() - i,
    {
        let c = chars[i];
        proof {
            assert(chars@.take(i as int).push(c).map_values(|c: char| ascii_lower(c))
                == chars@.take(i as int).map_values(|c: char| ascii_lower(c)).push(
                ascii_lower(c),
            ));
        }
        if 'A' <= c && c <= 'Z' {
            lowered.push(((c as u8) + 32) as char);
        } else {
            lowered.push(c);
        }
        i += 1;
    }
    proof {
        assert(chars@.take(i as int) == chars@);
    }
    str_to_quote_style(lowered)
}

} // verus!
