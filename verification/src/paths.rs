//! File names: their extensions, and the names that documents are saved under.

use crate::text::{chars_of, eq_ignoring_ascii_case, same_ignoring_ascii_case, text_between};
use vstd::prelude::*;
use vstd::string::StringExecFns;

verus! {

/// The name suggested for a document that has none.
pub const UNTITLED_DOCUMENT_NAME: &'static str = "Untitled.db8";

/// The name suggested for a flow that has none.
pub const UNTITLED_FLOW_NAME: &'static str = "Untitled.fl0";

/// Where the last dot of a name stands, counted from its first `k` characters.
pub open spec fn last_dot(name: Seq<char>, k: int) -> Option<int>
    decreases k,
{
    if k <= 0 {
        None
    } else if name[k - 1] == '.' {
        Some(k - 1)
    } else {
        last_dot(name, k - 1)
    }
}

/// Where a file name's extension begins: behind its last dot, unless that is
/// its first character.
pub open spec fn extension_at(name: Seq<char>) -> Option<int> {
    if name == ".."@ {
        None
    } else {
        match last_dot(name, name.len() as int) {
            Some(at) => if at > 0 {
                Some(at + 1)
            } else {
                None
            },
            None => None,
        }
    }
}

/// A file name's extension.
pub open spec fn extension_of(name: Seq<char>) -> Option<Seq<char>> {
    match extension_at(name) {
        Some(at) => Some(name.skip(at)),
        None => None,
    }
}

/// A file name without its extension.
pub open spec fn stem_of(name: Seq<char>) -> Seq<char> {
    match extension_at(name) {
        Some(at) => name.take(at - 1),
        None => name,
    }
}

pub(crate) proof fn lemma_last_dot(name: Seq<char>, k: int)
    requires
        0 <= k <= name.len(),
    ensures
        match last_dot(name, k) {
            Some(at) => 0 <= at < k && name[at] == '.' && forall|i: int|
                at < i < k ==> name[i] != '.',
            None => forall|i: int| 0 <= i < k ==> name[i] != '.',
        },
    decreases k,
{
    if k > 0 {
        lemma_last_dot(name, k - 1);
    }
}

/// Finds where a file name's extension begins.
fn find_extension(name: &str) -> (found: (Vec<char>, Option<usize>))
    ensures
        found.0@ == name@,
        match found.1 {
            Some(at) => extension_at(name@) == Some(at as int) && 1 < at <= name@.len(),
            None => extension_at(name@) is None,
        },
{
    let chars = chars_of(name);
    if crate::text::same_text(name, "..") {
        return (chars, None);
    }
    let mut left: usize = chars.len();
    while left > 0
        invariant
            left <= chars@.len(),
            chars@ == name@,
            name@ != ".."@,
            last_dot(chars@, chars@.len() as int) == last_dot(chars@, left as int),
        decreases left,
    {
        if chars[left - 1] == '.' {
            let at: usize = left - 1;
            if at > 0 {
                return (chars, Some(at + 1));
            }
            return (chars, None);
        }
        left = left - 1;
    }
    (chars, None)
}

/// A file name's extension.
pub fn file_extension(name: &str) -> (extension: Option<String>)
    ensures
        match extension {
            Some(extension) => extension_of(name@) == Some(extension@),
            None => extension_of(name@) is None,
        },
{
    let (chars, at) = find_extension(name);
    match at {
        Some(at) => {
            let text = text_between(&chars, at, chars.len());
            assert(text@ =~= name@.skip(at as int));
            Some(text)
        },
        None => None,
    }
}

/// A file name with another extension.
pub fn with_extension(name: &str, extension: &str) -> (renamed: String)
    ensures
        renamed@ == stem_of(name@) + "."@ + extension@,
{
    let (chars, at) = find_extension(name);
    let end: usize = match at {
        Some(at) => at - 1,
        None => chars.len(),
    };
    let mut renamed = text_between(&chars, 0, end);
    assert(renamed@ =~= stem_of(name@));
    renamed.append(".");
    renamed.append(extension);
    renamed
}

/// The file name has this extension, whatever its case.
pub open spec fn has_extension(name: Seq<char>, extension: Seq<char>) -> bool {
    match extension_of(name) {
        Some(own) => same_ignoring_ascii_case(own, extension),
        None => false,
    }
}

fn extension_is(name: &str, extension: &str) -> (b: bool)
    ensures
        b == has_extension(name@, extension@),
{
    match file_extension(name) {
        Some(own) => eq_ignoring_ascii_case(own.as_str(), extension),
        None => false,
    }
}

/// A flow's file name.
pub fn is_flow_path(name: &str) -> (b: bool)
    ensures
        b == has_extension(name@, "fl0"@),
{
    extension_is(name, "fl0")
}

/// How a file opens.
#[derive(Clone, Copy, Debug, PartialEq, Eq, Structural)]
pub enum DocumentFormat {
    Flow,
    Docx,
    Pdf,
    Native,
}

/// How a file opens, by its name.
pub open spec fn format_of(name: Seq<char>) -> DocumentFormat {
    if has_extension(name, "fl0"@) {
        DocumentFormat::Flow
    } else if has_extension(name, "docx"@) {
        DocumentFormat::Docx
    } else if has_extension(name, "pdf"@) {
        DocumentFormat::Pdf
    } else {
        DocumentFormat::Native
    }
}

/// How a file opens, by its name.
pub fn document_format(name: &str) -> (format: DocumentFormat)
    ensures
        format == format_of(name@),
{
    if is_flow_path(name) {
        DocumentFormat::Flow
    } else if extension_is(name, "docx") {
        DocumentFormat::Docx
    } else if extension_is(name, "pdf") {
        DocumentFormat::Pdf
    } else {
        DocumentFormat::Native
    }
}

/// A path that is about to be saved under: its directory and its last part.
#[derive(Debug)]
pub struct SavePath {
    pub directory: Option<String>,
    pub file_name: Option<String>,
}

/// The name with its extension added, if it has none of its own.
pub open spec fn named_with(name: Option<Seq<char>>, fallback: Seq<char>, extension: Seq<char>) -> Seq<
    char,
> {
    match name {
        Some(name) => if extension_of(name) is Some {
            name
        } else {
            name + extension
        },
        None => fallback + extension,
    }
}

impl SavePath {
    pub open spec fn name_text(self) -> Option<Seq<char>> {
        match self.file_name {
            Some(name) => Some(name@),
            None => None,
        }
    }
}

fn normalize_path_with_extension(path: SavePath, fallback_name: &str, extension: &str) -> (named:
    SavePath)
    ensures
        named.directory == path.directory,
        named.name_text() == Some(named_with(path.name_text(), fallback_name@, extension@)),
{
    let mut name = match &path.file_name {
        Some(name) => {
            if file_extension(name.as_str()).is_some() {
                return path;
            }
            name.clone()
        },
        None => String::from_str(fallback_name),
    };
    name.append(extension);
    SavePath { directory: path.directory, file_name: Some(name) }
}

/// Documents are saved in their own format: a name without an extension gets
/// it. The directory stays as it is.
pub fn normalize_db8_path(path: SavePath) -> (named: SavePath)
    ensures
        named.directory == path.directory,
        named.name_text() == Some(named_with(path.name_text(), UNTITLED_DOCUMENT_NAME@, ".db8"@)),
{
    normalize_path_with_extension(path, UNTITLED_DOCUMENT_NAME, ".db8")
}

/// Flows are saved in their own format, as documents are.
pub fn normalize_fl0_path(path: SavePath) -> (named: SavePath)
    ensures
        named.directory == path.directory,
        named.name_text() == Some(named_with(path.name_text(), UNTITLED_FLOW_NAME@, ".fl0"@)),
{
    normalize_path_with_extension(path, UNTITLED_FLOW_NAME, ".fl0")
}

/// A saved name always has an extension, and naming it again changes nothing.
pub proof fn saved_names_keep_their_extension(name: Option<Seq<char>>, fallback: Seq<char>)
    requires
        match name {
            Some(name) => name.len() > 0,
            None => fallback.len() > 0,
        },
    ensures
        ({
            let once = named_with(name, fallback, ".db8"@);
            &&& extension_of(once) is Some
            &&& named_with(Some(once), fallback, ".db8"@) == once
        }),
{
    reveal_strlit(".db8");
    reveal_strlit("..");
    let once = named_with(name, fallback, ".db8"@);
    if !(name matches Some(name) && extension_of(name) is Some) {
        let front = match name {
            Some(name) => name,
            None => fallback,
        };
        let at = front.len() as int;
        assert(once =~= front + ".db8"@);
        assert(once[at] == '.');
        assert(once[at + 1] == 'd' && once[at + 2] == 'b' && once[at + 3] == '8');
        assert(once.len() == at + 4);
        reveal_with_fuel(last_dot, 5);
        assert(last_dot(once, at + 4) == Some(at));
    }
}

/// An imported file's title: its name as a document.
pub fn imported_title(file_name: Option<&str>) -> (title: Option<String>)
    ensures
        match (title, file_name) {
            (Some(title), Some(name)) => title@ == stem_of(name@) + ".db8"@,
            (None, None) => true,
            _ => false,
        },
{
    match file_name {
        Some(name) => {
            let title = with_extension(name, "db8");
            proof {
                reveal_strlit(".");
                reveal_strlit("db8");
                reveal_strlit(".db8");
                assert("."@ + "db8"@ =~= ".db8"@);
                assert(title@ =~= stem_of(name@) + ("."@ + "db8"@));
            }
            Some(title)
        },
        None => None,
    }
}

/// A package's title: its file's name.
pub fn document_package_title_for_path(file_name: Option<&str>) -> (title: String)
    ensures
        title@ == (match file_name {
            Some(name) => name@,
            None => "Flowstate Document"@,
        }),
{
    match file_name {
        Some(name) => String::from_str(name),
        None => String::from_str("Flowstate Document"),
    }
}

/// A name below a directory; directories are divided by slashes.
pub open spec fn below(directory: Seq<char>, name: Seq<char>) -> Seq<char> {
    if directory.len() == 0 || directory.last() == '/' {
        directory + name
    } else {
        directory + "/"@ + name
    }
}

fn join_below(directory: &str, name: &str) -> (path: String)
    ensures
        path@ == below(directory@, name@),
{
    let chars = chars_of(directory);
    let mut path = String::from_str(directory);
    if chars.len() > 0 && chars[chars.len() - 1] != '/' {
        path.append("/");
    }
    path.append(name);
    path
}

/// Where a sandbox keeps its settings.
pub fn sandbox_config_dir(sandbox_root: &str) -> (directory: String)
    ensures
        directory@ == below(sandbox_root@, "config"@),
{
    join_below(sandbox_root, "config")
}

/// Where the session is written: in the directory for settings where one is
/// set, else among the temporary files.
pub fn temporary_workspace_session_path(config_dir: Option<&str>, temp_dir: &str) -> (path: String)
    ensures
        path@ == below(
            match config_dir {
                Some(directory) => directory@,
                None => temp_dir@,
            },
            "flowstate-open-tabs-session.json"@,
        ),
{
    join_below(
        match config_dir {
            Some(directory) => directory,
            None => temp_dir,
        },
        "flowstate-open-tabs-session.json",
    )
}

/// Where a first save is offered: the working directory, else the home
/// directory, else the root.
pub fn default_save_directory(working: Option<String>, home: Option<String>) -> (directory: String)
    ensures
        directory@ == (match (working, home) {
            (Some(working), _) => working@,
            (None, Some(home)) => home@,
            (None, None) => "/"@,
        }),
{
    match (working, home) {
        (Some(working), _) => working,
        (None, Some(home)) => home,
        (None, None) => String::from_str("/"),
    }
}

} // verus!
