use vstd::prelude::*;
use vstd::string::StringExecFns;
use crate::text::{same_text, string_from, to_chars};

verus! {

/// Whether `a` comes before `b` or equals it in the order of strings: character by
/// character, by code point, a proper prefix first.
pub open spec fn text_le(a: Seq<char>, b: Seq<char>) -> bool
    decreases a.len(),
{
    if a.len() == 0 {
        true
    } else if b.len() == 0 {
        false
    } else if a[0] != b[0] {
        (a[0] as u32) < (b[0] as u32)
    } else {
        text_le(a.drop_first(), b.drop_first())
    }
}

/// Whether the texts stand in ascending order.
pub open spec fn ascending(texts: Seq<Seq<char>>) -> bool {
    forall|i: int, j: int| 0 <= i < j < texts.len() ==> text_le(texts[i], texts[j])
}

/// The lowercase form of a text.
pub uninterp spec fn lowercased(text: Seq<char>) -> Seq<char>;

/// `str::to_lowercase`: the lowercase form depends on the text alone.
#[verifier::external_body]
fn to_lowercase(text: &str) -> (lower: String)
    ensures
        lower@ == lowercased(text@),
{
    text.to_lowercase()
}

/// `sort` on a vector of strings: the same strings, in the ascending order of
/// strings.
#[verifier::external_body]
pub(crate) fn sort_strings(texts: &mut Vec<String>)
    ensures
        final(texts).deep_view().to_multiset() == old(texts).deep_view().to_multiset(),
        ascending(final(texts).deep_view()),
{
    texts.sort()
}

/// What an entry of a directory is.
#[derive(Clone, Copy, Debug, PartialEq, Eq, Structural)]
pub enum EntryKind {
    File,
    Directory,
    Other,
}

/// One entry of a directory: its name without the path, and what it is.
#[derive(Clone, Debug, PartialEq, Eq)]
pub struct DirectoryEntry {
    pub name: String,
    pub kind: EntryKind,
}

/// The mathematical value of a `DirectoryEntry`.
pub struct EntryModel {
    pub name: Seq<char>,
    pub kind: EntryKind,
}

impl View for DirectoryEntry {
    type V = EntryModel;

    open spec fn view(&self) -> EntryModel {
        EntryModel { name: self.name@, kind: self.kind }
    }
}

impl DeepView for DirectoryEntry {
    type V = EntryModel;

    open spec fn deep_view(&self) -> EntryModel {
        self@
    }
}

/// What came of reading a directory.
#[derive(Clone, Debug, PartialEq, Eq)]
pub enum DirectoryReading {
    /// The path does not name a directory.
    NotADirectory,
    /// The directory could not be read; the text says why.
    Unreadable(String),
    /// The entries that could be read, in the order in which they came.
    Entries(Vec<DirectoryEntry>),
}

/// Why a file or a directory could not be had. Each error carries its message.
#[derive(Clone, Debug, PartialEq, Eq)]
pub enum MarkdownError {
    ReadFailure(String),
    NotADirectory(String),
}

impl MarkdownError {
    /// The message of the error.
    pub open spec fn text(self) -> Seq<char> {
        match self {
            MarkdownError::ReadFailure(message) => message@,
            MarkdownError::NotADirectory(message) => message@,
        }
    }

    /// Returns the message of the error.
    pub fn message(&self) -> (message: String)
        ensures
            message@ == self.text(),
    {
        match self {
            MarkdownError::ReadFailure(message) => message.clone(),
            MarkdownError::NotADirectory(message) => message.clone(),
        }
    }
}

/// The position of the last full stop in `name`, or -1 where it has none.
pub open spec fn last_dot(name: Seq<char>) -> int
    decreases name.len(),
{
    if name.len() == 0 {
        -1
    } else if name.last() == '.' {
        name.len() - 1
    } else {
        last_dot(name.drop_last())
    }
}

/// The extension of a file name: what follows its last full stop. A name without a
/// full stop has none, nor has a name whose only full stop is its first character.
pub open spec fn extension_of(name: Seq<char>) -> Option<Seq<char>> {
    let dot = last_dot(name);
    if dot > 0 {
        Some(name.subrange(dot + 1, name.len() as int))
    } else {
        None
    }
}

/// Whether a lowercase extension is one of markdown: `md` or `markdown`.
pub open spec fn names_markdown(lowercase_extension: Seq<char>) -> bool {
    lowercase_extension == "md"@ || lowercase_extension == "markdown"@
}

/// Whether a file of this name counts as markdown: its extension, letter case set
/// aside, is `md` or `markdown`.
pub open spec fn is_markdown_name(name: Seq<char>) -> bool {
    match extension_of(name) {
        Some(extension) => names_markdown(lowercased(extension)),
        None => false,
    }
}

/// Whether the entry is a markdown file.
pub open spec fn is_markdown_file(entry: EntryModel) -> bool {
    entry.kind == EntryKind::File && is_markdown_name(entry.name)
}

/// Whether the entry is a directory.
pub open spec fn is_directory(entry: EntryModel) -> bool {
    entry.kind == EntryKind::Directory
}

/// The names of the entries that are wanted, in the order of the entries.
pub open spec fn names_of(entries: Seq<EntryModel>, wanted: spec_fn(EntryModel) -> bool) -> Seq<
    Seq<char>,
>
    decreases entries.len(),
{
    if entries.len() == 0 {
        Seq::empty()
    } else if wanted(entries.last()) {
        names_of(entries.drop_last(), wanted).push(entries.last().name)
    } else {
        names_of(entries.drop_last(), wanted)
    }
}

/// The message of the error for a path that is no directory.
pub open spec fn not_a_directory_message(path: Seq<char>) -> Seq<char> {
    "指定的路径不是目录: "@ + path
}

/// The message of the error for a directory that could not be read.
pub open spec fn unreadable_directory_message(reason: Seq<char>) -> Seq<char> {
    "无法读取目录: "@ + reason
}

/// The message of the error for a file that could not be read.
pub open spec fn unreadable_file_message(reason: Seq<char>) -> Seq<char> {
    "无法读取Markdown文件: "@ + reason
}

/// What a listing returns for a reading: the error of a failed reading, or else the
/// names of the wanted entries, all of them and no others, in ascending order.
pub open spec fn is_listing(
    path: Seq<char>,
    reading: DirectoryReading,
    wanted: spec_fn(EntryModel) -> bool,
    result: Result<Vec<String>, MarkdownError>,
) -> bool {
    match reading {
        DirectoryReading::NotADirectory => result matches Err(MarkdownError::NotADirectory(message))
            && message@ == not_a_directory_message(path),
        DirectoryReading::Unreadable(reason) => result matches Err(
            MarkdownError::ReadFailure(message),
        ) && message@ == unreadable_directory_message(reason@),
        DirectoryReading::Entries(entries) => result matches Ok(names) && ascending(
            names.deep_view(),
        ) && names.deep_view().to_multiset() == names_of(entries.deep_view(), wanted).to_multiset(),
    }
}

/// Returns the extension of a file name, if it has one.
pub fn file_extension(name: &str) -> (extension: Option<String>)
    ensures
        extension.deep_view() == extension_of(name@),
{
    let chars = to_chars(name);
    let mut i: usize = chars.len();
    assert(chars@.take(i as int) == chars@);
    while i > 0 && chars[i - 1] != '.'
        invariant
            i <= chars.len(),
            chars@ == name@,
            last_dot(chars@) == last_dot(chars@.take(i as int)),
        decreases i,
    {
        assert(chars@.take(i as int).drop_last() == chars@.take(i - 1));
        i = i - 1;
    }
    if i > 1 {
        assert(chars@.take(i as int).last() == '.');
        Some(string_from(&chars, i, chars.len()))
    } else {
        assert(i == 1 ==> chars@.take(i as int).last() == '.');
        assert(i == 0 ==> chars@.take(i as int).len() == 0);
        None
    }
}

/// Tells whether a lowercase extension is one of markdown.
pub fn is_markdown_extension(lowercase_extension: &str) -> (markdown: bool)
    ensures
        markdown == names_markdown(lowercase_extension@),
{
    same_text(lowercase_extension, "md") || same_text(lowercase_extension, "markdown")
}

/// Tells whether a file of this name counts as markdown.
pub fn has_markdown_extension(name: &str) -> (markdown: bool)
    ensures
        markdown == is_markdown_name(name@),
{
    match file_extension(name) {
        Some(extension) => is_markdown_extension(to_lowercase(extension.as_str()).as_str()),
        None => false,
    }
}

/// Lists the markdown files of a directory from what reading it gave: the names of
/// the files whose extension is `md` or `markdown` in any letter case, each name as
/// it was read, in ascending order. Where the path was no directory or could not be
/// read, the error says so.
pub fn get_markdown_files(dir_path: &str, reading: &DirectoryReading) -> (result: Result<
    Vec<String>,
    MarkdownError,
>)
    ensures
        is_listing(dir_path@, *reading, |entry: EntryModel| is_markdown_file(entry), result),
{
    match reading {
        DirectoryReading::NotADirectory => Err(not_a_directory(dir_path)),
        DirectoryReading::Unreadable(reason) => Err(unreadable_directory(reason.as_str())),
        DirectoryReading::Entries(entries) => {
            let ghost wanted = |entry: EntryModel| is_markdown_file(entry);
            let mut names: Vec<String> = Vec::new();
            let mut i: usize = 0;
            assert(entries.deep_view().take(0) == Seq::<EntryModel>::empty());
            while i < entries.len()
                invariant
                    i <= entries.len(),
                    wanted == (|entry: EntryModel| is_markdown_file(entry)),
                    names.deep_view() == names_of(entries.deep_view().take(i as int), wanted),
                decreases entries.len() - i,
            {
                let ghost before = names.deep_view();
                let entry = &entries[i];
                proof {
                    let next = entries.deep_view().take(i + 1);
                    assert(next.drop_last() == entries.deep_view().take(i as int));
                    assert(next.last() == entry@);
                }
                let is_file = match entry.kind {
                    EntryKind::File => true,
                    _ => false,
                };
                if is_file && has_markdown_extension(entry.name.as_str()) {
                    names.push(entry.name.clone());
                    assert(names.deep_view() == before.push(entry.name@));
                }
                i = i + 1;
            }
            assert(entries.deep_view().take(i as int) == entries.deep_view());
            sort_strings(&mut names);
            Ok(names)
        },
    }
}

/// Lists the subdirectories of a directory from what reading it gave: the names of
/// the entries that are directories, in ascending order. Where the path was no
/// directory or could not be read, the error says so.
pub fn get_subdirectories(dir_path: &str, reading: &DirectoryReading) -> (result: Result<
    Vec<String>,
    MarkdownError,
>)
    ensures
        is_listing(dir_path@, *reading, |entry: EntryModel| is_directory(entry), result),
{
    match reading {
        DirectoryReading::NotADirectory => Err(not_a_directory(dir_path)),
        DirectoryReading::Unreadable(reason) => Err(unreadable_directory(reason.as_str())),
        DirectoryReading::Entries(entries) => {
            let ghost wanted = |entry: EntryModel| is_directory(entry);
            let mut names: Vec<String> = Vec::new();
            let mut i: usize = 0;
            assert(entries.deep_view().take(0) == Seq::<EntryModel>::empty());
            while i < entries.len()
                invariant
                    i <= entries.len(),
                    wanted == (|entry: EntryModel| is_directory(entry)),
                    names.deep_view() == names_of(entries.deep_view().take(i as int), wanted),
                decreases entries.len() - i,
            {
                let ghost before = names.deep_view();
                let entry = &entries[i];
                proof {
                    let next = entries.deep_view().take(i + 1);
                    assert(next.drop_last() == entries.deep_view().take(i as int));
                    assert(next.last() == entry@);
                }
                let is_dir = match entry.kind {
                    EntryKind::Directory => true,
                    _ => false,
                };
                if is_dir {
                    names.push(entry.name.clone());
                    assert(names.deep_view() == before.push(entry.name@));
                }
                i = i + 1;
            }
            assert(entries.deep_view().take(i as int) == entries.deep_view());
            sort_strings(&mut names);
            Ok(names)
        },
    }
}

/// Builds the error for a path that is no directory.
fn not_a_directory(dir_path: &str) -> (error: MarkdownError)
    ensures
        error matches MarkdownError::NotADirectory(message) && message@ == not_a_directory_message(
            dir_path@,
        ),
{
    let mut message = "指定的路径不是目录: ".to_owned();
    message.append(dir_path);
    MarkdownError::NotADirectory(message)
}

/// Builds the error for a directory that could not be read.
fn unreadable_directory(reason: &str) -> (error: MarkdownError)
    ensures
        error matches MarkdownError::ReadFailure(message) && message@
            == unreadable_directory_message(reason@),
{
    let mut message = "无法读取目录: ".to_owned();
    message.append(reason);
    MarkdownError::ReadFailure(message)
}

/// Hands on the text of a markdown file that was read, or the error for one that
/// could not be read, with the reason in its message.
pub fn load_markdown_file(read: Result<String, String>) -> (result: Result<String, MarkdownError>)
    ensures
        match read {
            Ok(text) => result == Ok::<String, MarkdownError>(text),
            Err(reason) => result matches Err(MarkdownError::ReadFailure(message)) && message@
                == unreadable_file_message(reason@),
        },
{
    match read {
        Ok(text) => Ok(text),
        Err(reason) => {
            let mut message = "无法读取Markdown文件: ".to_owned();
            message.append(reason.as_str());
            Err(MarkdownError::ReadFailure(message))
        },
    }
}

} // verus!
