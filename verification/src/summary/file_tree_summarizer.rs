use super::{Summarizer, Summary};
use crate::error::{Error, ErrorView};
use crate::paths::{file_name, file_stem, parent, path_file_name, path_file_stem, path_parent};
use crate::text::{char_to_uppercase, chars_of, text_of, uppercase};
use crate::util::{
    is_counter, lemma_last_component_of_concat, lemma_next_is_counter, next_chapter_number,
    next_number,
};
use crate::vault::content::{
    as_items, chapters_view, items_view, Chapter, ChapterView, Item, ItemView,
};
use vstd::prelude::*;

verus! {

/// A directory of the source tree as it was found: its path, and what it holds in the order
/// in which the file system listed it, or why it could not be listed.
#[derive(PartialEq, Debug)]
pub struct Directory {
    pub path: String,
    pub listing: Result<Vec<Entry>, String>,
}

/// One entry of a listed directory.
#[derive(PartialEq, Debug)]
pub enum Entry {
    /// A file, by its path.
    File(String),
    Directory(Directory),
}

/// What a [`Directory`] is in contracts.
pub struct DirectoryView {
    pub path: Seq<char>,
    pub listing: Result<Seq<EntryView>, Seq<char>>,
}

/// What an [`Entry`] is in contracts.
pub enum EntryView {
    File(Seq<char>),
    Directory(DirectoryView),
}

pub open spec fn directory_view(directory: Directory) -> DirectoryView
    decreases directory, 1int,
{
    DirectoryView {
        path: directory.path@,
        listing: match directory.listing {
            Ok(entries) => Ok(entries_view(entries@)),
            Err(cause) => Err(cause@),
        },
    }
}

pub open spec fn entry_view(entry: Entry) -> EntryView
    decreases entry, 0int,
{
    match entry {
        Entry::File(path) => EntryView::File(path@),
        Entry::Directory(directory) => EntryView::Directory(directory_view(directory)),
    }
}

/// The views of `entries`, in order.
pub open spec fn entries_view(entries: Seq<Entry>) -> Seq<EntryView>
    decreases entries, 2int,
{
    Seq::new(
        entries.len(),
        |i: int|
            if 0 <= i < entries.len() {
                entry_view(entries[i])
            } else {
                arbitrary()
            },
    )
}

impl View for Directory {
    type V = DirectoryView;

    open spec fn view(&self) -> DirectoryView {
        directory_view(*self)
    }
}

impl View for Entry {
    type V = EntryView;

    open spec fn view(&self) -> EntryView {
        entry_view(*self)
    }
}

/// One of the names under which a directory's own chapter is looked for first.
pub open spec fn is_index_name(name: Seq<char>) -> bool {
    name == "index.md"@ || name == "readme.md"@ || name == "INDEX.md"@ || name == "README.md"@
}

/// The name of a markdown file: it ends in `.md`.
pub open spec fn is_markdown_name(name: Seq<char>) -> bool {
    name.len() >= 3 && name.skip(name.len() - 3) == ".md"@
}

/// The file at `path` is a markdown file.
pub open spec fn is_markdown(path: Seq<char>) -> bool {
    match path_file_name(path) {
        Some(name) => is_markdown_name(name),
        None => false,
    }
}

/// The file at `path` has one of the names under which a directory's chapter is looked for
/// first.
pub open spec fn has_index_name(path: Seq<char>) -> bool {
    match path_file_name(path) {
        Some(name) => is_index_name(name),
        None => false,
    }
}

/// The file at `path` bears the name of the directory at `directory`, with `.md` behind it.
pub open spec fn named_after(path: Seq<char>, directory: Seq<char>) -> bool {
    match (path_file_name(path), path_file_name(directory)) {
        (Some(name), Some(directory)) => name == directory + ".md"@,
        _ => false,
    }
}

/// The file at `path` is the content of the chapter that the directory at `directory`
/// stands for, and so no chapter of its own.
pub open spec fn is_content_of(path: Seq<char>, directory: Seq<char>) -> bool {
    has_index_name(path) || named_after(path, directory)
}

/// The file at `path` bears the name of the directory that its path puts it in, with `.md`
/// behind it.
pub open spec fn has_directory_name(path: Seq<char>) -> bool {
    match path_parent(path) {
        Some(parent) => named_after(path, parent),
        None => false,
    }
}

/// The file at `path` is the content of the chapter that the directory stands for which
/// its path puts it in.
pub open spec fn is_parent_content(path: Seq<char>) -> bool {
    has_index_name(path) || has_directory_name(path)
}

/// `text` with its first character in upper case and the rest unchanged.
pub open spec fn capitalized(text: Seq<char>) -> Seq<char> {
    if text.len() == 0 {
        text
    } else {
        char_to_uppercase(text[0]) + text.skip(1)
    }
}

/// The title of the chapter that the file or directory at `path` stands for: its name
/// without the extension, capitalized. Empty where the path has no final name.
pub open spec fn chapter_title(path: Seq<char>) -> Seq<char> {
    match path_file_stem(path) {
        Some(stem) => capitalized(stem),
        None => Seq::empty(),
    }
}

/// The first file among `entries` that has an index name (`by_index`), or else the name of
/// the directory at `directory`.
pub open spec fn first_content(entries: Seq<EntryView>, by_index: bool, directory: Seq<char>)
    -> Option<Seq<char>>
    decreases entries.len(),
{
    if entries.len() == 0 {
        None
    } else {
        match entries[0] {
            EntryView::File(path) if (if by_index {
                has_index_name(path)
            } else {
                named_after(path, directory)
            }) => Some(path),
            _ => first_content(entries.skip(1), by_index, directory),
        }
    }
}

/// The file that is the content of the chapter of the directory at `directory`, which holds
/// `entries`: the first file with an index name, else the first file with the directory's
/// name.
pub open spec fn main_content(entries: Seq<EntryView>, directory: Seq<char>) -> Option<
    Seq<char>,
> {
    match first_content(entries, true, directory) {
        Some(path) => Some(path),
        None => first_content(entries, false, directory),
    }
}

/// The entry stands for a chapter: it is a directory, or a markdown file that is not the
/// content of the chapter of the directory at `directory`.
pub open spec fn is_chapter_entry(entry: EntryView, directory: Seq<char>) -> bool {
    match entry {
        EntryView::File(path) => is_markdown(path) && !is_content_of(path, directory),
        EntryView::Directory(_) => true,
    }
}

/// The number of the first chapter below the chapter with this number.
pub open spec fn first_below(number: Seq<char>) -> Seq<char> {
    number + ".1"@
}

/// The chapters that the entries of the directory at `directory` stand for, the first of
/// them numbered `number`: one for each directory, and one for each markdown file that is
/// not the content of the directory's own chapter, in the order of the entries; or the
/// first failure on the way. A file that is no markdown file stands for nothing.
pub open spec fn tree_chapters(entries: Seq<EntryView>, number: Seq<char>, directory: Seq<char>)
    -> Result<Seq<ChapterView>, ErrorView>
    decreases entries, 2int,
{
    if entries.len() == 0 {
        Ok(Seq::empty())
    } else {
        match entry_chapter(entries[0], number, directory) {
            Err(error) => Err(error),
            Ok(None) => tree_chapters(entries.skip(1), number, directory),
            Ok(Some(chapter)) => match tree_chapters(
                entries.skip(1),
                next_number(number),
                directory,
            ) {
                Ok(rest) => Ok(seq![chapter] + rest),
                Err(error) => Err(error),
            },
        }
    }
}

/// The chapter that one entry of the directory at `directory` stands for, if it stands for
/// one.
pub open spec fn entry_chapter(entry: EntryView, number: Seq<char>, directory: Seq<char>)
    -> Result<Option<ChapterView>, ErrorView>
    decreases entry, 1int,
{
    match entry {
        EntryView::File(path) => if is_markdown(path) && !is_content_of(path, directory) {
            Ok(
                Some(
                    ChapterView {
                        title: chapter_title(path),
                        number,
                        content: path,
                        subchapters: Seq::empty(),
                    },
                ),
            )
        } else {
            Ok(None)
        },
        EntryView::Directory(below) => match directory_chapter(below, number) {
            Ok(chapter) => Ok(Some(chapter)),
            Err(error) => Err(error),
        },
    }
}

/// The chapter that a directory stands for: titled after the directory, with the
/// directory's main content, and with the chapters of its entries below it.
pub open spec fn directory_chapter(directory: DirectoryView, number: Seq<char>) -> Result<
    ChapterView,
    ErrorView,
>
    decreases directory, 0int,
{
    match directory.listing {
        Err(cause) => Err(ErrorView::SummarizeFailed { path: directory.path, cause }),
        Ok(entries) => match main_content(entries, directory.path) {
            None => Err(ErrorView::MissingChapterContent { path: directory.path }),
            Some(content) => match tree_chapters(entries, first_below(number), directory.path) {
                Err(error) => Err(error),
                Ok(chapters) => Ok(
                    ChapterView {
                        title: chapter_title(directory.path),
                        number,
                        content,
                        subchapters: as_items(chapters),
                    },
                ),
            },
        },
    }
}

/// The chapters of the directory that a summary starts from.
pub open spec fn root_chapters(root: DirectoryView, number: Seq<char>) -> Result<
    Seq<ChapterView>,
    ErrorView,
> {
    match root.listing {
        Err(cause) => Err(ErrorView::SummarizeFailed { path: root.path, cause }),
        Ok(entries) => tree_chapters(entries, number, root.path),
    }
}

/// What a result of chapters is in contracts.
pub open spec fn chapters_result(result: Result<Vec<Chapter>, Error>) -> Result<
    Seq<ChapterView>,
    ErrorView,
> {
    match result {
        Ok(chapters) => Ok(chapters_view(chapters@)),
        Err(error) => Err(error@),
    }
}

/// Makes a table of contents from the file tree alone. Each directory is a chapter, whose
/// content is the file in it named `index.md`, `readme.md`, `INDEX.md` or `README.md`, or
/// else the file named after the directory. Every other markdown file, one whose name ends
/// in `.md`, is a chapter too; other files are left out. Chapters come in the order in
/// which the directory was listed.
pub struct FileTreeSummarizer {
    pub root: Directory,
}

impl FileTreeSummarizer {
    pub fn new(root: Directory) -> (summarizer: Self)
        ensures
            summarizer.root == root,
    {
        Self { root }
    }

    /// Finds the chapters of the root directory, recursively. The first of them gets the
    /// number `initial_chapter_number`.
    pub fn find_chapters(&self, initial_chapter_number: &str) -> (chapters: Result<
        Vec<Chapter>,
        Error,
    >)
        requires
            is_counter(initial_chapter_number@),
        ensures
            chapters_result(chapters) == root_chapters(self.root@, initial_chapter_number@),
    {
        match &self.root.listing {
            Err(cause) => Err(
                Error::SummarizeFailed { path: self.root.path.clone(), cause: cause.clone() },
            ),
            Ok(entries) => chapters_of(entries, initial_chapter_number, self.root.path.as_str()),
        }
    }

    /// The title of the chapter for a file or directory: its name without the extension,
    /// with the first character in upper case. `chapter2.md` gives `Chapter2`.
    pub fn format_chapter_title(&self, file_name: &str) -> (title: String)
        ensures
            title@ == chapter_title(file_name@),
    {
        title_of(file_name)
    }

    /// The content of the chapter that a directory with these entries stands for.
    pub fn find_main_chapter_content(&self, directory: &Directory) -> (content: Result<
        String,
        Error,
    >)
        ensures
            match directory@.listing {
                Err(cause) => content matches Err(error) && error@ == (
                ErrorView::SummarizeFailed { path: directory@.path, cause }),
                Ok(entries) => match main_content(entries, directory@.path) {
                    Some(path) => content matches Ok(found) && found@ == path,
                    None => content matches Err(error) && error@ == (
                    ErrorView::MissingChapterContent { path: directory@.path }),
                },
            },
    {
        match &directory.listing {
            Err(cause) => Err(
                Error::SummarizeFailed { path: directory.path.clone(), cause: cause.clone() },
            ),
            Ok(entries) => match content_among(entries, directory.path.as_str()) {
                Some(path) => Ok(path),
                None => Err(Error::MissingChapterContent { path: directory.path.clone() }),
            },
        }
    }

    /// Whether the file at `path` is the content of the chapter of the directory that its
    /// path puts it in.
    pub fn is_parent_content(&self, path: &str) -> (is_content: bool)
        ensures
            is_content == is_parent_content(path@),
    {
        named_as_index(path) || match parent(path) {
            Some(directory) => named_as(path, directory.as_str()),
            None => false,
        }
    }
}

impl Summarizer for FileTreeSummarizer {
    fn summarize(&self) -> (summary: Result<Summary, Error>)
        ensures
            match root_chapters(self.root@, "1"@) {
                Ok(chapters) => summary matches Ok(found) && found@ == as_items(chapters),
                Err(error) => summary matches Err(found) && found@ == error,
            },
    {
        proof {
            lemma_one_is_counter();
        }
        match self.find_chapters("1") {
            Ok(chapters) => Ok(Summary::new(into_items(chapters))),
            Err(error) => Err(error),
        }
    }
}

/// `1` can be counted up.
pub proof fn lemma_one_is_counter()
    ensures
        is_counter("1"@),
{
    reveal_strlit("1");
    lemma_last_component_of_concat(Seq::empty(), "1"@);
    assert(Seq::<char>::empty() + "1"@ == "1"@);
    assert("1"@.skip(0) == "1"@);
}

/// The number of the first chapter below a chapter can be counted up.
pub proof fn lemma_first_below_is_counter(number: Seq<char>)
    ensures
        is_counter(first_below(number)),
{
    reveal_strlit(".1");
    let head = number.push('.');
    let tail = seq!['1'];
    assert(first_below(number) == head + tail);
    lemma_last_component_of_concat(head, tail);
    assert((head + tail).skip(head.len() as int) == tail);
}

/// Each chapter as an item.
pub fn into_items(chapters: Vec<Chapter>) -> (items: Vec<Item>)
    ensures
        items_view(items@) == as_items(chapters_view(chapters@)),
{
    let mut items: Vec<Item> = Vec::new();
    let ghost all = chapters@;
    for chapter in it: chapters
        invariant
            it.seq() == all,
            items_view(items@) == as_items(chapters_view(all.take(it.index() as int))),
    {
        let ghost before = items@;
        assert(items_view(before).len() == it.index());
        items.push(Item::Chapter(chapter));
        assert(items_view(items@) == as_items(chapters_view(all.take(it.index() + 1)))) by {
            let wanted = as_items(chapters_view(all.take(it.index() + 1)));
            let earlier = as_items(chapters_view(all.take(it.index() as int)));
            assert forall|i: int| 0 <= i < wanted.len() implies items_view(items@)[i]
                == wanted[i] by {
                if i < it.index() {
                    assert(items_view(before)[i] == earlier[i]);
                }
            }
        }
    }
    items
}

fn chapters_of(entries: &Vec<Entry>, number: &str, directory: &str) -> (chapters: Result<
    Vec<Chapter>,
    Error,
>)
    requires
        is_counter(number@),
    ensures
        chapters_result(chapters) == tree_chapters(entries_view(entries@), number@, directory@),
    decreases entries,
{
    let ghost all = entries_view(entries@);
    let mut chapters: Vec<Chapter> = Vec::new();
    let mut counter: String = number.to_owned();
    let mut i: usize = 0;
    assert(all.skip(0) == all);
    while i < entries.len()
        invariant
            i <= entries.len(),
            all == entries_view(entries@),
            is_counter(counter@),
            tree_chapters(all, number@, directory@) == (match tree_chapters(
                all.skip(i as int),
                counter@,
                directory@,
            ) {
                Ok(rest) => Ok(chapters_view(chapters@) + rest),
                Err(error) => Err(error),
            }),
        decreases entries.len() - i,
    {
        let ghost rest = all.skip(i as int);
        assert(rest.skip(1) == all.skip(i + 1));
        let ghost before = chapters@;
        let found = match &entries[i] {
            Entry::File(path) => {
                if markdown(path.as_str()) && !(named_as_index(path.as_str()) || named_as(
                    path.as_str(),
                    directory,
                )) {
                    Some(
                        Chapter {
                            title: title_of(path.as_str()),
                            number: counter.clone(),
                            content: path.clone(),
                            subchapters: Vec::new(),
                        },
                    )
                } else {
                    None
                }
            },
            Entry::Directory(below) => {
                match chapter_of(below, counter.as_str()) {
                    Ok(chapter) => Some(chapter),
                    Err(error) => {
                        return Err(error);
                    },
                }
            },
        };
        assert(match entry_chapter(rest[0], counter@, directory@) {
            Ok(Some(chapter)) => found matches Some(c) && c@ == chapter,
            Ok(None) => found is None,
            Err(_) => false,
        }) by {
            assert(items_view(Seq::<Item>::empty()) == Seq::<ItemView>::empty());
        }
        match found {
            Some(chapter) => {
                chapters.push(chapter);
                proof {
                    lemma_next_is_counter(counter@);
                    let tail = tree_chapters(rest.skip(1), next_number(counter@), directory@);
                    if let Ok(later) = tail {
                        assert(chapters_view(chapters@) + later == chapters_view(before) + (
                        seq![chapter@] + later));
                    }
                }
                counter = next_chapter_number(counter.as_str());
            },
            None => {},
        }
        i += 1;
    }
    Ok(chapters)
}

fn chapter_of(directory: &Directory, number: &str) -> (chapter: Result<Chapter, Error>)
    requires
        is_counter(number@),
    ensures
        match directory_chapter(directory@, number@) {
            Ok(wanted) => chapter matches Ok(found) && found@ == wanted,
            Err(error) => chapter matches Err(found) && found@ == error,
        },
    decreases directory,
{
    match &directory.listing {
        Err(cause) => Err(
            Error::SummarizeFailed { path: directory.path.clone(), cause: cause.clone() },
        ),
        Ok(entries) => match content_among(entries, directory.path.as_str()) {
            None => Err(Error::MissingChapterContent { path: directory.path.clone() }),
            Some(content) => {
                let below = number.to_owned().concat(".1");
                proof {
                    lemma_first_below_is_counter(number@);
                }
                match chapters_of(entries, below.as_str(), directory.path.as_str()) {
                    Err(error) => Err(error),
                    Ok(chapters) => Ok(
                        Chapter {
                            title: title_of(directory.path.as_str()),
                            number: number.to_owned(),
                            content,
                            subchapters: into_items(chapters),
                        },
                    ),
                }
            },
        },
    }
}

fn content_among(entries: &Vec<Entry>, directory: &str) -> (content: Option<String>)
    ensures
        crate::paths::option_text(content) == main_content(entries_view(entries@), directory@),
{
    match first_among(entries, true, directory) {
        Some(path) => Some(path),
        None => first_among(entries, false, directory),
    }
}

fn first_among(entries: &Vec<Entry>, by_index: bool, directory: &str) -> (content: Option<
    String,
>)
    ensures
        crate::paths::option_text(content) == first_content(
            entries_view(entries@),
            by_index,
            directory@,
        ),
{
    let ghost all = entries_view(entries@);
    let mut i: usize = 0;
    assert(all.skip(0) == all);
    while i < entries.len()
        invariant
            i <= entries.len(),
            all == entries_view(entries@),
            first_content(all, by_index, directory@) == first_content(
                all.skip(i as int),
                by_index,
                directory@,
            ),
        decreases entries.len() - i,
    {
        let ghost rest = all.skip(i as int);
        assert(rest.skip(1) == all.skip(i + 1));
        match &entries[i] {
            Entry::File(path) => {
                let fits = if by_index {
                    named_as_index(path.as_str())
                } else {
                    named_as(path.as_str(), directory)
                };
                if fits {
                    return Some(path.clone());
                }
            },
            Entry::Directory(_) => {},
        }
        i += 1;
    }
    None
}

fn named_as_index(path: &str) -> (named: bool)
    ensures
        named == has_index_name(path@),
{
    match file_name(path) {
        Some(name) => name == String::from_str("index.md") || name == String::from_str(
            "readme.md",
        ) || name == String::from_str("INDEX.md") || name == String::from_str("README.md"),
        None => false,
    }
}

fn named_as(path: &str, directory: &str) -> (named: bool)
    ensures
        named == named_after(path@, directory@),
{
    match (file_name(path), file_name(directory)) {
        (Some(name), Some(directory)) => name == directory.concat(".md"),
        _ => false,
    }
}

fn markdown(path: &str) -> (is: bool)
    ensures
        is == is_markdown(path@),
{
    match file_name(path) {
        Some(name) => {
            let chars = chars_of(name.as_str());
            let n = chars.len();
            proof {
                reveal_strlit(".md");
                if n >= 3 {
                    let end = chars@.skip(n - 3);
                    assert(end.len() == 3);
                    assert(end[0] == chars@[n - 3] && end[1] == chars@[n - 2] && end[2] == chars@[n
                        - 1]);
                    if chars@[n - 3] == '.' && chars@[n - 2] == 'm' && chars@[n - 1] == 'd' {
                        assert(end =~= ".md"@);
                    }
                }
            }
            n >= 3 && chars[n - 3] == '.' && chars[n - 2] == 'm' && chars[n - 1] == 'd'
        },
        None => false,
    }
}

fn title_of(path: &str) -> (title: String)
    ensures
        title@ == chapter_title(path@),
{
    match file_stem(path) {
        None => String::new(),
        Some(stem) => {
            let chars = chars_of(stem.as_str());
            if chars.len() == 0 {
                String::new()
            } else {
                let mut title = uppercase(chars[0]);
                let mut i: usize = 1;
                while i < chars.len()
                    invariant
                        1 <= i <= chars.len(),
                        title@ == char_to_uppercase(chars@[0]) + chars@.subrange(1, i as int),
                    decreases chars.len() - i,
                {
                    title.push(chars[i]);
                    i += 1;
                }
                text_of(&title)
            }
        },
    }
}

} // verus!
