pub mod chapter;
pub mod section;

pub use chapter::{as_items, chapters_view, Chapter, ChapterView};
use crate::config::texts_view;
use crate::error::{Error, ErrorView};
use crate::paths::{join, option_text, path_join};
use crate::summary::file_tree_summarizer::{
    entries_view, root_chapters, tree_chapters, Directory, DirectoryView, Entry, EntryView,
    FileTreeSummarizer,
};
use crate::summary::listed::{contents_listed, lemma_tree_contents_listed};
use crate::summary::numbers::{
    lemma_numbered_is_well_numbered, lemma_one_is_dotted_number,
    lemma_summary_items_well_numbered, lemma_tree_chapters_numbered, well_numbered,
};
use crate::summary::summary_file::{
    classified, lines_of, parse_summary, summary_directory, SummaryFileSummarizer,
};
use crate::summary::{Summarizer, Summary};
pub use section::{Section, SectionView};
use vstd::prelude::*;

verus! {

/// One entry of a table of contents.
#[derive(PartialEq, Debug)]
pub enum Item {
    Chapter(Chapter),
    Section(Section),
}

/// What an [`Item`] is in contracts.
pub enum ItemView {
    Chapter(ChapterView),
    Section(SectionView),
}

pub open spec fn chapter_view(chapter: Chapter) -> ChapterView
    decreases chapter, 1int,
{
    ChapterView {
        title: chapter.title@,
        number: chapter.number@,
        content: chapter.content@,
        subchapters: items_view(chapter.subchapters@),
    }
}

pub open spec fn item_view(item: Item) -> ItemView
    decreases item, 0int,
{
    match item {
        Item::Chapter(chapter) => ItemView::Chapter(chapter_view(chapter)),
        Item::Section(section) => ItemView::Section(section@),
    }
}

/// The views of `items`, in order.
pub open spec fn items_view(items: Seq<Item>) -> Seq<ItemView>
    decreases items, 2int,
{
    Seq::new(
        items.len(),
        |i: int|
            if 0 <= i < items.len() {
                item_view(items[i])
            } else {
                arbitrary()
            },
    )
}

impl View for Item {
    type V = ItemView;

    open spec fn view(&self) -> ItemView {
        item_view(*self)
    }
}

impl From<Chapter> for Item {
    fn from(chapter: Chapter) -> (item: Self) {
        Item::Chapter(chapter)
    }
}

impl vstd::std_specs::convert::FromSpecImpl<Chapter> for Item {
    open spec fn obeys_from_spec() -> bool {
        true
    }

    open spec fn from_spec(chapter: Chapter) -> Self {
        Item::Chapter(chapter)
    }
}

impl From<Section> for Item {
    fn from(section: Section) -> (item: Self) {
        Item::Section(section)
    }
}

impl vstd::std_specs::convert::FromSpecImpl<Section> for Item {
    open spec fn obeys_from_spec() -> bool {
        true
    }

    open spec fn from_spec(section: Section) -> Self {
        Item::Section(section)
    }
}

impl Clone for Item {
    fn clone(&self) -> (copy: Self)
        ensures
            copy@ == self@,
    {
        match self {
            Item::Chapter(chapter) => Item::Chapter(copy_chapter(chapter)),
            Item::Section(section) => Item::Section(section.clone()),
        }
    }
}

/// A copy of `chapter` and of everything below it.
pub fn copy_chapter(chapter: &Chapter) -> (copy: Chapter)
    ensures
        copy@ == chapter@,
    decreases chapter,
{
    Chapter {
        title: chapter.title.clone(),
        number: chapter.number.clone(),
        content: chapter.content.clone(),
        subchapters: copy_items(&chapter.subchapters),
    }
}

/// A copy of `items` and of everything below them.
pub fn copy_items(items: &Vec<Item>) -> (copy: Vec<Item>)
    ensures
        items_view(copy@) == items_view(items@),
    decreases items,
{
    let mut copy: Vec<Item> = Vec::new();
    let mut i: usize = 0;
    while i < items.len()
        invariant
            i <= items.len(),
            copy.len() == i,
            forall|j: int| 0 <= j < i ==> copy@[j]@ == items@[j]@,
        decreases items.len() - i,
    {
        let item = match &items[i] {
            Item::Chapter(chapter) => Item::Chapter(copy_chapter(chapter)),
            Item::Section(section) => Item::Section(section.clone()),
        };
        copy.push(item);
        i += 1;
    }
    copy
}

/// The chapters among `items`, in order.
pub open spec fn chapters_among(items: Seq<ItemView>) -> Seq<ChapterView>
    decreases items.len(),
{
    if items.len() == 0 {
        Seq::empty()
    } else {
        match items.last() {
            ItemView::Chapter(chapter) => chapters_among(items.drop_last()).push(chapter),
            ItemView::Section(_) => chapters_among(items.drop_last()),
        }
    }
}

/// The sections among `items`, in order.
pub open spec fn sections_among(items: Seq<ItemView>) -> Seq<SectionView>
    decreases items.len(),
{
    if items.len() == 0 {
        Seq::empty()
    } else {
        match items.last() {
            ItemView::Chapter(_) => sections_among(items.drop_last()),
            ItemView::Section(section) => sections_among(items.drop_last()).push(section),
        }
    }
}

/// The views of `sections`, in order.
pub open spec fn sections_view(sections: Seq<Section>) -> Seq<SectionView> {
    Seq::new(sections.len(), |i: int| sections[i]@)
}

/// What a table of contents is made from.
#[derive(PartialEq, Debug)]
pub enum Source {
    /// A summary at `path`, with what it holds, or with the reason why it could not be read.
    SummaryFile { path: String, text: Result<String, String> },
    /// The source directory as it was found.
    FileTree(Directory),
}

/// The path of an entry.
pub open spec fn entry_path(entry: EntryView) -> Seq<char> {
    match entry {
        EntryView::File(path) => path,
        EntryView::Directory(directory) => directory.path,
    }
}

/// One of `entries` lies at `path`.
pub open spec fn has_entry(entries: Seq<EntryView>, path: Seq<char>) -> bool {
    exists|i: int| 0 <= i < entries.len() && #[trigger] entry_path(entries[i]) == path
}

/// The path of the summary of the vault whose source directory is `root`: the first of
/// `summary.md`, `SUMMARY.MD` and `Summary.md` that the directory holds.
pub open spec fn summary_file_of(root: DirectoryView) -> Option<Seq<char>> {
    match root.listing {
        Err(_) => None,
        Ok(entries) => if has_entry(entries, path_join(root.path, "summary.md"@)) {
            Some(path_join(root.path, "summary.md"@))
        } else if has_entry(entries, path_join(root.path, "SUMMARY.MD"@)) {
            Some(path_join(root.path, "SUMMARY.MD"@))
        } else if has_entry(entries, path_join(root.path, "Summary.md"@)) {
            Some(path_join(root.path, "Summary.md"@))
        } else {
            None
        },
    }
}

/// The table of contents that `source` describes: that of the summary where there is one,
/// else that of the file tree, numbered from `1`.
pub open spec fn summary_of(source: Source) -> Result<Seq<ItemView>, ErrorView> {
    match source {
        Source::SummaryFile { path, text } => match text {
            Err(cause) => Err(ErrorView::SummarizeFailed { path: path@, cause: cause@ }),
            Ok(text) => parse_summary(text@, path@),
        },
        Source::FileTree(root) => match root_chapters(root@, "1"@) {
            Ok(chapters) => Ok(as_items(chapters)),
            Err(error) => Err(error),
        },
    }
}

/// The contents of the chapters among `items` and below them, each chapter before the
/// chapters below it.
pub open spec fn contents_of(items: Seq<ItemView>) -> Seq<Seq<char>>
    decreases items,
{
    if items.len() == 0 {
        Seq::empty()
    } else {
        (match items[0] {
            ItemView::Chapter(chapter) => seq![chapter.content] + contents_of(chapter.subchapters),
            ItemView::Section(_) => Seq::empty(),
        }) + contents_of(items.skip(1))
    }
}

/// The first of `contents` that is no file, where `is_file` tells of each content in order
/// whether it is one. A content that `is_file` does not reach counts as none.
pub open spec fn first_missing(contents: Seq<Seq<char>>, is_file: Seq<bool>) -> Option<
    Seq<char>,
>
    decreases contents.len(),
{
    if contents.len() == 0 {
        None
    } else {
        match first_missing(contents.drop_last(), is_file) {
            Some(content) => Some(content),
            None => if contents.len() <= is_file.len() && is_file[contents.len() - 1] {
                None
            } else {
                Some(contents.last())
            },
        }
    }
}

/// Every chapter of a table of contents has a number that a chapter may have.
pub proof fn lemma_summary_well_numbered(source: Source)
    requires
        summary_of(source) is Ok,
    ensures
        well_numbered(summary_of(source)->Ok_0),
{
    match source {
        Source::SummaryFile { path, text } => {
            let lines = classified(lines_of(text->Ok_0@));
            lemma_summary_items_well_numbered(lines, summary_directory(path@));
        },
        Source::FileTree(root) => {
            let entries = root@.listing->Ok_0;
            lemma_tree_chapters_numbered(entries, "1"@, root@.path);
            lemma_one_is_dotted_number();
            lemma_numbered_is_well_numbered(
                as_items(tree_chapters(entries, "1"@, root@.path)->Ok_0),
                "1"@,
            );
        },
    }
}

/// What a vault holds: its table of contents. It is made anew for every build and not
/// changed afterwards.
#[derive(PartialEq, Debug)]
pub struct Content {
    pub summary: Summary,
}

impl View for Content {
    type V = Seq<ItemView>;

    open spec fn view(&self) -> Seq<ItemView> {
        self.summary@
    }
}

impl Clone for Content {
    fn clone(&self) -> (copy: Self)
        ensures
            copy@ == self@,
    {
        Content { summary: Summary::new(copy_items(&self.summary.items)) }
    }
}

impl Content {
    /// The content of a vault, made from its summary or from its file tree. Every chapter
    /// in it has a number that a chapter may have; made from the file tree, every chapter
    /// has a file of the tree for its content.
    pub fn new(source: Source) -> (content: Result<Content, Error>)
        ensures
            match summary_of(source) {
                Ok(wanted) => content matches Ok(found) && found@ == wanted,
                Err(error) => content matches Err(found) && found@ == error,
            },
            content matches Ok(found) ==> well_numbered(found@),
            content matches Ok(found) ==> (source matches Source::FileTree(root)
                ==> contents_listed(found@, root@.listing->Ok_0)),
    {
        proof {
            if summary_of(source) is Ok {
                lemma_summary_well_numbered(source);
                if source is FileTree {
                    lemma_tree_contents_listed(
                        source->FileTree_0@.listing->Ok_0,
                        "1"@,
                        source->FileTree_0@.path,
                    );
                }
            }
        }
        match Content::create_summary(source) {
            Ok(summary) => Ok(Content { summary }),
            Err(error) => Err(error),
        }
    }

    /// The content of every chapter, each chapter before the chapters below it. These are
    /// the files that have to exist for the content to stand.
    pub fn contents(&self) -> (contents: Vec<String>)
        ensures
            texts_view(contents@) == contents_of(self@),
    {
        contents_among(&self.summary.items)
    }

    /// The content as it is, where every chapter's content is a file; else the first
    /// content that is none. `is_file` tells of each content, in the order of
    /// [`Content::contents`], whether it is a file.
    pub fn resolved(self, is_file: &Vec<bool>) -> (content: Result<Content, Error>)
        ensures
            match first_missing(contents_of(self@), is_file@) {
                None => content == Ok::<Content, Error>(self),
                Some(path) => content matches Err(error) && error@ == (
                ErrorView::MissingChapterContent { path }),
            },
    {
        let contents = self.contents();
        let ghost all = texts_view(contents@);
        let mut i: usize = 0;
        while i < contents.len()
            invariant
                i <= contents.len(),
                all == texts_view(contents@),
                all == contents_of(self@),
                first_missing(all.take(i as int), is_file@) is None,
            decreases contents.len() - i,
        {
            assert(all.take(i + 1).drop_last() == all.take(i as int));
            if i >= is_file.len() || !is_file[i] {
                proof {
                    lemma_first_missing(all, is_file@, i as int);
                }
                return Err(Error::MissingChapterContent { path: contents[i].clone() });
            }
            i += 1;
        }
        assert(all.take(contents.len() as int) == all);
        Ok(self)
    }

    /// The path of the summary that the source directory `root` holds, if it holds one.
    pub fn summary_file(root: &Directory) -> (path: Option<String>)
        ensures
            option_text(path) == summary_file_of(root@),
    {
        match &root.listing {
            Err(_) => None,
            Ok(entries) => {
                let first = join(root.path.as_str(), "summary.md");
                let second = join(root.path.as_str(), "SUMMARY.MD");
                let third = join(root.path.as_str(), "Summary.md");
                if lies_among(entries, &first) {
                    Some(first)
                } else if lies_among(entries, &second) {
                    Some(second)
                } else if lies_among(entries, &third) {
                    Some(third)
                } else {
                    None
                }
            },
        }
    }

    /// The table of contents that `source` describes.
    pub fn create_summary(source: Source) -> (summary: Result<Summary, Error>)
        ensures
            match summary_of(source) {
                Ok(wanted) => summary matches Ok(found) && found@ == wanted,
                Err(error) => summary matches Err(found) && found@ == error,
            },
    {
        match source {
            Source::SummaryFile { path, text } => match text {
                Err(cause) => Err(Error::SummarizeFailed { path, cause }),
                Ok(text) => SummaryFileSummarizer::new(path.as_str(), text.as_str()).summarize(),
            },
            Source::FileTree(root) => FileTreeSummarizer::new(root).summarize(),
        }
    }

    /// The chapters at the top of the table of contents, in order.
    pub fn chapters(&self) -> (chapters: Vec<Chapter>)
        ensures
            chapters_view(chapters@) == chapters_among(self@),
    {
        let items = &self.summary.items;
        let ghost all = items_view(items@);
        let mut chapters: Vec<Chapter> = Vec::new();
        let mut i: usize = 0;
        while i < items.len()
            invariant
                i <= items.len(),
                all == items_view(items@),
                chapters_view(chapters@) == chapters_among(all.take(i as int)),
            decreases items.len() - i,
        {
            assert(all.take(i + 1).drop_last() == all.take(i as int));
            match &items[i] {
                Item::Chapter(chapter) => {
                    chapters.push(copy_chapter(chapter));
                },
                Item::Section(_) => {},
            }
            i += 1;
        }
        assert(all.take(items.len() as int) == all);
        chapters
    }

    /// The sections at the top of the table of contents, in order.
    pub fn sections(&self) -> (sections: Vec<Section>)
        ensures
            sections_view(sections@) == sections_among(self@),
    {
        let items = &self.summary.items;
        let ghost all = items_view(items@);
        let mut sections: Vec<Section> = Vec::new();
        let mut i: usize = 0;
        while i < items.len()
            invariant
                i <= items.len(),
                all == items_view(items@),
                sections_view(sections@) == sections_among(all.take(i as int)),
            decreases items.len() - i,
        {
            assert(all.take(i + 1).drop_last() == all.take(i as int));
            match &items[i] {
                Item::Chapter(_) => {},
                Item::Section(section) => {
                    sections.push(section.clone());
                },
            }
            i += 1;
        }
        assert(all.take(items.len() as int) == all);
        sections
    }
}

/// Where the contents before the `i`-th are files and the `i`-th is none, the `i`-th is the
/// first that is missing.
pub proof fn lemma_first_missing(contents: Seq<Seq<char>>, is_file: Seq<bool>, i: int)
    requires
        0 <= i < contents.len(),
        first_missing(contents.take(i), is_file) is None,
        i >= is_file.len() || !is_file[i],
    ensures
        first_missing(contents, is_file) == Some(contents[i]),
    decreases contents.len(),
{
    if i == contents.len() - 1 {
        assert(contents.drop_last() == contents.take(i));
    } else {
        assert(contents.drop_last().take(i) == contents.take(i));
        lemma_first_missing(contents.drop_last(), is_file, i);
    }
}

/// The contents of the chapters among `items` and below them.
fn contents_among(items: &Vec<Item>) -> (contents: Vec<String>)
    ensures
        texts_view(contents@) == contents_of(items_view(items@)),
    decreases items,
{
    let ghost all = items_view(items@);
    let mut contents: Vec<String> = Vec::new();
    let mut i: usize = 0;
    assert(all.skip(0) == all);
    while i < items.len()
        invariant
            i <= items.len(),
            all == items_view(items@),
            contents_of(all) == texts_view(contents@) + contents_of(all.skip(i as int)),
        decreases items.len() - i,
    {
        let ghost rest = all.skip(i as int);
        assert(rest.skip(1) == all.skip(i + 1));
        match &items[i] {
            Item::Section(_) => {
            },
            Item::Chapter(chapter) => {
                let mut below = contents_among(&chapter.subchapters);
                contents.push(chapter.content.clone());
                contents.append(&mut below);
            },
        }
        i += 1;
    }
    contents
}

/// Whether one of `entries` lies at `path`.
fn lies_among(entries: &Vec<Entry>, path: &String) -> (found: bool)
    ensures
        found == has_entry(entries_view(entries@), path@),
{
    let ghost all = entries_view(entries@);
    let mut i: usize = 0;
    while i < entries.len()
        invariant
            i <= entries.len(),
            all == entries_view(entries@),
            forall|k: int| 0 <= k < i ==> entry_path(all[k]) != path@,
        decreases entries.len() - i,
    {
        let same = match &entries[i] {
            Entry::File(at) => *at == *path,
            Entry::Directory(directory) => directory.path == *path,
        };
        if same {
            assert(entry_path(all[i as int]) == path@);
            return true;
        }
        i += 1;
    }
    false
}

} // verus!
