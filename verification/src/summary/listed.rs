use super::file_tree_summarizer::{
    directory_chapter, entry_chapter, first_content, main_content, tree_chapters, DirectoryView,
    EntryView,
};
use crate::vault::content::{as_items, contents_of, ChapterView, ItemView};
use vstd::prelude::*;

verus! {

/// `path` is a file among `entries`, or in a directory among them, however deep.
pub open spec fn lists_file(entries: Seq<EntryView>, path: Seq<char>) -> bool
    decreases entries,
{
    exists|i: int|
        0 <= i < entries.len() && match #[trigger] entries[i] {
            EntryView::File(file) => file == path,
            EntryView::Directory(directory) => match directory.listing {
                Ok(below) => lists_file(below, path),
                Err(_) => false,
            },
        }
}

/// The content of every chapter among `items`, and below them, is a file of `entries`.
pub open spec fn contents_listed(items: Seq<ItemView>, entries: Seq<EntryView>) -> bool {
    forall|i: int|
        0 <= i < contents_of(items).len() ==> lists_file(entries, #[trigger] contents_of(items)[i])
}

/// A file of the entries behind the first is a file of all of them.
proof fn lemma_listed_behind(entries: Seq<EntryView>, path: Seq<char>)
    requires
        entries.len() > 0,
        lists_file(entries.skip(1), path),
    ensures
        lists_file(entries, path),
{
    let rest = entries.skip(1);
    let i = choose|i: int|
        0 <= i < rest.len() && match #[trigger] rest[i] {
            EntryView::File(file) => file == path,
            EntryView::Directory(directory) => match directory.listing {
                Ok(below) => lists_file(below, path),
                Err(_) => false,
            },
        };
    assert(entries[i + 1] == rest[i]);
}

/// A file of the first entry is a file of all of them.
proof fn lemma_listed_in_first(entries: Seq<EntryView>, path: Seq<char>)
    requires
        entries.len() > 0,
        lists_file(seq![entries[0]], path),
    ensures
        lists_file(entries, path),
{
    let first = seq![entries[0]];
    let i = choose|i: int|
        0 <= i < first.len() && match #[trigger] first[i] {
            EntryView::File(file) => file == path,
            EntryView::Directory(directory) => match directory.listing {
                Ok(below) => lists_file(below, path),
                Err(_) => false,
            },
        };
    assert(first[i] == entries[0]);
}

/// The content that is found for a directory is one of its files.
proof fn lemma_first_content_listed(entries: Seq<EntryView>, by_index: bool, directory: Seq<char>)
    requires
        first_content(entries, by_index, directory) is Some,
    ensures
        lists_file(entries, first_content(entries, by_index, directory).unwrap()),
    decreases entries.len(),
{
    let path = first_content(entries, by_index, directory).unwrap();
    if entries[0] == EntryView::File(path) {
        assert(lists_file(entries, path));
    } else {
        lemma_first_content_listed(entries.skip(1), by_index, directory);
        lemma_listed_behind(entries, path);
    }
}

/// The contents of `first`, then those of `rest`, are the contents of the two lists in one.
proof fn lemma_contents_concat(first: Seq<ItemView>, rest: Seq<ItemView>)
    ensures
        contents_of(first + rest) == contents_of(first) + contents_of(rest),
    decreases first.len(),
{
    if first.len() == 0 {
        assert(first + rest == rest);
    } else {
        assert((first + rest).skip(1) == first.skip(1) + rest);
        lemma_contents_concat(first.skip(1), rest);
    }
}

/// Every chapter that a file tree is summarized to has a file of that tree for its content.
pub proof fn lemma_tree_contents_listed(
    entries: Seq<EntryView>,
    number: Seq<char>,
    directory: Seq<char>,
)
    requires
        tree_chapters(entries, number, directory) is Ok,
    ensures
        contents_listed(as_items(tree_chapters(entries, number, directory)->Ok_0), entries),
    decreases entries, 2int,
{
    let items = as_items(tree_chapters(entries, number, directory)->Ok_0);
    if entries.len() == 0 {
        assert(items =~= Seq::<ItemView>::empty());
    } else {
        match entry_chapter(entries[0], number, directory) {
            Err(_) => {},
            Ok(None) => {
                lemma_tree_contents_listed(entries.skip(1), number, directory);
                assert forall|i: int| 0 <= i < contents_of(items).len() implies lists_file(
                    entries,
                    #[trigger] contents_of(items)[i],
                ) by {
                    lemma_listed_behind(entries, contents_of(items)[i]);
                }
            },
            Ok(Some(chapter)) => {
                let next = crate::util::next_number(number);
                let rest = as_items(tree_chapters(entries.skip(1), next, directory)->Ok_0);
                let first = seq![ItemView::Chapter(chapter)];
                lemma_tree_contents_listed(entries.skip(1), next, directory);
                lemma_entry_contents_listed(entries[0], number, directory);
                assert(items =~= first + rest);
                lemma_contents_concat(first, rest);
                assert(first.skip(1) =~= Seq::<ItemView>::empty());
                assert(contents_of(first.skip(1)) =~= Seq::<Seq<char>>::empty());
                assert(contents_of(first) =~= seq![chapter.content] + contents_of(
                    chapter.subchapters,
                ));
                assert forall|i: int| 0 <= i < contents_of(items).len() implies lists_file(
                    entries,
                    #[trigger] contents_of(items)[i],
                ) by {
                    let content = contents_of(items)[i];
                    if i < contents_of(first).len() {
                        assert(content == contents_of(first)[i]);
                        if i > 0 {
                            assert(content == contents_of(chapter.subchapters)[i - 1]);
                        }
                        lemma_listed_in_first(entries, content);
                    } else {
                        assert(content == contents_of(rest)[i - contents_of(first).len()]);
                        lemma_listed_behind(entries, content);
                    }
                }
            },
        }
    }
}

/// The chapter of an entry has the entry, or files below it, for its content and for the
/// contents of the chapters below it.
proof fn lemma_entry_contents_listed(entry: EntryView, number: Seq<char>, directory: Seq<char>)
    requires
        entry_chapter(entry, number, directory) matches Ok(Some(_)),
    ensures
        lists_file(seq![entry], entry_chapter(entry, number, directory)->Ok_0->Some_0.content),
        contents_listed(
            entry_chapter(entry, number, directory)->Ok_0->Some_0.subchapters,
            seq![entry],
        ),
    decreases entry, 1int,
{
    let chapter = entry_chapter(entry, number, directory)->Ok_0->Some_0;
    let alone = seq![entry];
    assert(alone[0] == entry);
    match entry {
        EntryView::File(path) => {
            assert(lists_file(alone, path));
            assert(contents_of(chapter.subchapters) =~= Seq::<Seq<char>>::empty());
        },
        EntryView::Directory(lower) => {
            let below = lower.listing->Ok_0;
            lemma_directory_contents_listed(lower, number);
            assert(lists_file(alone, chapter.content));
            assert forall|i: int| 0 <= i < contents_of(chapter.subchapters).len() implies lists_file(
                alone,
                #[trigger] contents_of(chapter.subchapters)[i],
            ) by {
                assert(lists_file(below, contents_of(chapter.subchapters)[i]));
            }
        },
    }
}

/// The chapter of a directory has files of the directory for its content and for the
/// contents of the chapters below it.
proof fn lemma_directory_contents_listed(directory: DirectoryView, number: Seq<char>)
    requires
        directory_chapter(directory, number) is Ok,
    ensures
        lists_file(directory.listing->Ok_0, directory_chapter(directory, number)->Ok_0.content),
        contents_listed(
            directory_chapter(directory, number)->Ok_0.subchapters,
            directory.listing->Ok_0,
        ),
    decreases directory, 0int,
{
    let entries = directory.listing->Ok_0;
    if first_content(entries, true, directory.path) is Some {
        lemma_first_content_listed(entries, true, directory.path);
    } else {
        lemma_first_content_listed(entries, false, directory.path);
    }
    lemma_tree_contents_listed(
        entries,
        super::file_tree_summarizer::first_below(number),
        directory.path,
    );
}

} // verus!
