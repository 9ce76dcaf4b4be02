use super::{items_view, Item, ItemView};
use vstd::prelude::*;

verus! {

/// A navigable node of the table of contents, backed by one markdown file.
#[derive(PartialEq, Debug)]
pub struct Chapter {
    pub title: String,
    /// Empty for a chapter that is not numbered, else a dotted number such as `1.2.3`.
    pub number: String,
    /// The path of the markdown file.
    pub content: String,
    /// The chapters below this one, in the order of the sidebar.
    pub subchapters: Vec<Item>,
}

/// What a [`Chapter`] is in contracts.
pub struct ChapterView {
    pub title: Seq<char>,
    pub number: Seq<char>,
    pub content: Seq<char>,
    pub subchapters: Seq<ItemView>,
}

impl View for Chapter {
    type V = ChapterView;

    open spec fn view(&self) -> ChapterView {
        super::chapter_view(*self)
    }
}

/// The views of `chapters`, in order.
pub open spec fn chapters_view(chapters: Seq<Chapter>) -> Seq<ChapterView> {
    Seq::new(chapters.len(), |i: int| chapters[i]@)
}

/// Each chapter as an item.
pub open spec fn as_items(chapters: Seq<ChapterView>) -> Seq<ItemView> {
    Seq::new(chapters.len(), |i: int| ItemView::Chapter(chapters[i]))
}

impl Clone for Chapter {
    fn clone(&self) -> (copy: Self)
        ensures
            copy@ == self@,
    {
        super::copy_chapter(self)
    }
}

impl Chapter {
    pub fn new(title: &str, number: &str, content: &str, subchapters: Vec<Item>) -> (chapter: Self)
        ensures
            chapter@ == (ChapterView {
                title: title@,
                number: number@,
                content: content@,
                subchapters: items_view(subchapters@),
            }),
    {
        Chapter {
            title: title.to_owned(),
            number: number.to_owned(),
            content: content.to_owned(),
            subchapters,
        }
    }
}

} // verus!
