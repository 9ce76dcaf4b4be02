pub mod file_tree_summarizer;
pub mod listed;
pub mod numbers;
pub mod summary_file;

use crate::error::Error;
use crate::vault::content::{items_view, Item, ItemView};
pub use file_tree_summarizer::{Directory, Entry, FileTreeSummarizer};
pub use summary_file::{Bullet, Line, SummaryFileSummarizer};
use vstd::prelude::*;

verus! {

/// A way to make a table of contents.
pub trait Summarizer {
    fn summarize(&self) -> Result<Summary, Error>;
}

/// A table of contents: the items of a vault, in the order of the sidebar.
#[derive(PartialEq, Debug)]
pub struct Summary {
    pub items: Vec<Item>,
}

impl View for Summary {
    type V = Seq<ItemView>;

    open spec fn view(&self) -> Seq<ItemView> {
        items_view(self.items@)
    }
}

impl Summary {
    pub fn new(items: Vec<Item>) -> (summary: Summary)
        ensures
            summary.items == items,
    {
        Summary { items }
    }
}

} // verus!
