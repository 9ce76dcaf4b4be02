use vstd::prelude::*;

verus! {

/// A heading that groups the chapters after it in the table of contents. It has no content
/// file, no number and no children.
#[derive(PartialEq, Debug)]
pub struct Section {
    pub title: String,
}

/// What a [`Section`] is in contracts.
pub struct SectionView {
    pub title: Seq<char>,
}

impl View for Section {
    type V = SectionView;

    open spec fn view(&self) -> SectionView {
        SectionView { title: self.title@ }
    }
}

impl Clone for Section {
    fn clone(&self) -> (copy: Self)
        ensures
            copy@ == self@,
    {
        Section { title: self.title.clone() }
    }
}

impl Section {
    pub fn new(title: &str) -> (section: Self)
        ensures
            section@ == (SectionView { title: title@ }),
    {
        Section { title: title.to_owned() }
    }
}

} // verus!
