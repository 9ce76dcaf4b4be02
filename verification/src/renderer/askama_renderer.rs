use super::RendererContext;
use crate::config::{copy_links, copy_texts, links_view, texts_view, ConfigView, Link, LinkView};
use crate::error::{Error, ErrorView};
use crate::paths::{
    file_name, path_file_name, path_strip_prefix, path_with_extension, strip_prefix,
    with_extension,
};
use crate::vault::content::{Chapter, ChapterView, Item, ItemView, Section, SectionView, items_view};
use vstd::prelude::*;

verus! {

/// What the header of a page shows.
#[derive(Debug, PartialEq)]
pub struct Header {
    pub links: Vec<Link>,
}

/// What the sidebar of a page shows: the vault's title, and the table of contents.
#[derive(Debug, PartialEq)]
pub struct Sidebar {
    pub title: String,
    pub table_of_contents: Vec<SidebarItem>,
}

/// One entry of the sidebar.
#[derive(Debug, PartialEq)]
pub enum SidebarItem {
    Chapter(SidebarChapter),
    Section(SidebarSection),
}

/// A chapter in the sidebar: its title as shown, the address of its page, and the chapters
/// below it.
#[derive(Debug, PartialEq)]
pub struct SidebarChapter {
    pub title: String,
    pub subchapters: Vec<SidebarItem>,
    pub target: String,
}

/// A section in the sidebar.
#[derive(Debug, PartialEq)]
pub struct SidebarSection {
    pub title: String,
}

/// Everything that the page of one chapter is laid out from.
#[derive(Debug, PartialEq)]
pub struct Page {
    /// The theme that the page starts with.
    pub theme: String,
    pub header: Header,
    pub sidebar: Sidebar,
    /// The chapter's markdown as HTML.
    pub content: String,
    /// The addresses of the vault's own style sheets in the output.
    pub custom_css: Vec<String>,
    pub themes: Vec<String>,
}

/// What a [`Header`] is in contracts.
#[verifier::ext_equal]
pub struct HeaderView {
    pub links: Seq<LinkView>,
}

/// What a [`Sidebar`] is in contracts.
#[verifier::ext_equal]
pub struct SidebarView {
    pub title: Seq<char>,
    pub table_of_contents: Seq<SidebarItemView>,
}

/// What a [`SidebarItem`] is in contracts.
#[verifier::ext_equal]
pub enum SidebarItemView {
    Chapter(SidebarChapterView),
    Section(SidebarSectionView),
}

/// What a [`SidebarChapter`] is in contracts.
#[verifier::ext_equal]
pub struct SidebarChapterView {
    pub title: Seq<char>,
    pub subchapters: Seq<SidebarItemView>,
    pub target: Seq<char>,
}

/// What a [`SidebarSection`] is in contracts.
#[verifier::ext_equal]
pub struct SidebarSectionView {
    pub title: Seq<char>,
}

/// What a [`Page`] is in contracts.
#[verifier::ext_equal]
pub struct PageView {
    pub theme: Seq<char>,
    pub header: HeaderView,
    pub sidebar: SidebarView,
    pub content: Seq<char>,
    pub custom_css: Seq<Seq<char>>,
    pub themes: Seq<Seq<char>>,
}

pub open spec fn sidebar_chapter_view(chapter: SidebarChapter) -> SidebarChapterView
    decreases chapter, 1int,
{
    SidebarChapterView {
        title: chapter.title@,
        subchapters: sidebar_items_view(chapter.subchapters@),
        target: chapter.target@,
    }
}

pub open spec fn sidebar_item_view(item: SidebarItem) -> SidebarItemView
    decreases item, 0int,
{
    match item {
        SidebarItem::Chapter(chapter) => SidebarItemView::Chapter(sidebar_chapter_view(chapter)),
        SidebarItem::Section(section) => SidebarItemView::Section(section@),
    }
}

/// The views of `items`, in order.
pub open spec fn sidebar_items_view(items: Seq<SidebarItem>) -> Seq<SidebarItemView>
    decreases items, 2int,
{
    Seq::new(
        items.len(),
        |i: int|
            if 0 <= i < items.len() {
                sidebar_item_view(items[i])
            } else {
                arbitrary()
            },
    )
}

impl View for SidebarSection {
    type V = SidebarSectionView;

    open spec fn view(&self) -> SidebarSectionView {
        SidebarSectionView { title: self.title@ }
    }
}

impl View for SidebarChapter {
    type V = SidebarChapterView;

    open spec fn view(&self) -> SidebarChapterView {
        sidebar_chapter_view(*self)
    }
}

impl View for SidebarItem {
    type V = SidebarItemView;

    open spec fn view(&self) -> SidebarItemView {
        sidebar_item_view(*self)
    }
}

impl View for Sidebar {
    type V = SidebarView;

    open spec fn view(&self) -> SidebarView {
        SidebarView {
            title: self.title@,
            table_of_contents: sidebar_items_view(self.table_of_contents@),
        }
    }
}

impl View for Header {
    type V = HeaderView;

    open spec fn view(&self) -> HeaderView {
        HeaderView { links: links_view(self.links@) }
    }
}

impl View for Page {
    type V = PageView;

    open spec fn view(&self) -> PageView {
        PageView {
            theme: self.theme@,
            header: self.header@,
            sidebar: self.sidebar@,
            content: self.content@,
            custom_css: texts_view(self.custom_css@),
            themes: texts_view(self.themes@),
        }
    }
}

/// The HTML that `pulldown_cmark` makes of a markdown text with no extension enabled.
pub uninterp spec fn markdown_html(markdown: Seq<char>) -> Seq<char>;

/// Parses `markdown` with `pulldown_cmark::Parser::new` and writes it out with
/// `pulldown_cmark::html::push_html` into an empty string. Believed, not proved: the HTML
/// depends on the markdown alone.
#[verifier::external_body]
fn markdown_to_html(markdown: &str) -> (html: String)
    ensures
        html@ == markdown_html(markdown@),
{
    let mut html = String::new();
    pulldown_cmark::html::push_html(&mut html, pulldown_cmark::Parser::new(markdown));
    html
}

/// The address of the page of the chapter whose content is `path`: the path from the source
/// directory to the content, with `html` for its extension, behind a slash. `None` where
/// the content does not lie under the source directory.
pub open spec fn chapter_target(path: Seq<char>, src_dir: Seq<char>) -> Option<Seq<char>> {
    match path_strip_prefix(path, src_dir) {
        Some(rest) => Some("/"@ + path_with_extension(rest, "html"@)),
        None => None,
    }
}

/// The title under which the sidebar shows a chapter: behind its number where chapters are
/// enumerated, else bare.
pub open spec fn sidebar_title(chapter: ChapterView, enumerate: bool) -> Seq<char> {
    if enumerate {
        chapter.number + " "@ + chapter.title
    } else {
        chapter.title
    }
}

/// A chapter as the sidebar shows it, with the chapters below it; or the first chapter, from
/// the lowest up, whose content does not lie under the source directory.
pub open spec fn sidebar_chapter(chapter: ChapterView, enumerate: bool, src_dir: Seq<char>)
    -> Result<SidebarChapterView, ErrorView>
    decreases chapter, 0int,
{
    match sidebar_items(chapter.subchapters, enumerate, src_dir) {
        Err(error) => Err(error),
        Ok(subchapters) => match chapter_target(chapter.content, src_dir) {
            None => Err(ErrorView::InvalidChapterPath { path: chapter.content }),
            Some(target) => Ok(
                SidebarChapterView {
                    title: sidebar_title(chapter, enumerate),
                    subchapters,
                    target,
                },
            ),
        },
    }
}

/// The entries of the sidebar for `items`, in order; or the first failure.
pub open spec fn sidebar_items(items: Seq<ItemView>, enumerate: bool, src_dir: Seq<char>)
    -> Result<Seq<SidebarItemView>, ErrorView>
    decreases items, 1int,
{
    if items.len() == 0 {
        Ok(Seq::empty())
    } else {
        let first = match items[0] {
            ItemView::Section(section) => Ok(
                SidebarItemView::Section(SidebarSectionView { title: section.title }),
            ),
            ItemView::Chapter(chapter) => match sidebar_chapter(chapter, enumerate, src_dir) {
                Ok(chapter) => Ok(SidebarItemView::Chapter(chapter)),
                Err(error) => Err(error),
            },
        };
        match first {
            Err(error) => Err(error),
            Ok(first) => match sidebar_items(items.skip(1), enumerate, src_dir) {
                Err(error) => Err(error),
                Ok(rest) => Ok(seq![first] + rest),
            },
        }
    }
}

/// The sidebar of every page of a vault.
pub open spec fn sidebar_of(content: Seq<ItemView>, config: ConfigView, src_dir: Seq<char>)
    -> Result<SidebarView, ErrorView> {
    match sidebar_items(content, config.general.enumerate, src_dir) {
        Err(error) => Err(error),
        Ok(table_of_contents) => Ok(
            SidebarView { title: config.general.title, table_of_contents },
        ),
    }
}

/// The addresses of the vault's own style sheets in the output: each is the sheet's file
/// name behind a slash, whatever directory the sheet lies in. Where a sheet has no file
/// name, the first such sheet is the error.
pub open spec fn style_links(custom: Seq<Seq<char>>) -> Result<Seq<Seq<char>>, Seq<char>>
    decreases custom.len(),
{
    if custom.len() == 0 {
        Ok(Seq::empty())
    } else {
        match style_links(custom.drop_last()) {
            Err(sheet) => Err(sheet),
            Ok(links) => match path_file_name(custom.last()) {
                None => Err(custom.last()),
                Some(name) => Ok(links.push("/"@ + name)),
            },
        }
    }
}

/// What the page of `chapter` is laid out from, where `markdown` is the text of its content
/// or the reason why that could not be read.
pub open spec fn page_of(
    content: Seq<ItemView>,
    config: ConfigView,
    src_dir: Seq<char>,
    chapter: ChapterView,
    markdown: Result<Seq<char>, Seq<char>>,
) -> Result<PageView, ErrorView> {
    match sidebar_of(content, config, src_dir) {
        Err(error) => Err(error),
        Ok(sidebar) => match style_links(config.appearance.custom) {
            Err(sheet) => Err(
                ErrorView::RenderFailed {
                    path: chapter.content,
                    cause: "Failed to extract the file name from "@ + sheet,
                },
            ),
            Ok(custom_css) => match markdown {
                Err(cause) => Err(ErrorView::RenderFailed { path: chapter.content, cause }),
                Ok(text) => Ok(
                    PageView {
                        theme: config.appearance.default_theme,
                        header: HeaderView { links: config.links },
                        sidebar,
                        content: markdown_html(text),
                        custom_css,
                        themes: config.appearance.themes,
                    },
                ),
            },
        },
    }
}

/// Works out what each page of a vault is laid out from.
#[derive(Debug)]
pub struct AskamaRenderer {
    pub context: RendererContext,
}

impl AskamaRenderer {
    pub fn new(context: RendererContext) -> (renderer: Self)
        ensures
            renderer.context == context,
    {
        Self { context }
    }

    /// The header: the links of the vault's options.
    pub fn render_header(&self) -> (header: Header)
        ensures
            header@ == (HeaderView { links: self.context.config@.links }),
    {
        Header { links: copy_links(&self.context.config.links) }
    }

    /// The sidebar: the vault's title, and each item of the table of contents in order.
    pub fn render_sidebar(&self) -> (sidebar: Result<Sidebar, Error>)
        ensures
            match sidebar_of(self.context.content@, self.context.config@, self.context.src_dir@) {
                Ok(wanted) => sidebar matches Ok(found) && found@ == wanted,
                Err(error) => sidebar matches Err(found) && found@ == error,
            },
    {
        let table_of_contents = sidebar_entries(
            &self.context.content.summary.items,
            self.context.config.general.enumerate,
            self.context.src_dir.as_str(),
        )?;
        Ok(Sidebar { title: self.context.config.general.title.clone(), table_of_contents })
    }

    /// One chapter of the sidebar, with the chapters below it.
    pub fn render_sidebar_chapter(&self, chapter: &Chapter) -> (entry: Result<
        SidebarChapter,
        Error,
    >)
        ensures
            match sidebar_chapter(
                chapter@,
                self.context.config.general.enumerate,
                self.context.src_dir@,
            ) {
                Ok(wanted) => entry matches Ok(found) && found@ == wanted,
                Err(error) => entry matches Err(found) && found@ == error,
            },
    {
        sidebar_entry(
            chapter,
            self.context.config.general.enumerate,
            self.context.src_dir.as_str(),
        )
    }

    /// The address of the page of the chapter whose content is `path`.
    pub fn get_chapter_target(&self, path: &str) -> (target: Result<String, Error>)
        ensures
            match chapter_target(path@, self.context.src_dir@) {
                Some(wanted) => target matches Ok(found) && found@ == wanted,
                None => target matches Err(error) && error@ == (ErrorView::InvalidChapterPath {
                    path: path@,
                }),
            },
    {
        target_of(path, self.context.src_dir.as_str())
    }

    /// One section of the sidebar.
    pub fn render_sidebar_section(&self, section: &Section) -> (entry: SidebarSection)
        ensures
            entry@ == (SidebarSectionView { title: section@.title }),
    {
        SidebarSection { title: section.title.clone() }
    }

    /// What the page of `chapter` is laid out from. `markdown` is the text of the chapter's
    /// content, or the reason why it could not be read.
    pub fn render(&self, chapter: &Chapter, markdown: Result<String, String>) -> (page: Result<
        Page,
        Error,
    >)
        ensures
            match page_of(
                self.context.content@,
                self.context.config@,
                self.context.src_dir@,
                chapter@,
                match markdown {
                    Ok(text) => Ok(text@),
                    Err(cause) => Err(cause@),
                },
            ) {
                Ok(wanted) => page matches Ok(found) && found@ == wanted,
                Err(error) => page matches Err(found) && found@ == error,
            },
    {
        let header = self.render_header();
        let sidebar = self.render_sidebar()?;
        let custom_css = match links_to(&self.context.config.appearance.custom) {
            Ok(links) => links,
            Err(sheet) => {
                return Err(
                    Error::RenderFailed {
                        path: chapter.content.clone(),
                        cause: String::from_str("Failed to extract the file name from ").concat(
                            sheet.as_str(),
                        ),
                    },
                );
            },
        };
        let markdown = match markdown {
            Ok(text) => text,
            Err(cause) => {
                return Err(Error::RenderFailed { path: chapter.content.clone(), cause });
            },
        };
        Ok(
            Page {
                theme: self.context.config.appearance.default_theme.clone(),
                header,
                sidebar,
                content: markdown_to_html(markdown.as_str()),
                custom_css,
                themes: copy_texts(&self.context.config.appearance.themes),
            },
        )
    }
}

/// What a result of rendering is in contracts.
pub open spec fn page_result(page: Result<Page, Error>) -> Result<PageView, ErrorView> {
    match page {
        Ok(page) => Ok(page@),
        Err(error) => Err(error@),
    }
}

/// Rendering a chapter twice, from the same content, options, source directory and
/// markdown, gives the same page, or the same failure.
pub proof fn lemma_render_twice(
    renderer: &AskamaRenderer,
    chapter: &Chapter,
    markdown: Result<String, String>,
    first: Result<Page, Error>,
    second: Result<Page, Error>,
)
    requires
        call_ensures(AskamaRenderer::render, (renderer, chapter, markdown), first),
        call_ensures(AskamaRenderer::render, (renderer, chapter, markdown), second),
    ensures
        page_result(first) == page_result(second),
{
}

fn target_of(path: &str, src_dir: &str) -> (target: Result<String, Error>)
    ensures
        match chapter_target(path@, src_dir@) {
            Some(wanted) => target matches Ok(found) && found@ == wanted,
            None => target matches Err(error) && error@ == (ErrorView::InvalidChapterPath {
                path: path@,
            }),
        },
{
    match strip_prefix(path, src_dir) {
        Ok(rest) => {
            proof {
                reveal_strlit("html");
            }
            let page = with_extension(rest.as_str(), "html");
            Ok(String::from_str("/").concat(page.as_str()))
        },
        Err(_) => Err(Error::InvalidChapterPath { path: path.to_owned() }),
    }
}

fn sidebar_entry(chapter: &Chapter, enumerate: bool, src_dir: &str) -> (entry: Result<
    SidebarChapter,
    Error,
>)
    ensures
        match sidebar_chapter(chapter@, enumerate, src_dir@) {
            Ok(wanted) => entry matches Ok(found) && found@ == wanted,
            Err(error) => entry matches Err(found) && found@ == error,
        },
    decreases chapter,
{
    let subchapters = sidebar_entries(&chapter.subchapters, enumerate, src_dir)?;
    let target = target_of(chapter.content.as_str(), src_dir)?;
    let title = if enumerate {
        chapter.number.clone().concat(" ").concat(chapter.title.as_str())
    } else {
        chapter.title.clone()
    };
    Ok(SidebarChapter { title, subchapters, target })
}

fn sidebar_entries(items: &Vec<Item>, enumerate: bool, src_dir: &str) -> (entries: Result<
    Vec<SidebarItem>,
    Error,
>)
    ensures
        match sidebar_items(items_view(items@), enumerate, src_dir@) {
            Ok(wanted) => entries matches Ok(found) && sidebar_items_view(found@) == wanted,
            Err(error) => entries matches Err(found) && found@ == error,
        },
    decreases items,
{
    let ghost all = items_view(items@);
    let mut entries: Vec<SidebarItem> = Vec::new();
    let mut i: usize = 0;
    assert(all.skip(0) == all);
    while i < items.len()
        invariant
            i <= items.len(),
            all == items_view(items@),
            sidebar_items(all, enumerate, src_dir@) == (match sidebar_items(
                all.skip(i as int),
                enumerate,
                src_dir@,
            ) {
                Ok(rest) => Ok(sidebar_items_view(entries@) + rest),
                Err(error) => Err(error),
            }),
        decreases items.len() - i,
    {
        let ghost later = all.skip(i as int);
        assert(later.skip(1) == all.skip(i + 1));
        let entry = match &items[i] {
            Item::Section(section) => SidebarItem::Section(
                SidebarSection { title: section.title.clone() },
            ),
            Item::Chapter(chapter) => SidebarItem::Chapter(
                sidebar_entry(chapter, enumerate, src_dir)?,
            ),
        };
        let ghost before = entries@;
        entries.push(entry);
        proof {
            if let Ok(rest) = sidebar_items(later.skip(1), enumerate, src_dir@) {
                assert(sidebar_items_view(before) + (seq![entry@] + rest) =~= sidebar_items_view(
                    entries@,
                ) + rest);
            }
        }
        i += 1;
    }
    Ok(entries)
}

fn links_to(custom: &Vec<String>) -> (links: Result<Vec<String>, String>)
    ensures
        match style_links(texts_view(custom@)) {
            Ok(wanted) => links matches Ok(found) && texts_view(found@) == wanted,
            Err(sheet) => links matches Err(found) && found@ == sheet,
        },
{
    let ghost all = texts_view(custom@);
    let mut links: Vec<String> = Vec::new();
    let mut i: usize = 0;
    assert(texts_view(links@) =~= Seq::<Seq<char>>::empty());
    while i < custom.len()
        invariant
            i <= custom.len(),
            all == texts_view(custom@),
            style_links(all.take(i as int)) == Ok::<Seq<Seq<char>>, Seq<char>>(
                texts_view(links@),
            ),
        decreases custom.len() - i,
    {
        assert(all.take(i + 1).drop_last() == all.take(i as int));
        match file_name(custom[i].as_str()) {
            Some(name) => {
                let ghost before = links@;
                links.push(String::from_str("/").concat(name.as_str()));
                assert(texts_view(links@) =~= texts_view(before).push("/"@ + name@));
            },
            None => {
                proof {
                    lemma_style_links_fail(all, i as int);
                }
                return Err(custom[i].clone());
            },
        }
        i += 1;
    }
    assert(all.take(custom.len() as int) == all);
    Ok(links)
}

/// Where the sheets before the `i`-th have file names and the `i`-th has none, the `i`-th is
/// the error of the whole list.
pub proof fn lemma_style_links_fail(custom: Seq<Seq<char>>, i: int)
    requires
        0 <= i < custom.len(),
        style_links(custom.take(i)) is Ok,
        path_file_name(custom[i]) is None,
    ensures
        style_links(custom) == Err::<Seq<Seq<char>>, Seq<char>>(custom[i]),
    decreases custom.len(),
{
    if i == custom.len() - 1 {
        assert(custom.drop_last() == custom.take(i));
    } else {
        assert(custom.drop_last().take(i) == custom.take(i));
        lemma_style_links_fail(custom.drop_last(), i);
    }
}

} // verus!
