pub mod content;

use crate::config::{default_config, texts_view, Config, ConfigView, GeneralView};
use crate::error::{Error, ErrorView};
use crate::paths::{
    file_name, file_stem, join, parent, path_file_name, path_file_stem, path_join, path_parent,
};
use crate::renderer::askama_renderer::{lemma_style_links_fail, style_links};
use crate::renderer::Renderer;
use content::{items_view, Chapter, ChapterView, Content, Item, ItemView};
use vstd::prelude::*;

verus! {

/// The name of a vault's configuration file.
pub const CONFIG_FILE: &'static str = "cahlter.yml";

/// The name under which the default style sheet is written to the build directory.
pub const DEFAULT_STYLE: &'static str = "main.css";

/// A site project: a directory that holds the markdown and the options.
pub struct Vault {
    pub config: Config,
    pub path: String,
}

/// One step of writing a site out. A build is a list of these, carried out in order; the
/// first that fails ends the build.
#[derive(Debug, PartialEq)]
pub enum Action {
    /// Create the directory `path` and those above it, as far as they are missing. A
    /// directory that exists is left as it is.
    CreateDir { path: String },
    /// Write the vault's options to the file `path`.
    WriteConfig { path: String },
    /// Write `contents` to the file `path`.
    WriteFile { path: String, contents: String },
    /// Write the default style sheet and script to the file `path`.
    WriteDefaults { path: String },
    /// Copy the file `from` to `to`.
    CopyFile { from: String, to: String },
}

/// What an [`Action`] touches, whatever it writes there.
#[verifier::ext_equal]
pub enum Target {
    Dir(Seq<char>),
    Config(Seq<char>),
    Page(Seq<char>),
    Defaults(Seq<char>),
    Copy { from: Seq<char>, to: Seq<char> },
}

pub open spec fn action_target(action: Action) -> Target {
    match action {
        Action::CreateDir { path } => Target::Dir(path@),
        Action::WriteConfig { path } => Target::Config(path@),
        Action::WriteFile { path, contents } => Target::Page(path@),
        Action::WriteDefaults { path } => Target::Defaults(path@),
        Action::CopyFile { from, to } => Target::Copy { from: from@, to: to@ },
    }
}

/// What a step writes: the path that names it where it fails.
pub open spec fn action_path(action: Action) -> Seq<char> {
    match action {
        Action::CreateDir { path } => path@,
        Action::WriteConfig { path } => path@,
        Action::WriteFile { path, contents } => path@,
        Action::WriteDefaults { path } => path@,
        Action::CopyFile { from, to } => to@,
    }
}

impl Action {
    /// The failure that ends the build where this step could not be carried out: it names
    /// what the step was to write, and gives the cause.
    pub fn failed(&self, cause: String) -> (error: Error)
        ensures
            error@ == (ErrorView::WriteFailed { path: action_path(*self), cause: cause@ }),
    {
        let path = match self {
            Action::CreateDir { path } => path.clone(),
            Action::WriteConfig { path } => path.clone(),
            Action::WriteFile { path, .. } => path.clone(),
            Action::WriteDefaults { path } => path.clone(),
            Action::CopyFile { to, .. } => to.clone(),
        };
        Error::WriteFailed { path, cause }
    }
}

/// The targets of `actions`, in order.
pub open spec fn targets_of(actions: Seq<Action>) -> Seq<Target> {
    Seq::new(actions.len(), |i: int| action_target(actions[i]))
}

/// The name of the page of a chapter: that of its content, with `html` for the extension.
pub open spec fn page_name(content: Seq<char>) -> Option<Seq<char>> {
    match path_file_stem(content) {
        Some(stem) => Some(stem + ".html"@),
        None => None,
    }
}

/// The name of the directory that a chapter with subchapters opens in the output: that of
/// the directory which holds its content, without an extension.
pub open spec fn chapter_directory(content: Seq<char>) -> Option<Seq<char>> {
    match path_parent(content) {
        Some(parent) => path_file_stem(parent),
        None => None,
    }
}

/// What writing a chapter into `destination` touches, in order. A chapter without
/// subchapters is one page there. A chapter with subchapters opens a directory below
/// `destination`, and its page and everything below it go there. `None` where the content
/// of some chapter has no name to go by.
pub open spec fn chapter_targets(chapter: ChapterView, destination: Seq<char>) -> Option<
    Seq<Target>,
>
    decreases chapter, 0int,
{
    match page_name(chapter.content) {
        None => None,
        Some(name) => if chapter.subchapters.len() == 0 {
            Some(seq![Target::Page(path_join(destination, name))])
        } else {
            match chapter_directory(chapter.content) {
                None => None,
                Some(directory) => {
                    let below = path_join(destination, directory);
                    match items_targets(chapter.subchapters, below) {
                        None => None,
                        Some(rest) => Some(
                            seq![Target::Dir(below), Target::Page(path_join(below, name))] + rest,
                        ),
                    }
                },
            }
        },
    }
}

/// What writing the chapters among `items` into `destination` touches, in order. A section
/// is nothing to write.
pub open spec fn items_targets(items: Seq<ItemView>, destination: Seq<char>) -> Option<
    Seq<Target>,
>
    decreases items, 1int,
{
    if items.len() == 0 {
        Some(Seq::empty())
    } else {
        match items[0] {
            ItemView::Section(_) => items_targets(items.skip(1), destination),
            ItemView::Chapter(chapter) => match chapter_targets(chapter, destination) {
                None => None,
                Some(first) => match items_targets(items.skip(1), destination) {
                    None => None,
                    Some(rest) => Some(first + rest),
                },
            },
        }
    }
}

/// `contents` is what `renderer` made of `chapter`.
pub open spec fn renders<R: Renderer>(renderer: &R, chapter: Chapter, contents: String) -> bool {
    call_ensures(R::render, (renderer, &chapter), Ok::<String, Error>(contents))
}

/// `renderer` failed on `chapter` with `error`.
pub open spec fn fails<R: Renderer>(renderer: &R, chapter: Chapter, error: Error) -> bool {
    call_ensures(R::render, (renderer, &chapter), Err::<String, Error>(error))
}

/// The chapter that each step of writing `chapter` out is the page of, in the order of
/// [`chapter_targets`]; `None` for a step that opens a directory.
pub open spec fn chapter_sources(chapter: Chapter) -> Seq<Option<Chapter>>
    decreases chapter, 0int,
{
    if chapter.subchapters@.len() == 0 {
        seq![Some(chapter)]
    } else {
        seq![None, Some(chapter)] + items_sources(chapter.subchapters@)
    }
}

/// The same for the chapters among `items`.
pub open spec fn items_sources(items: Seq<Item>) -> Seq<Option<Chapter>>
    decreases items, 1int,
{
    if items.len() == 0 {
        Seq::empty()
    } else {
        match items[0] {
            Item::Section(_) => items_sources(items.skip(1)),
            Item::Chapter(chapter) => chapter_sources(chapter) + items_sources(items.skip(1)),
        }
    }
}

/// Each step that is the page of a chapter writes what `renderer` made of that chapter.
pub open spec fn pages_rendered<R: Renderer>(
    renderer: &R,
    sources: Seq<Option<Chapter>>,
    actions: Seq<Action>,
) -> bool {
    &&& actions.len() == sources.len()
    &&& forall|i: int|
        0 <= i < sources.len() ==> match #[trigger] sources[i] {
            Some(chapter) => actions[i] matches Action::WriteFile { path, contents } && renders(
                renderer,
                chapter,
                contents,
            ),
            None => actions[i] is CreateDir,
        }
}

/// The content of `chapter` has no name by which its page, or the directory that it opens,
/// could be named.
pub open spec fn unnamed(chapter: Chapter) -> bool {
    page_name(chapter.content@) is None || (chapter.subchapters@.len() > 0 && chapter_directory(
        chapter.content@,
    ) is None)
}

/// `error` is why `chapter` itself could not be written: its content has no name, or
/// `renderer` failed on it.
pub open spec fn chapter_failure<R: Renderer>(renderer: &R, chapter: Chapter, error: Error)
    -> bool {
    ||| unnamed(chapter) && error@ == (ErrorView::InvalidChapterPath { path: chapter.content@ })
    ||| fails(renderer, chapter, error)
}

/// `renderer` can make a page of `chapter`.
pub open spec fn can_render<R: Renderer>(renderer: &R, chapter: Chapter) -> bool {
    exists|contents: String| renders(renderer, chapter, contents)
}

/// `error` is why the chapter at `at` among `sources` could not be written, and the
/// chapters before it were rendered.
pub open spec fn first_failure<R: Renderer>(
    renderer: &R,
    sources: Seq<Option<Chapter>>,
    at: int,
    error: Error,
) -> bool {
    &&& 0 <= at < sources.len()
    &&& sources[at] matches Some(chapter) && chapter_failure(renderer, chapter, error)
    &&& forall|j: int|
        0 <= j < at ==> (#[trigger] sources[j] matches Some(earlier) ==> can_render(
            renderer,
            earlier,
        ))
}

/// `error` is why the first of `sources` that could not be written could not be.
pub open spec fn fails_first<R: Renderer>(
    renderer: &R,
    sources: Seq<Option<Chapter>>,
    error: Error,
) -> bool {
    exists|at: int| first_failure(renderer, sources, at, error)
}

/// The copies that bring the vault's own style sheets into the build directory: each goes
/// there under its file name, whatever directory it lies in. `None` where a sheet has no
/// file name.
pub open spec fn style_copies(custom: Seq<Seq<char>>, vault: Seq<char>, build: Seq<char>)
    -> Option<Seq<Target>>
    decreases custom.len(),
{
    if custom.len() == 0 {
        Some(Seq::empty())
    } else {
        match style_copies(custom.drop_last(), vault, build) {
            None => None,
            Some(copies) => match path_file_name(custom.last()) {
                None => None,
                Some(name) => Some(
                    copies.push(
                        Target::Copy {
                            from: path_join(vault, custom.last()),
                            to: path_join(build, name),
                        },
                    ),
                ),
            },
        }
    }
}

/// Where the default style sheet and script go, if the vault uses them.
pub open spec fn default_targets(use_default: bool, build: Seq<char>) -> Seq<Target> {
    if use_default {
        seq![Target::Defaults(path_join(build, DEFAULT_STYLE@))]
    } else {
        Seq::empty()
    }
}

/// What building a vault touches, in order: the pages of its chapters, the defaults, the
/// vault's own style sheets.
pub open spec fn build_targets(content: Seq<ItemView>, config: ConfigView, path: Seq<char>)
    -> Option<Seq<Target>> {
    let build = path_join(path, config.general.build_dir);
    match items_targets(content, build) {
        None => None,
        Some(pages) => match style_copies(config.appearance.custom, path, build) {
            None => None,
            Some(copies) => Some(
                pages + default_targets(config.general.use_default, build) + copies,
            ),
        },
    }
}

/// The cause that a failure gives where a style sheet has no file name.
pub open spec fn no_file_name() -> Seq<char> {
    "the path has no file name"@
}

/// The cause that a failure gives where the vault at `path` has been set up before.
pub open spec fn already_set_up(path: Seq<char>) -> Seq<char> {
    "calhter.yml already exists at "@ + path
}

/// What setting a vault up touches, in order: its directory, the two directories in it, and
/// the file of its options.
pub open spec fn init_targets(config: ConfigView, path: Seq<char>) -> Seq<Target> {
    seq![
        Target::Dir(path),
        Target::Dir(path_join(path, config.general.src_dir)),
        Target::Dir(path_join(path, config.general.build_dir)),
        Target::Config(path_join(path, CONFIG_FILE@)),
    ]
}

/// What one rendered chapter comes to: the step that writes its page to `path`, or the
/// failure that the renderer reported.
pub fn page_action(path: String, rendered: Result<String, Error>) -> (action: Result<
    Action,
    Error,
>)
    ensures
        match rendered {
            Ok(contents) => action == Ok::<Action, Error>(Action::WriteFile { path, contents }),
            Err(error) => action == Err::<Action, Error>(error),
        },
{
    match rendered {
        Ok(contents) => Ok(Action::WriteFile { path, contents }),
        Err(error) => Err(error),
    }
}

impl Vault {
    /// A vault at `path` with the options that a new vault starts with.
    pub fn new(path: &str) -> (vault: Vault)
        ensures
            vault.path@ == path@,
            vault.config@ == default_config(),
    {
        Vault { config: Config::default(), path: path.to_owned() }
    }

    /// A vault at `path` with the options that were read from its file.
    pub fn from_disk(path: &str, config: Config) -> (vault: Vault)
        ensures
            vault.path@ == path@,
            vault.config == config,
    {
        Vault { config, path: path.to_owned() }
    }

    /// Where the vault's options are kept. A vault has been set up if this file exists.
    pub fn config_file(&self) -> (file: String)
        ensures
            file@ == path_join(self.path@, CONFIG_FILE@),
    {
        join(self.path.as_str(), CONFIG_FILE)
    }

    /// Sets a new vault up: names it after its directory, and gives the steps that create
    /// its directories and write its options. `initialized` says whether the file of its
    /// options exists; a vault is set up only once, and a vault whose path has no last
    /// name cannot be set up. Where it fails the vault stays as it was.
    pub fn init(&mut self, initialized: bool) -> (steps: Result<Vec<Action>, Error>)
        ensures
            final(self).path == old(self).path,
            initialized ==> {
                &&& *final(self) == *old(self)
                &&& steps matches Err(error) && error@ == (ErrorView::WriteFailed {
                    path: path_join(old(self).path@, CONFIG_FILE@),
                    cause: already_set_up(old(self).path@),
                })
            },
            !initialized ==> match path_file_name(old(self).path@) {
                None => {
                    &&& *final(self) == *old(self)
                    &&& steps matches Err(error) && error@ == (ErrorView::WriteFailed {
                        path: old(self).path@,
                        cause: no_file_name(),
                    })
                },
                Some(name) => {
                    &&& steps matches Ok(actions) && targets_of(actions@) == init_targets(
                        old(self).config@,
                        old(self).path@,
                    )
                    &&& final(self).config@ == (ConfigView {
                        general: GeneralView { title: name, ..old(self).config@.general },
                        ..old(self).config@
                    })
                },
            },
    {
        if initialized {
            return Err(
                Error::WriteFailed {
                    path: self.config_file(),
                    cause: String::from_str("calhter.yml already exists at ").concat(
                        self.path.as_str(),
                    ),
                },
            );
        }
        let name = match file_name(self.path.as_str()) {
            Some(name) => name,
            None => {
                return Err(
                    Error::WriteFailed {
                        path: self.path.clone(),
                        cause: String::from_str("the path has no file name"),
                    },
                );
            },
        };
        let mut actions: Vec<Action> = Vec::new();
        actions.push(Action::CreateDir { path: self.path.clone() });
        actions.push(Action::CreateDir { path: self.src_dir() });
        actions.push(Action::CreateDir { path: self.build_dir() });
        actions.push(Action::WriteConfig { path: self.config_file() });
        self.config.general.title = name;
        Ok(actions)
    }

    /// The steps that write the whole site out: the page of every chapter, as
    /// [`Vault::write_chapter`] lays them out below the build directory; then the default
    /// style sheet and script, where the vault uses them; then a copy of each of the
    /// vault's own style sheets.
    pub fn build<R: Renderer>(&self, content: &Content, renderer: &R) -> (steps: Result<
        Vec<Action>,
        Error,
    >)
        ensures
            match steps {
                Ok(actions) => {
                    &&& build_targets(content@, self.config@, self.path@) == Some(
                        targets_of(actions@),
                    )
                    &&& pages_rendered(
                        renderer,
                        items_sources(content.summary.items@),
                        actions@.take(items_sources(content.summary.items@).len() as int),
                    )
                },
                Err(error) => {
                    ||| fails_first(renderer, items_sources(content.summary.items@), error)
                    ||| style_links(texts_view(self.config.appearance.custom@)) matches Err(sheet)
                        && error@ == (ErrorView::WriteFailed {
                        path: sheet,
                        cause: no_file_name(),
                    })
                },
            },
    {
        let build = self.build_dir();
        let mut actions = write_items_into(&content.summary.items, renderer, build.as_str())?;
        let ghost pages = actions@;
        if self.config.general.use_default {
            actions.push(Action::WriteDefaults { path: join(build.as_str(), DEFAULT_STYLE) });
        }
        let ghost written = actions@;
        assert(targets_of(written) =~= targets_of(pages) + default_targets(
            self.config.general.use_default,
            build@,
        ));
        let custom = &self.config.appearance.custom;
        let ghost all = texts_view(custom@);
        let mut i: usize = 0;
        while i < custom.len()
            invariant
                i <= custom.len(),
                *custom == self.config.appearance.custom,
                all == texts_view(custom@),
                written.len() <= actions.len(),
                actions@.take(written.len() as int) == written,
                style_copies(all.take(i as int), self.path@, build@) == Some(
                    targets_of(actions@.skip(written.len() as int)),
                ),
                style_links(all.take(i as int)) is Ok,
            decreases custom.len() - i,
        {
            assert(all.take(i + 1).drop_last() == all.take(i as int));
            let name = match file_name(custom[i].as_str()) {
                Some(name) => name,
                None => {
                    proof {
                        lemma_style_links_fail(all, i as int);
                    }
                    return Err(
                        Error::WriteFailed {
                            path: custom[i].clone(),
                            cause: String::from_str("the path has no file name"),
                        },
                    );
                },
            };
            let copy = Action::CopyFile {
                from: join(self.path.as_str(), custom[i].as_str()),
                to: join(build.as_str(), name.as_str()),
            };
            actions.push(copy);
            i += 1;
        }
        assert(all.take(custom.len() as int) == all);
        Ok(actions)
    }

    /// Where the markdown lies.
    pub fn src_dir(&self) -> (directory: String)
        ensures
            directory@ == path_join(self.path@, self.config.general.src_dir@),
    {
        join(self.path.as_str(), self.config.general.src_dir.as_str())
    }

    /// Where the site is written.
    pub fn build_dir(&self) -> (directory: String)
        ensures
            directory@ == path_join(self.path@, self.config.general.build_dir@),
    {
        join(self.path.as_str(), self.config.general.build_dir.as_str())
    }

    /// The steps that write one chapter, and everything below it, into `destination`.
    ///
    /// A chapter without subchapters is one page in `destination`. A chapter with
    /// subchapters opens a directory there, named after the directory that holds its
    /// content, and its page and the chapters below it go into that directory. Each page
    /// is what `renderer` makes of its chapter. The first chapter that cannot be written
    /// ends the walk, and its error is the result.
    pub fn write_chapter<R: Renderer>(
        &self,
        chapter: &Chapter,
        renderer: &R,
        destination: &str,
    ) -> (steps: Result<Vec<Action>, Error>)
        ensures
            match steps {
                Ok(actions) => {
                    &&& chapter_targets(chapter@, destination@) == Some(targets_of(actions@))
                    &&& pages_rendered(renderer, chapter_sources(*chapter), actions@)
                },
                Err(error) => fails_first(renderer, chapter_sources(*chapter), error),
            },
    {
        write_chapter_into(chapter, renderer, destination)
    }
}

/// How many chapters `chapter` and everything below it come to.
pub open spec fn chapter_count(chapter: ChapterView) -> nat
    decreases chapter, 0int,
{
    1 + items_chapter_count(chapter.subchapters)
}

/// How many chapters there are among `items` and below them.
pub open spec fn items_chapter_count(items: Seq<ItemView>) -> nat
    decreases items, 1int,
{
    if items.len() == 0 {
        0
    } else {
        (match items[0] {
            ItemView::Chapter(chapter) => chapter_count(chapter),
            ItemView::Section(_) => 0,
        }) + items_chapter_count(items.skip(1))
    }
}

/// How many chapters with subchapters there are in `chapter` and everything below it.
pub open spec fn parent_count(chapter: ChapterView) -> nat
    decreases chapter, 0int,
{
    if chapter.subchapters.len() == 0 {
        0
    } else {
        1 + items_parent_count(chapter.subchapters)
    }
}

/// How many chapters with subchapters there are among `items` and below them.
pub open spec fn items_parent_count(items: Seq<ItemView>) -> nat
    decreases items, 1int,
{
    if items.len() == 0 {
        0
    } else {
        (match items[0] {
            ItemView::Chapter(chapter) => parent_count(chapter),
            ItemView::Section(_) => 0,
        }) + items_parent_count(items.skip(1))
    }
}

/// How many of `targets` are pages.
pub open spec fn page_count(targets: Seq<Target>) -> nat
    decreases targets.len(),
{
    if targets.len() == 0 {
        0
    } else {
        (if targets[0] is Page {
            1nat
        } else {
            0nat
        }) + page_count(targets.skip(1))
    }
}

/// How many of `targets` are directories to create.
pub open spec fn dir_count(targets: Seq<Target>) -> nat
    decreases targets.len(),
{
    if targets.len() == 0 {
        0
    } else {
        (if targets[0] is Dir {
            1nat
        } else {
            0nat
        }) + dir_count(targets.skip(1))
    }
}

/// Pages and directories of two lists of targets add up.
pub proof fn lemma_counts_add(first: Seq<Target>, second: Seq<Target>)
    ensures
        page_count(first + second) == page_count(first) + page_count(second),
        dir_count(first + second) == dir_count(first) + dir_count(second),
    decreases first.len(),
{
    if first.len() == 0 {
        assert(first + second == second);
    } else {
        assert((first + second).skip(1) == first.skip(1) + second);
        lemma_counts_add(first.skip(1), second);
    }
}

/// Writing a chapter out makes one page for it and one for each chapter below it, one
/// directory for each of these chapters that has subchapters, and nothing else.
pub proof fn lemma_one_page_per_chapter(chapter: ChapterView, destination: Seq<char>)
    requires
        chapter_targets(chapter, destination) is Some,
    ensures
        page_count(chapter_targets(chapter, destination).unwrap()) == chapter_count(chapter),
        dir_count(chapter_targets(chapter, destination).unwrap()) == parent_count(chapter),
        chapter_targets(chapter, destination).unwrap().len() == chapter_count(chapter)
            + parent_count(chapter),
    decreases chapter, 0int,
{
    let targets = chapter_targets(chapter, destination).unwrap();
    let name = page_name(chapter.content).unwrap();
    assert(page_count(Seq::<Target>::empty()) == 0);
    assert(dir_count(Seq::<Target>::empty()) == 0);
    if chapter.subchapters.len() == 0 {
        assert(targets.skip(1) == Seq::<Target>::empty());
        assert(page_count(targets) == 1);
        assert(dir_count(targets) == 0);
        assert(items_chapter_count(chapter.subchapters) == 0);
    } else {
        let below = path_join(destination, chapter_directory(chapter.content).unwrap());
        let rest = items_targets(chapter.subchapters, below).unwrap();
        let head = seq![Target::Dir(below), Target::Page(path_join(below, name))];
        lemma_one_page_per_item(chapter.subchapters, below);
        lemma_counts_add(head, rest);
        assert(head.skip(1) == seq![Target::Page(path_join(below, name))]);
        assert(head.skip(1).skip(1) == Seq::<Target>::empty());
        assert(page_count(head.skip(1)) == 1);
        assert(dir_count(head.skip(1)) == 0);
        assert(page_count(head) == 1);
        assert(dir_count(head) == 1);
        assert(targets == head + rest);
    }
}

/// The same for the chapters among `items`.
pub proof fn lemma_one_page_per_item(items: Seq<ItemView>, destination: Seq<char>)
    requires
        items_targets(items, destination) is Some,
    ensures
        page_count(items_targets(items, destination).unwrap()) == items_chapter_count(items),
        dir_count(items_targets(items, destination).unwrap()) == items_parent_count(items),
        items_targets(items, destination).unwrap().len() == items_chapter_count(items)
            + items_parent_count(items),
    decreases items, 1int,
{
    if items.len() > 0 {
        lemma_one_page_per_item(items.skip(1), destination);
        match items[0] {
            ItemView::Section(_) => {},
            ItemView::Chapter(chapter) => {
                lemma_one_page_per_chapter(chapter, destination);
                lemma_counts_add(
                    chapter_targets(chapter, destination).unwrap(),
                    items_targets(items.skip(1), destination).unwrap(),
                );
            },
        }
    }
}

/// A failure behind chapters that were rendered is the first failure of the longer list.
proof fn lemma_failure_behind<R: Renderer>(
    renderer: &R,
    done: Seq<Option<Chapter>>,
    actions: Seq<Action>,
    later: Seq<Option<Chapter>>,
    error: Error,
)
    requires
        pages_rendered(renderer, done, actions),
        fails_first(renderer, later, error),
    ensures
        fails_first(renderer, done + later, error),
{
    let at = choose|at: int| first_failure(renderer, later, at, error);
    let sources = done + later;
    assert(sources[done.len() + at] == later[at]);
    assert forall|j: int| 0 <= j < done.len() + at implies (#[trigger] sources[j] matches Some(
        earlier,
    ) ==> can_render(renderer, earlier)) by {
        if j < done.len() {
            assert(sources[j] == done[j]);
            if let Some(earlier) = done[j] {
                let contents = actions[j]->WriteFile_contents;
                assert(renders(renderer, earlier, contents));
            }
        } else {
            assert(sources[j] == later[j - done.len()]);
        }
    }
    assert(first_failure(renderer, sources, done.len() + at, error));
}

/// The first failure of a list is the first failure of the list with more behind it.
proof fn lemma_failure_before<R: Renderer>(
    renderer: &R,
    sources: Seq<Option<Chapter>>,
    later: Seq<Option<Chapter>>,
    error: Error,
)
    requires
        fails_first(renderer, sources, error),
    ensures
        fails_first(renderer, sources + later, error),
{
    let at = choose|at: int| first_failure(renderer, sources, at, error);
    let longer = sources + later;
    assert(longer[at] == sources[at]);
    assert forall|j: int| 0 <= j < at implies (#[trigger] longer[j] matches Some(earlier)
        ==> can_render(renderer, earlier)) by {
        assert(longer[j] == sources[j]);
    }
    assert(first_failure(renderer, longer, at, error));
}

fn write_chapter_into<R: Renderer>(chapter: &Chapter, renderer: &R, destination: &str) -> (steps:
    Result<Vec<Action>, Error>)
    ensures
        match steps {
            Ok(actions) => {
                &&& chapter_targets(chapter@, destination@) == Some(targets_of(actions@))
                &&& pages_rendered(renderer, chapter_sources(*chapter), actions@)
            },
            Err(error) => fails_first(renderer, chapter_sources(*chapter), error),
        },
    decreases chapter,
{
    let ghost sources = chapter_sources(*chapter);
    let ghost own: int = if chapter.subchapters@.len() == 0 {
        0
    } else {
        1
    };
    let name = match file_stem(chapter.content.as_str()) {
        Some(stem) => stem.concat(".html"),
        None => {
            let error = Error::InvalidChapterPath { path: chapter.content.clone() };
            assert(first_failure(renderer, sources, own, error));
            return Err(error);
        },
    };
    let mut actions: Vec<Action> = Vec::new();
    if chapter.subchapters.len() == 0 {
        let page = join(destination, name.as_str());
        let action = match page_action(page, renderer.render(chapter)) {
            Ok(action) => action,
            Err(error) => {
                assert(first_failure(renderer, sources, own, error));
                return Err(error);
            },
        };
        actions.push(action);
        Ok(actions)
    } else {
        let directory = match parent(chapter.content.as_str()) {
            Some(parent) => file_stem(parent.as_str()),
            None => None,
        };
        let directory = match directory {
            Some(directory) => directory,
            None => {
                let error = Error::InvalidChapterPath { path: chapter.content.clone() };
                assert(first_failure(renderer, sources, own, error));
                return Err(error);
            },
        };
        let below = join(destination, directory.as_str());
        let page = join(below.as_str(), name.as_str());
        actions.push(Action::CreateDir { path: below.clone() });
        let action = match page_action(page, renderer.render(chapter)) {
            Ok(action) => action,
            Err(error) => {
                assert(first_failure(renderer, sources, own, error));
                return Err(error);
            },
        };
        actions.push(action);
        let ghost head = actions@;
        let ghost front = seq![None, Some(*chapter)];
        let mut rest = match write_items_into(&chapter.subchapters, renderer, below.as_str()) {
            Ok(rest) => rest,
            Err(error) => {
                proof {
                    lemma_failure_behind(
                        renderer,
                        front,
                        head,
                        items_sources(chapter.subchapters@),
                        error,
                    );
                }
                return Err(error);
            },
        };
        actions.append(&mut rest);
        assert(pages_rendered(renderer, chapter_sources(*chapter), actions@)) by {
            assert forall|i: int| 0 <= i < sources.len() implies match #[trigger] sources[i] {
                Some(chapter) => actions@[i] matches Action::WriteFile { path, contents }
                    && renders(renderer, chapter, contents),
                None => actions@[i] is CreateDir,
            } by {
            }
        }
        Ok(actions)
    }
}

fn write_items_into<R: Renderer>(items: &Vec<Item>, renderer: &R, destination: &str) -> (steps:
    Result<Vec<Action>, Error>)
    ensures
        match steps {
            Ok(actions) => {
                &&& items_targets(items_view(items@), destination@) == Some(targets_of(actions@))
                &&& pages_rendered(renderer, items_sources(items@), actions@)
            },
            Err(error) => fails_first(renderer, items_sources(items@), error),
        },
    decreases items,
{
    let ghost all = items_view(items@);
    let mut actions: Vec<Action> = Vec::new();
    let mut i: usize = 0;
    assert(all.skip(0) == all);
    assert(items@.skip(0) == items@);
    let ghost mut done: Seq<Option<Chapter>> = Seq::empty();
    while i < items.len()
        invariant
            i <= items.len(),
            all == items_view(items@),
            items_targets(all, destination@) == (match items_targets(
                all.skip(i as int),
                destination@,
            ) {
                Some(rest) => Some(targets_of(actions@) + rest),
                None => None,
            }),
            items_sources(items@) == done + items_sources(items@.skip(i as int)),
            pages_rendered(renderer, done, actions@),
        decreases items.len() - i,
    {
        let ghost later = all.skip(i as int);
        assert(later.skip(1) == all.skip(i + 1));
        assert(items@.skip(i as int).skip(1) == items@.skip(i + 1));
        match &items[i] {
            Item::Section(_) => {},
            Item::Chapter(chapter) => {
                let mut steps = match write_chapter_into(chapter, renderer, destination) {
                    Ok(steps) => steps,
                    Err(error) => {
                        proof {
                            lemma_failure_before(
                                renderer,
                                chapter_sources(*chapter),
                                items_sources(items@.skip(i + 1)),
                                error,
                            );
                            lemma_failure_behind(
                                renderer,
                                done,
                                actions@,
                                chapter_sources(*chapter) + items_sources(items@.skip(i + 1)),
                                error,
                            );
                        }
                        return Err(error);
                    },
                };
                actions.append(&mut steps);
                proof {
                    let sources = chapter_sources(*chapter);
                    let next = done + sources;
                    assert forall|k: int| 0 <= k < next.len() implies match #[trigger] next[k] {
                        Some(chapter) => actions@[k] matches Action::WriteFile { path, contents }
                            && renders(renderer, chapter, contents),
                        None => actions@[k] is CreateDir,
                    } by {
                    }
                    done = next;
                }
            },
        }
        i += 1;
    }
    Ok(actions)
}

} // verus!
