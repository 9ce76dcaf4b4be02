use crate::paths::option_text;
use vstd::prelude::*;

verus! {

/// The characters of each text, in order.
pub open spec fn texts_view(texts: Seq<String>) -> Seq<Seq<char>> {
    Seq::new(texts.len(), |i: int| texts[i]@)
}

/// A copy of `texts`.
pub fn copy_texts(texts: &Vec<String>) -> (copy: Vec<String>)
    ensures
        texts_view(copy@) == texts_view(texts@),
{
    let mut copy: Vec<String> = Vec::new();
    let mut i: usize = 0;
    while i < texts.len()
        invariant
            i <= texts.len(),
            copy.len() == i,
            forall|j: int| 0 <= j < i ==> copy@[j]@ == texts@[j]@,
        decreases texts.len() - i,
    {
        copy.push(texts[i].clone());
        i += 1;
    }
    copy
}

/// All the options of a vault.
#[derive(Debug, PartialEq)]
pub struct Config {
    pub general: General,
    pub appearance: Appearance,
    pub links: Vec<Link>,
    pub languages: Vec<Language>,
}

/// General options of a vault.
#[derive(Debug, PartialEq)]
pub struct General {
    /// Title of the vault.
    pub title: String,
    /// Authors of the vault.
    pub authors: Vec<String>,
    /// A description of the vault.
    pub desc: String,
    /// Whether the sidebar shows each chapter's number before its title.
    pub enumerate: bool,
    /// Files that are left out (for instance `not_ready.md`).
    pub ignore: Vec<String>,
    /// Whether several languages are offered.
    pub multiple_language: bool,
    /// Whether the default style sheet and script are written to the build directory.
    pub use_default: bool,
    /// Where the site is written, relative to the vault.
    pub build_dir: String,
    /// Where the markdown lies, relative to the vault.
    pub src_dir: String,
}

/// How the generated site looks.
#[derive(Debug, PartialEq)]
pub struct Appearance {
    /// Paths of the vault's own style sheets, relative to the vault.
    pub custom: Vec<String>,
    /// The theme that a page starts with.
    pub default_theme: String,
    /// All themes that a reader can choose from.
    pub themes: Vec<String>,
}

/// A link that the header of each page shows.
#[derive(Debug, PartialEq)]
pub struct Link {
    /// The link's name. It is shown where there is no icon.
    pub name: String,
    pub url: String,
    /// An icon that is shown in place of the name.
    pub icon: Option<String>,
}

/// A language in which the vault is offered. The header shows it where `multiple_language`
/// is set.
#[derive(Debug, PartialEq)]
pub struct Language {
    /// The language's name (for instance `English`, `pt-br`).
    pub name: String,
    /// Path of the directory that holds the markdown in this language.
    pub path: String,
}

/// What a [`Config`] is in contracts.
#[verifier::ext_equal]
pub struct ConfigView {
    pub general: GeneralView,
    pub appearance: AppearanceView,
    pub links: Seq<LinkView>,
    pub languages: Seq<LanguageView>,
}

/// What a [`General`] is in contracts.
#[verifier::ext_equal]
pub struct GeneralView {
    pub title: Seq<char>,
    pub authors: Seq<Seq<char>>,
    pub desc: Seq<char>,
    pub enumerate: bool,
    pub ignore: Seq<Seq<char>>,
    pub multiple_language: bool,
    pub use_default: bool,
    pub build_dir: Seq<char>,
    pub src_dir: Seq<char>,
}

/// What an [`Appearance`] is in contracts.
#[verifier::ext_equal]
pub struct AppearanceView {
    pub custom: Seq<Seq<char>>,
    pub default_theme: Seq<char>,
    pub themes: Seq<Seq<char>>,
}

/// What a [`Link`] is in contracts.
#[verifier::ext_equal]
pub struct LinkView {
    pub name: Seq<char>,
    pub url: Seq<char>,
    pub icon: Option<Seq<char>>,
}

/// What a [`Language`] is in contracts.
#[verifier::ext_equal]
pub struct LanguageView {
    pub name: Seq<char>,
    pub path: Seq<char>,
}

impl View for Link {
    type V = LinkView;

    open spec fn view(&self) -> LinkView {
        LinkView { name: self.name@, url: self.url@, icon: option_text(self.icon) }
    }
}

impl View for Language {
    type V = LanguageView;

    open spec fn view(&self) -> LanguageView {
        LanguageView { name: self.name@, path: self.path@ }
    }
}

impl View for General {
    type V = GeneralView;

    open spec fn view(&self) -> GeneralView {
        GeneralView {
            title: self.title@,
            authors: texts_view(self.authors@),
            desc: self.desc@,
            enumerate: self.enumerate,
            ignore: texts_view(self.ignore@),
            multiple_language: self.multiple_language,
            use_default: self.use_default,
            build_dir: self.build_dir@,
            src_dir: self.src_dir@,
        }
    }
}

impl View for Appearance {
    type V = AppearanceView;

    open spec fn view(&self) -> AppearanceView {
        AppearanceView {
            custom: texts_view(self.custom@),
            default_theme: self.default_theme@,
            themes: texts_view(self.themes@),
        }
    }
}

/// The views of `links`, in order.
pub open spec fn links_view(links: Seq<Link>) -> Seq<LinkView> {
    Seq::new(links.len(), |i: int| links[i]@)
}

/// The views of `languages`, in order.
pub open spec fn languages_view(languages: Seq<Language>) -> Seq<LanguageView> {
    Seq::new(languages.len(), |i: int| languages[i]@)
}

impl View for Config {
    type V = ConfigView;

    open spec fn view(&self) -> ConfigView {
        ConfigView {
            general: self.general@,
            appearance: self.appearance@,
            links: links_view(self.links@),
            languages: languages_view(self.languages@),
        }
    }
}

impl Clone for Link {
    fn clone(&self) -> (copy: Self)
        ensures
            copy@ == self@,
    {
        Link {
            name: self.name.clone(),
            url: self.url.clone(),
            icon: match &self.icon {
                Some(icon) => Some(icon.clone()),
                None => None,
            },
        }
    }
}

impl Clone for Language {
    fn clone(&self) -> (copy: Self)
        ensures
            copy@ == self@,
    {
        Language { name: self.name.clone(), path: self.path.clone() }
    }
}

impl Clone for General {
    fn clone(&self) -> (copy: Self)
        ensures
            copy@ == self@,
    {
        General {
            title: self.title.clone(),
            authors: copy_texts(&self.authors),
            desc: self.desc.clone(),
            enumerate: self.enumerate,
            ignore: copy_texts(&self.ignore),
            multiple_language: self.multiple_language,
            use_default: self.use_default,
            build_dir: self.build_dir.clone(),
            src_dir: self.src_dir.clone(),
        }
    }
}

impl Clone for Appearance {
    fn clone(&self) -> (copy: Self)
        ensures
            copy@ == self@,
    {
        Appearance {
            custom: copy_texts(&self.custom),
            default_theme: self.default_theme.clone(),
            themes: copy_texts(&self.themes),
        }
    }
}

/// A copy of `links`.
pub fn copy_links(links: &Vec<Link>) -> (copy: Vec<Link>)
    ensures
        links_view(copy@) == links_view(links@),
{
    let mut copy: Vec<Link> = Vec::new();
    let mut i: usize = 0;
    while i < links.len()
        invariant
            i <= links.len(),
            copy.len() == i,
            forall|j: int| 0 <= j < i ==> copy@[j]@ == links@[j]@,
        decreases links.len() - i,
    {
        copy.push(links[i].clone());
        i += 1;
    }
    copy
}

impl Clone for Config {
    fn clone(&self) -> (copy: Self)
        ensures
            copy@ == self@,
    {
        let mut languages: Vec<Language> = Vec::new();
        let mut i: usize = 0;
        while i < self.languages.len()
            invariant
                i <= self.languages.len(),
                languages.len() == i,
                forall|j: int| 0 <= j < i ==> languages@[j]@ == self.languages@[j]@,
            decreases self.languages.len() - i,
        {
            languages.push(self.languages[i].clone());
            i += 1;
        }
        Config {
            general: self.general.clone(),
            appearance: self.appearance.clone(),
            links: copy_links(&self.links),
            languages,
        }
    }
}

/// The options that a new vault starts with.
pub open spec fn default_config() -> ConfigView {
    ConfigView {
        general: GeneralView {
            title: Seq::empty(),
            authors: seq![Seq::empty()],
            desc: Seq::empty(),
            enumerate: false,
            ignore: Seq::empty(),
            multiple_language: false,
            use_default: true,
            build_dir: "build"@,
            src_dir: "src"@,
        },
        appearance: AppearanceView {
            custom: Seq::empty(),
            default_theme: "gruvbox"@,
            themes: seq!["gruvbox"@, "catppuccin"@],
        },
        links: Seq::empty(),
        languages: Seq::empty(),
    }
}

impl Default for Config {
    fn default() -> (config: Config)
        ensures
            config@ == default_config(),
    {
        let mut authors: Vec<String> = Vec::new();
        authors.push(String::new());
        let mut themes: Vec<String> = Vec::new();
        themes.push(String::from_str("gruvbox"));
        themes.push(String::from_str("catppuccin"));
        let general = General {
            title: String::new(),
            authors,
            desc: String::new(),
            enumerate: false,
            ignore: Vec::new(),
            multiple_language: false,
            use_default: true,
            build_dir: String::from_str("build"),
            src_dir: String::from_str("src"),
        };
        let appearance = Appearance {
            custom: Vec::new(),
            default_theme: String::from_str("gruvbox"),
            themes,
        };
        let config = Config { general, appearance, links: Vec::new(), languages: Vec::new() };
        config
    }
}

impl Config {
    /// Takes over every option of `other`.
    pub fn update(&mut self, other: Config)
        ensures
            *final(self) == other,
    {
        self.general = other.general;
        self.appearance = other.appearance;
        self.links = other.links;
        self.languages = other.languages;
    }
}

} // verus!
