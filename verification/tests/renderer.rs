use cahlter::config::{Config, Link};
use cahlter::error::Error;
use cahlter::renderer::{
    AskamaRenderer, Header, RendererContext, Sidebar, SidebarChapter, SidebarItem, SidebarSection,
};
use cahlter::summary::{Directory, Summary};
use cahlter::vault::content::Source;
use cahlter::{Chapter, Content, Item, Section};

fn content(items: Vec<Item>) -> Content {
    Content { summary: Summary::new(items) }
}

fn renderer(items: Vec<Item>, config: Config, src_dir: &str) -> AskamaRenderer {
    AskamaRenderer::new(RendererContext::new(content(items), config, src_dir.to_string()))
}

fn leaf(title: &str, number: &str, content: &str) -> Chapter {
    Chapter::new(title, number, content, vec![])
}

fn entry(title: &str, target: &str, subchapters: Vec<SidebarItem>) -> SidebarChapter {
    SidebarChapter { title: title.to_string(), subchapters, target: target.to_string() }
}

#[test]
fn test_get_chapter_target() {
    let empty = Directory { path: "/tmp/vault".to_string(), listing: Ok(Vec::new()) };
    let context = RendererContext::new(
        Content::new(Source::FileTree(empty)).unwrap(),
        Config::default(),
        "/some/dir/src".to_string(),
    );
    let renderer = AskamaRenderer::new(context);
    let tests =
        vec![("/some/dir/src/file.txt", "/file.html"), ("/some/dir/src/dir/file", "/dir/file.html")];

    for test in tests.iter() {
        assert_eq!(renderer.get_chapter_target(test.0).unwrap(), test.1.to_string());
    }
}

#[test]
fn it_should_derive_the_address_of_a_page_from_the_source_directory() {
    let renderer = renderer(vec![], Config::default(), "/vault/src");

    assert_eq!(renderer.get_chapter_target("/vault/src/dir/file.md"), Ok("/dir/file.html".to_string()));
    assert_eq!(renderer.get_chapter_target("/vault/src/a.b.md"), Ok("/a.b.html".to_string()));
    assert_eq!(renderer.get_chapter_target("/vault/src/./intro.md"), Ok("/intro.html".to_string()));
}

#[test]
fn it_should_refuse_a_chapter_outside_the_source_directory() {
    let renderer = renderer(vec![], Config::default(), "/vault/src");

    assert_eq!(
        renderer.get_chapter_target("/elsewhere/file.md"),
        Err(Error::InvalidChapterPath { path: "/elsewhere/file.md".to_string() })
    );
    assert_eq!(
        renderer.get_chapter_target("/vault/srcs/file.md"),
        Err(Error::InvalidChapterPath { path: "/vault/srcs/file.md".to_string() })
    );
    assert_eq!(
        renderer.get_chapter_target("file.md"),
        Err(Error::InvalidChapterPath { path: "file.md".to_string() })
    );
}

#[test]
fn it_should_show_the_links_in_the_header() {
    let mut config = Config::default();
    config.links = vec![
        Link { name: "Home".to_string(), url: "/".to_string(), icon: None },
        Link {
            name: "Source".to_string(),
            url: "https://example.org".to_string(),
            icon: Some("code".to_string()),
        },
    ];
    let renderer = renderer(vec![], config.clone(), "/vault/src");

    assert_eq!(renderer.render_header(), Header { links: config.links });
}

#[test]
fn it_should_show_bare_titles_without_enumeration() {
    let renderer = renderer(vec![], Config::default(), "/vault/src");
    let chapter = leaf("Intro", "1", "/vault/src/intro.md");

    assert_eq!(renderer.render_sidebar_chapter(&chapter), Ok(entry("Intro", "/intro.html", vec![])));
}

#[test]
fn it_should_show_numbers_with_enumeration() {
    let mut config = Config::default();
    config.general.enumerate = true;
    let renderer = renderer(vec![], config, "/vault/src");
    let chapter = Chapter::new(
        "Guide",
        "2",
        "/vault/src/guide/index.md",
        vec![
            Item::from(leaf("Setup", "2.1", "/vault/src/guide/setup.md")),
            Item::from(Section::new("More")),
            Item::from(leaf("Use", "2.2", "/vault/src/guide/use.md")),
        ],
    );

    assert_eq!(
        renderer.render_sidebar_chapter(&chapter),
        Ok(entry(
            "2 Guide",
            "/guide/index.html",
            vec![
                SidebarItem::Chapter(entry("2.1 Setup", "/guide/setup.html", vec![])),
                SidebarItem::Section(SidebarSection { title: "More".to_string() }),
                SidebarItem::Chapter(entry("2.2 Use", "/guide/use.html", vec![])),
            ],
        ))
    );
    assert_eq!(
        renderer.render_sidebar_chapter(&leaf("Intro", "", "/vault/src/intro.md")),
        Ok(entry(" Intro", "/intro.html", vec![]))
    );
}

#[test]
fn it_should_render_a_section_by_its_title() {
    let renderer = renderer(vec![], Config::default(), "/vault/src");

    assert_eq!(
        renderer.render_sidebar_section(&Section::new("Part I")),
        SidebarSection { title: "Part I".to_string() }
    );
}

#[test]
fn it_should_render_the_sidebar_in_the_order_of_the_summary() {
    let mut config = Config::default();
    config.general.title = "My vault".to_string();
    let renderer = renderer(
        vec![
            Item::from(leaf("Intro", "", "/vault/src/intro.md")),
            Item::from(Section::new("Part I")),
            Item::from(leaf("One", "1", "/vault/src/one.md")),
        ],
        config,
        "/vault/src",
    );

    assert_eq!(
        renderer.render_sidebar(),
        Ok(Sidebar {
            title: "My vault".to_string(),
            table_of_contents: vec![
                SidebarItem::Chapter(entry("Intro", "/intro.html", vec![])),
                SidebarItem::Section(SidebarSection { title: "Part I".to_string() }),
                SidebarItem::Chapter(entry("One", "/one.html", vec![])),
            ],
        })
    );
}

#[test]
fn it_should_fail_the_sidebar_on_the_deepest_chapter_outside_first() {
    let renderer = renderer(
        vec![
            Item::from(leaf("Fine", "1", "/vault/src/fine.md")),
            Item::from(Chapter::new(
                "Outer",
                "2",
                "/outside/outer.md",
                vec![Item::from(leaf("Inner", "2.1", "/outside/inner.md"))],
            )),
        ],
        Config::default(),
        "/vault/src",
    );

    assert_eq!(
        renderer.render_sidebar(),
        Err(Error::InvalidChapterPath { path: "/outside/inner.md".to_string() })
    );
}

#[test]
fn it_should_lay_a_page_out() {
    let mut config = Config::default();
    config.general.title = "My vault".to_string();
    config.appearance.custom = vec![
        "./custom1.css".to_string(),
        "./css/custom2.css".to_string(),
        "./css/styles/custom3.css".to_string(),
    ];
    let chapter = leaf("Chapter1", "1", "/vault/src/chapter1.md");
    let renderer = renderer(vec![Item::from(chapter.clone())], config, "/vault/src");

    let page = renderer.render(&chapter, Ok("# Hello there".to_string())).unwrap();

    assert_eq!(page.theme, "gruvbox");
    assert_eq!(page.themes, vec!["gruvbox".to_string(), "catppuccin".to_string()]);
    assert_eq!(page.header, Header { links: vec![] });
    assert_eq!(
        page.sidebar,
        Sidebar {
            title: "My vault".to_string(),
            table_of_contents: vec![SidebarItem::Chapter(entry(
                "Chapter1",
                "/chapter1.html",
                vec![]
            ))],
        }
    );
    assert_eq!(page.content, "<h1>Hello there</h1>\n");
    assert_eq!(
        page.custom_css,
        vec!["/custom1.css".to_string(), "/custom2.css".to_string(), "/custom3.css".to_string()]
    );
}

#[test]
fn it_should_turn_markdown_into_html() {
    let chapter = leaf("Chapter2", "2", "/vault/src/chapter2.md");
    let renderer = renderer(vec![], Config::default(), "/vault/src");

    let quote = renderer.render(&chapter, Ok("> Here is where the fun begins".to_string())).unwrap();
    let nothing = renderer.render(&chapter, Ok(String::new())).unwrap();

    assert_eq!(quote.content, "<blockquote>\n<p>Here is where the fun begins</p>\n</blockquote>\n");
    assert_eq!(nothing.content, "");
}

#[test]
fn it_should_fail_a_page_whose_markdown_was_not_read() {
    let chapter = leaf("Chapter1", "1", "/vault/src/chapter1.md");
    let renderer = renderer(vec![], Config::default(), "/vault/src");

    assert_eq!(
        renderer.render(&chapter, Err("No such file or directory".to_string())),
        Err(Error::RenderFailed {
            path: "/vault/src/chapter1.md".to_string(),
            cause: "No such file or directory".to_string(),
        })
    );
}

#[test]
fn it_should_fail_a_page_on_a_style_sheet_without_a_name() {
    let mut config = Config::default();
    config.appearance.custom = vec!["a.css".to_string(), "..".to_string(), "/".to_string()];
    let chapter = leaf("Chapter1", "1", "/vault/src/chapter1.md");
    let renderer = renderer(vec![], config, "/vault/src");

    assert_eq!(
        renderer.render(&chapter, Ok(String::new())),
        Err(Error::RenderFailed {
            path: "/vault/src/chapter1.md".to_string(),
            cause: "Failed to extract the file name from ..".to_string(),
        })
    );
}

#[test]
fn it_should_fail_a_page_on_the_sidebar_before_anything_else() {
    let mut config = Config::default();
    config.appearance.custom = vec!["..".to_string()];
    let chapter = leaf("Chapter1", "1", "/elsewhere/chapter1.md");
    let renderer = renderer(vec![Item::from(chapter.clone())], config, "/vault/src");

    assert_eq!(
        renderer.render(&chapter, Err("unreadable".to_string())),
        Err(Error::InvalidChapterPath { path: "/elsewhere/chapter1.md".to_string() })
    );
}
