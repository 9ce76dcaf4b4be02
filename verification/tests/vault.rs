use cahlter::config::Config;
use cahlter::error::Error;
use cahlter::renderer::Renderer;
use cahlter::summary::Summary;
use cahlter::vault::{page_action, Action, Vault, CONFIG_FILE};
use cahlter::{Chapter, Content, Item, Section};

struct Titles;

impl Renderer for Titles {
    fn render(&self, chapter: &Chapter) -> Result<String, Error> {
        Ok(format!("<h1>{}</h1>", chapter.title))
    }
}

struct FailsOn(&'static str);

impl Renderer for FailsOn {
    fn render(&self, chapter: &Chapter) -> Result<String, Error> {
        if chapter.title == self.0 {
            Err(Error::RenderFailed { path: chapter.content.clone(), cause: "broken".to_string() })
        } else {
            Ok(chapter.title.clone())
        }
    }
}

fn leaf(title: &str, number: &str, content: &str) -> Chapter {
    Chapter::new(title, number, content, vec![])
}

fn content(items: Vec<Item>) -> Content {
    Content { summary: Summary::new(items) }
}

fn page(path: &str, contents: &str) -> Action {
    Action::WriteFile { path: path.to_string(), contents: contents.to_string() }
}

fn dir(path: &str) -> Action {
    Action::CreateDir { path: path.to_string() }
}

#[test]
fn it_should_initialize_the_vault() {
    let mut vault = Vault::new("/tmp/test_vault");

    let steps = vault.init(false).unwrap();

    assert!(steps.contains(&Action::CreateDir { path: "/tmp/test_vault".to_string() }));
    assert!(vault.config.general.title == "test_vault");
}

#[test]
#[should_panic(expected = "calhter.yml already exists at")]
fn it_should_not_initialize_the_vault_if_it_was_already_initialized() {
    let mut vault = Vault::new("/tmp/test_vault");

    vault.init(false).unwrap();
    vault.init(true).unwrap();
}

#[test]
fn it_should_create_the_right_directories() {
    let mut vault = Vault::new("/tmp/test_vault");

    let steps = vault.init(false).unwrap();

    assert_eq!(vault.src_dir(), "/tmp/test_vault/src");
    assert_eq!(vault.build_dir(), "/tmp/test_vault/build");
    assert_eq!(vault.config_file(), format!("/tmp/test_vault/{}", CONFIG_FILE));
    assert_eq!(
        steps,
        vec![
            Action::CreateDir { path: "/tmp/test_vault".to_string() },
            Action::CreateDir { path: "/tmp/test_vault/src".to_string() },
            Action::CreateDir { path: "/tmp/test_vault/build".to_string() },
            Action::WriteConfig { path: "/tmp/test_vault/cahlter.yml".to_string() },
        ]
    );
}

#[test]
fn it_should_say_that_a_vault_was_set_up_before() {
    let mut vault = Vault::new("/tmp/test_vault");
    vault.config.general.title = "Kept".to_string();

    assert_eq!(
        vault.init(true),
        Err(Error::WriteFailed {
            path: "/tmp/test_vault/cahlter.yml".to_string(),
            cause: "calhter.yml already exists at /tmp/test_vault".to_string(),
        })
    );
    assert_eq!(
        vault.init(true).unwrap_err().message(),
        "Failed to write /tmp/test_vault/cahlter.yml: calhter.yml already exists at /tmp/test_vault"
    );
    assert_eq!(vault.config.general.title, "Kept");
}

#[test]
fn it_should_not_set_a_vault_without_a_name_up() {
    let mut vault = Vault::new("/");

    assert_eq!(
        vault.init(false),
        Err(Error::WriteFailed {
            path: "/".to_string(),
            cause: "the path has no file name".to_string(),
        })
    );
    assert_eq!(vault.config, Config::default());
}

#[test]
fn it_should_keep_the_options_that_were_read() {
    let mut config = Config::default();
    config.general.src_dir = "markdown".to_string();
    config.general.build_dir = "/var/www/site".to_string();

    let vault = Vault::from_disk("/home/me/vault", config.clone());

    assert_eq!(vault.path, "/home/me/vault");
    assert_eq!(vault.config, config);
    assert_eq!(vault.src_dir(), "/home/me/vault/markdown");
    assert_eq!(vault.build_dir(), "/var/www/site");
}

#[test]
fn it_should_build_the_vault() {
    let vault = Vault::new("/tmp/vault");
    let content = content(vec![
        Item::from(leaf("Chapter1", "1", "/tmp/vault/src/chapter1.md")),
        Item::from(leaf("Chapter2", "2", "/tmp/vault/src/chapter2.md")),
    ]);

    let steps = vault.build(&content, &Titles).unwrap();

    assert_eq!(
        steps,
        vec![
            page("/tmp/vault/build/chapter1.html", "<h1>Chapter1</h1>"),
            page("/tmp/vault/build/chapter2.html", "<h1>Chapter2</h1>"),
            Action::WriteDefaults { path: "/tmp/vault/build/main.css".to_string() },
        ]
    );
}

#[test]
fn it_should_build_the_vault_with_custom_css() {
    let mut vault = Vault::new("/tmp/vault");

    vault.config.general.use_default = false;
    vault.config.appearance.custom = vec![
        "./custom1.css".to_string(),
        "./css/custom2.css".to_string(),
        "./css/styles/custom3.css".to_string(),
    ];
    let content = content(vec![Item::from(leaf("Chapter1", "1", "/tmp/vault/src/chapter1.md"))]);

    let steps = vault.build(&content, &Titles).unwrap();

    assert_eq!(
        steps,
        vec![
            page("/tmp/vault/build/chapter1.html", "<h1>Chapter1</h1>"),
            Action::CopyFile {
                from: "/tmp/vault/./custom1.css".to_string(),
                to: "/tmp/vault/build/custom1.css".to_string(),
            },
            Action::CopyFile {
                from: "/tmp/vault/./css/custom2.css".to_string(),
                to: "/tmp/vault/build/custom2.css".to_string(),
            },
            Action::CopyFile {
                from: "/tmp/vault/./css/styles/custom3.css".to_string(),
                to: "/tmp/vault/build/custom3.css".to_string(),
            },
        ]
    );
}

#[test]
fn it_should_write_one_directory_and_three_pages_for_a_chapter_with_two_subchapters() {
    let vault = Vault::new("/tmp/vault");
    let chapter = Chapter::new(
        "Guide",
        "1",
        "/tmp/vault/src/guide/index.md",
        vec![
            Item::from(leaf("Setup", "1.1", "/tmp/vault/src/guide/setup.md")),
            Item::from(leaf("Use", "1.2", "/tmp/vault/src/guide/use.md")),
        ],
    );

    let steps = vault.write_chapter(&chapter, &Titles, "/tmp/vault/build").unwrap();

    assert_eq!(
        steps,
        vec![
            dir("/tmp/vault/build/guide"),
            page("/tmp/vault/build/guide/index.html", "<h1>Guide</h1>"),
            page("/tmp/vault/build/guide/setup.html", "<h1>Setup</h1>"),
            page("/tmp/vault/build/guide/use.html", "<h1>Use</h1>"),
        ]
    );
}

#[test]
fn it_should_mirror_nested_directories() {
    let vault = Vault::new("/tmp/vault");
    let chapter = Chapter::new(
        "A",
        "1",
        "/src/a/index.md",
        vec![
            Item::from(Section::new("Inside")),
            Item::from(Chapter::new(
                "B",
                "1.1",
                "/src/a/b/b.md",
                vec![Item::from(leaf("C", "1.1.1", "/src/a/b/c.md"))],
            )),
            Item::from(leaf("D", "1.2", "/src/a/d.md")),
        ],
    );

    let steps = vault.write_chapter(&chapter, &Titles, "/out").unwrap();

    assert_eq!(
        steps,
        vec![
            dir("/out/a"),
            page("/out/a/index.html", "<h1>A</h1>"),
            dir("/out/a/b"),
            page("/out/a/b/b.html", "<h1>B</h1>"),
            page("/out/a/b/c.html", "<h1>C</h1>"),
            page("/out/a/d.html", "<h1>D</h1>"),
        ]
    );
}

#[test]
fn it_should_write_a_chapter_without_subchapters_as_one_page() {
    let vault = Vault::new("/tmp/vault");

    assert_eq!(
        vault.write_chapter(&leaf("Notes", "", "/src/my.notes.md"), &Titles, "/out"),
        Ok(vec![page("/out/my.notes.html", "<h1>Notes</h1>")])
    );
}

#[test]
fn it_should_stop_at_the_first_chapter_that_cannot_be_rendered() {
    let vault = Vault::new("/tmp/vault");
    let content = content(vec![
        Item::from(leaf("One", "1", "/tmp/vault/src/one.md")),
        Item::from(leaf("Two", "2", "/tmp/vault/src/two.md")),
        Item::from(leaf("Three", "3", "/tmp/vault/src")),
    ]);

    assert_eq!(
        vault.build(&content, &FailsOn("Two")),
        Err(Error::RenderFailed {
            path: "/tmp/vault/src/two.md".to_string(),
            cause: "broken".to_string(),
        })
    );
}

#[test]
fn it_should_refuse_a_chapter_whose_content_has_no_name() {
    let vault = Vault::new("/tmp/vault");
    let nameless = leaf("Root", "1", "/");
    let orphan =
        Chapter::new("Orphan", "2", "index.md", vec![Item::from(leaf("Child", "2.1", "child.md"))]);

    assert_eq!(
        vault.write_chapter(&nameless, &Titles, "/out"),
        Err(Error::InvalidChapterPath { path: "/".to_string() })
    );
    assert_eq!(
        vault.write_chapter(&orphan, &Titles, "/out"),
        Err(Error::InvalidChapterPath { path: "index.md".to_string() })
    );
}

#[test]
fn it_should_refuse_a_style_sheet_without_a_name() {
    let mut vault = Vault::new("/tmp/vault");
    vault.config.appearance.custom = vec!["fine.css".to_string(), "..".to_string()];

    assert_eq!(
        vault.build(&content(vec![]), &Titles),
        Err(Error::WriteFailed {
            path: "..".to_string(),
            cause: "the path has no file name".to_string(),
        })
    );
}

#[test]
fn it_should_build_the_same_steps_twice() {
    let vault = Vault::new("/tmp/vault");
    let content = content(vec![
        Item::from(Section::new("Part")),
        Item::from(Chapter::new(
            "Guide",
            "1",
            "/tmp/vault/src/guide/guide.md",
            vec![Item::from(leaf("Setup", "1.1", "/tmp/vault/src/guide/setup.md"))],
        )),
    ]);

    assert_eq!(vault.build(&content, &Titles), vault.build(&content, &Titles));
}

#[test]
fn it_should_turn_a_rendering_into_a_step() {
    assert_eq!(
        page_action("/out/a.html".to_string(), Ok("<p>a</p>".to_string())),
        Ok(page("/out/a.html", "<p>a</p>"))
    );
    assert_eq!(
        page_action(
            "/out/a.html".to_string(),
            Err(Error::RenderFailed { path: "a.md".to_string(), cause: "gone".to_string() })
        ),
        Err(Error::RenderFailed { path: "a.md".to_string(), cause: "gone".to_string() })
    );
}

#[test]
fn it_should_name_what_a_failed_step_was_to_write() {
    let steps = vec![
        (dir("/out/a"), "/out/a"),
        (Action::WriteConfig { path: "/vault/cahlter.yml".to_string() }, "/vault/cahlter.yml"),
        (page("/out/a.html", "<p>a</p>"), "/out/a.html"),
        (Action::WriteDefaults { path: "/out/main.css".to_string() }, "/out/main.css"),
        (
            Action::CopyFile { from: "/vault/a.css".to_string(), to: "/out/a.css".to_string() },
            "/out/a.css",
        ),
    ];

    for (step, path) in steps.iter() {
        assert_eq!(
            step.failed("disk full".to_string()),
            Error::WriteFailed { path: path.to_string(), cause: "disk full".to_string() }
        );
    }
}
