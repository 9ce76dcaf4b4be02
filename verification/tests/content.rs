use cahlter::error::Error;
use cahlter::summary::{Directory, Entry, Summary};
use cahlter::vault::content::Source;
use cahlter::{Chapter, Content, Item, Section};

fn leaf(title: &str, number: &str, content: &str) -> Chapter {
    Chapter::new(title, number, content, vec![])
}

fn directory(path: &str, entries: Vec<Entry>) -> Directory {
    Directory { path: path.to_string(), listing: Ok(entries) }
}

fn file(path: &str) -> Entry {
    Entry::File(path.to_string())
}

#[test]
fn it_should_make_a_chapter() {
    let chapter = Chapter::new("Title", "1.2", "/vault/src/title.md", vec![]);

    assert_eq!(chapter.title, "Title");
    assert_eq!(chapter.number, "1.2");
    assert_eq!(chapter.content, "/vault/src/title.md");
    assert!(chapter.subchapters.is_empty());
}

#[test]
fn it_should_make_a_section() {
    assert_eq!(Section::new("Part").title, "Part");
}

#[test]
fn it_should_tell_chapters_from_sections() {
    let content = Content {
        summary: Summary::new(vec![
            Item::from(leaf("Intro", "", "intro.md")),
            Item::from(Section::new("Part I")),
            Item::from(Chapter::new(
                "One",
                "1",
                "one.md",
                vec![Item::from(leaf("Below", "1.1", "below.md")), Item::from(Section::new("Inner"))],
            )),
            Item::from(Section::new("Part II")),
        ]),
    };

    assert_eq!(
        content.chapters(),
        vec![
            leaf("Intro", "", "intro.md"),
            Chapter::new(
                "One",
                "1",
                "one.md",
                vec![Item::from(leaf("Below", "1.1", "below.md")), Item::from(Section::new("Inner"))],
            ),
        ]
    );
    assert_eq!(content.sections(), vec![Section::new("Part I"), Section::new("Part II")]);
    assert_eq!(content.clone(), content);
}

#[test]
fn it_should_find_the_summary_of_a_directory() {
    let lower = directory("/vault/src", vec![file("/vault/src/a.md"), file("/vault/src/summary.md")]);
    let upper = directory("/vault/src", vec![file("/vault/src/SUMMARY.MD")]);
    let title = directory("/vault/src", vec![file("/vault/src/Summary.md")]);
    let all = directory(
        "/vault/src",
        vec![file("/vault/src/Summary.md"), file("/vault/src/SUMMARY.MD"), file("/vault/src/summary.md")],
    );
    let none = directory("/vault/src", vec![file("/vault/src/summary.txt"), file("/vault/src/sub/summary.md")]);
    let unreadable =
        Directory { path: "/vault/src".to_string(), listing: Err("permission denied".to_string()) };

    assert_eq!(Content::summary_file(&lower), Some("/vault/src/summary.md".to_string()));
    assert_eq!(Content::summary_file(&upper), Some("/vault/src/SUMMARY.MD".to_string()));
    assert_eq!(Content::summary_file(&title), Some("/vault/src/Summary.md".to_string()));
    assert_eq!(Content::summary_file(&all), Some("/vault/src/summary.md".to_string()));
    assert_eq!(Content::summary_file(&none), None);
    assert_eq!(Content::summary_file(&unreadable), None);
}

#[test]
fn it_should_make_the_content_from_a_summary() {
    let source = Source::SummaryFile {
        path: "/vault/src/summary.md".to_string(),
        text: Ok("# Part\n- [One](one.md)".to_string()),
    };

    assert_eq!(
        Content::new(source).unwrap().summary.items,
        vec![Item::from(Section::new("Part")), Item::from(leaf("One", "1", "/vault/src/one.md"))]
    );
}

#[test]
fn it_should_make_the_content_from_the_file_tree() {
    let source = Source::FileTree(directory(
        "/vault/src",
        vec![file("/vault/src/one.md"), file("/vault/src/two.md")],
    ));

    assert_eq!(
        Content::create_summary(source).unwrap().items,
        vec![
            Item::from(leaf("One", "1", "/vault/src/one.md")),
            Item::from(leaf("Two", "2", "/vault/src/two.md")),
        ]
    );
}

#[test]
fn it_should_fail_on_a_summary_that_was_not_read() {
    let source = Source::SummaryFile {
        path: "/vault/src/summary.md".to_string(),
        text: Err("Is a directory".to_string()),
    };

    assert_eq!(
        Content::new(source),
        Err(Error::SummarizeFailed {
            path: "/vault/src/summary.md".to_string(),
            cause: "Is a directory".to_string(),
        })
    );
}

#[test]
fn it_should_fail_on_a_summary_that_is_not_valid() {
    let source = Source::SummaryFile {
        path: "/vault/src/summary.md".to_string(),
        text: Ok("- [One](one.md)\nTwo".to_string()),
    };

    assert_eq!(Content::new(source), Err(Error::InvalidSummaryFormat { line: 2 }));
}

#[test]
fn it_should_say_what_went_wrong() {
    let errors = vec![
        (
            Error::SummarizeFailed { path: "/vault/src".to_string(), cause: "denied".to_string() },
            "Failed to read contents of /vault/src: denied",
        ),
        (
            Error::MissingChapterContent { path: "/vault/src/a".to_string() },
            "Could not find content for chapter /vault/src/a. Create a index or a summary.",
        ),
        (Error::InvalidSummaryFormat { line: 120 }, "The summary is not valid at line 120"),
        (Error::InvalidSummaryFormat { line: 7 }, "The summary is not valid at line 7"),
        (
            Error::InvalidChapterPath { path: "/elsewhere/a.md".to_string() },
            "Failed to create the url for /elsewhere/a.md",
        ),
        (
            Error::RenderFailed { path: "/vault/src/a.md".to_string(), cause: "gone".to_string() },
            "Failed to render /vault/src/a.md: gone",
        ),
        (
            Error::WriteFailed { path: "/vault/build/a.html".to_string(), cause: "full".to_string() },
            "Failed to write /vault/build/a.html: full",
        ),
    ];

    for (error, message) in errors.iter() {
        assert_eq!(error.message(), *message);
        assert_eq!(error.clone(), *error);
    }
}

#[test]
fn it_should_list_the_contents_of_all_chapters() {
    let content = Content {
        summary: Summary::new(vec![
            Item::from(leaf("Intro", "", "intro.md")),
            Item::from(Section::new("Part I")),
            Item::from(Chapter::new(
                "One",
                "1",
                "one/index.md",
                vec![
                    Item::from(Chapter::new(
                        "Below",
                        "1.1",
                        "one/below.md",
                        vec![Item::from(leaf("Deep", "1.1.1", "one/deep.md"))],
                    )),
                    Item::from(leaf("Next", "1.2", "one/next.md")),
                ],
            )),
            Item::from(leaf("Two", "2", "two.md")),
        ]),
    };

    assert_eq!(
        content.contents(),
        vec!["intro.md", "one/index.md", "one/below.md", "one/deep.md", "one/next.md", "two.md"]
    );
}

#[test]
fn it_should_stand_where_every_content_is_a_file() {
    let content = Content {
        summary: Summary::new(vec![
            Item::from(leaf("One", "1", "one.md")),
            Item::from(leaf("Two", "2", "two.md")),
        ]),
    };

    assert_eq!(content.clone().resolved(&vec![true, true]), Ok(content.clone()));
    assert_eq!(content.clone().resolved(&vec![true, true, false]), Ok(content));
    assert_eq!(
        Content { summary: Summary::new(vec![]) }.resolved(&vec![]),
        Ok(Content { summary: Summary::new(vec![]) })
    );
}

#[test]
fn it_should_fail_on_the_first_content_that_is_no_file() {
    let content = Content {
        summary: Summary::new(vec![
            Item::from(leaf("One", "1", "one.md")),
            Item::from(leaf("Two", "2", "two.md")),
            Item::from(leaf("Three", "3", "three.md")),
        ]),
    };

    assert_eq!(
        content.clone().resolved(&vec![true, false, false]),
        Err(Error::MissingChapterContent { path: "two.md".to_string() })
    );
    assert_eq!(
        content.clone().resolved(&vec![true, true]),
        Err(Error::MissingChapterContent { path: "three.md".to_string() })
    );
    assert_eq!(
        content.resolved(&vec![]),
        Err(Error::MissingChapterContent { path: "one.md".to_string() })
    );
}
