use cahlter::error::Error;
use cahlter::summary::{Bullet, Summarizer, SummaryFileSummarizer};
use cahlter::{Chapter, Item, Section};

fn summarizer(text: &str) -> SummaryFileSummarizer {
    SummaryFileSummarizer::new("/vault/src/summary.md", text)
}

fn leaf(title: &str, number: &str, content: &str) -> Chapter {
    Chapter::new(title, number, content, vec![])
}

#[test]
fn test_find_chapters() {
    let expected = vec![
        Item::from(Chapter::new("Intro", "", "/vault/src/./intro.md", vec![])),
        Item::from(Chapter::new("Preface", "", "/vault/src/./preface.md", vec![])),
        Item::from(Chapter::new("Chapter 1", "1", "/vault/src/./chapter1.md", vec![])),
        Item::from(Section::new("Section")),
        Item::from(Chapter::new("Chapter 2", "1", "/vault/src/./chapter2.md", vec![])),
    ];

    let summarizer = summarizer(
        r#"
[Intro](./intro.md)
[Preface](./preface.md)

- [Chapter 1](./chapter1.md)

# Section

- [Chapter 2](./chapter2.md)
"#,
    );

    assert_eq!(expected, summarizer.find_items().unwrap());
}

#[test]
fn test_find_chapters_nested() {
    let expected = vec![
        Item::from(Chapter::new(
            "Chapter 1",
            "1",
            "/vault/src/./chapter1.md",
            vec![
                Item::from(Chapter::new(
                    "Chapter 1.1",
                    "1.1",
                    "/vault/src/./chapter1/chapter1.1.md",
                    vec![Item::from(Chapter::new(
                        "Chapter 1.1.1",
                        "1.1.1",
                        "/vault/src/./chapter1/chapter1.1/chapter1.1.1.md",
                        vec![],
                    ))],
                )),
                Item::from(Chapter::new(
                    "Chapter 1.2",
                    "1.2",
                    "/vault/src/./chapter1/chapter1.2.md",
                    vec![],
                )),
            ],
        )),
        Item::from(Chapter::new("Chapter 2", "2", "/vault/src/./chapter2.md", vec![])),
        Item::from(Section::new("Section")),
    ];

    let summarizer = summarizer(
        r#"
- [Chapter 1](./chapter1.md)
    - [Chapter 1.1](./chapter1/chapter1.1.md)
        - [Chapter 1.1.1](./chapter1/chapter1.1/chapter1.1.1.md)
    - [Chapter 1.2](./chapter1/chapter1.2.md)

- [Chapter 2](./chapter2.md)

# Section
"#,
    );

    assert_eq!(expected, summarizer.find_items().unwrap());
}

#[test]
fn it_should_count_each_list_from_one() {
    let summarizer =
        summarizer("[Intro](./intro.md)\n\n- [Ch1](./ch1.md)\n\n# Section\n\n- [Ch2](./ch2.md)");

    assert_eq!(
        summarizer.summarize().unwrap().items,
        vec![
            Item::from(leaf("Intro", "", "/vault/src/./intro.md")),
            Item::from(leaf("Ch1", "1", "/vault/src/./ch1.md")),
            Item::from(Section::new("Section")),
            Item::from(leaf("Ch2", "1", "/vault/src/./ch2.md")),
        ]
    );
}

#[test]
fn it_should_count_a_list_anew_behind_a_link() {
    let summarizer = summarizer("- [A](a.md)\n- [B](b.md)\n[Appendix](appendix.md)\n- [C](c.md)");

    assert_eq!(
        summarizer.find_items().unwrap(),
        vec![
            Item::from(leaf("A", "1", "/vault/src/a.md")),
            Item::from(leaf("B", "2", "/vault/src/b.md")),
            Item::from(leaf("Appendix", "", "/vault/src/appendix.md")),
            Item::from(leaf("C", "1", "/vault/src/c.md")),
        ]
    );
}

#[test]
fn it_should_number_nested_bullets_by_their_depth() {
    let summarizer = summarizer(
        "- [One](one.md)\n  - [First](one/first.md)\n  - [Second](one/second.md)\n  - [Third](one/third.md)\n- [Two](two.md)\n  - [Only](two/only.md)\n",
    );

    assert_eq!(
        summarizer.find_items().unwrap(),
        vec![
            Item::from(Chapter::new(
                "One",
                "1",
                "/vault/src/one.md",
                vec![
                    Item::from(leaf("First", "1.1", "/vault/src/one/first.md")),
                    Item::from(leaf("Second", "1.2", "/vault/src/one/second.md")),
                    Item::from(leaf("Third", "1.3", "/vault/src/one/third.md")),
                ],
            )),
            Item::from(Chapter::new(
                "Two",
                "2",
                "/vault/src/two.md",
                vec![Item::from(leaf("Only", "2.1", "/vault/src/two/only.md"))],
            )),
        ]
    );
}

#[test]
fn it_should_nest_a_bullet_below_the_last_one_that_is_indented_less() {
    let summarizer = summarizer(
        "- [A](a.md)\n        - [Deep](deep.md)\n    - [Less](less.md)\n      - [Below](below.md)\n- [B](b.md)",
    );

    assert_eq!(
        summarizer.find_items().unwrap(),
        vec![
            Item::from(Chapter::new(
                "A",
                "1",
                "/vault/src/a.md",
                vec![
                    Item::from(leaf("Deep", "1.1", "/vault/src/deep.md")),
                    Item::from(Chapter::new(
                        "Less",
                        "1.2",
                        "/vault/src/less.md",
                        vec![Item::from(leaf("Below", "1.2.1", "/vault/src/below.md"))],
                    )),
                ],
            )),
            Item::from(leaf("B", "2", "/vault/src/b.md")),
        ]
    );
}

#[test]
fn it_should_read_stars_tabs_and_carriage_returns() {
    let summarizer = summarizer("* [A](a.md)\r\n\t* [B](b.md)\r\n#   Notes  \r\n  [C](c.md)  \r\n");

    assert_eq!(
        summarizer.find_items().unwrap(),
        vec![
            Item::from(Chapter::new(
                "A",
                "1",
                "/vault/src/a.md",
                vec![Item::from(leaf("B", "1.1", "/vault/src/b.md"))],
            )),
            Item::from(Section::new("Notes")),
            Item::from(leaf("C", "", "/vault/src/c.md")),
        ]
    );
}

#[test]
fn it_should_read_an_empty_summary_as_nothing() {
    assert_eq!(summarizer("").find_items().unwrap(), vec![]);
    assert_eq!(summarizer("\n\n   \n").find_items().unwrap(), vec![]);
}

#[test]
fn it_should_read_headings_of_any_level() {
    assert_eq!(
        summarizer("## Part two\n###Third").find_items().unwrap(),
        vec![Item::from(Section::new("Part two")), Item::from(Section::new("Third"))]
    );
}

#[test]
fn it_should_reject_a_line_that_is_no_part_of_a_summary() {
    assert_eq!(
        summarizer("# Title\n\nsome words\n- [A](a.md)").find_items(),
        Err(Error::InvalidSummaryFormat { line: 3 })
    );
    assert_eq!(summarizer("words").summarize(), Err(Error::InvalidSummaryFormat { line: 1 }));
}

#[test]
fn it_should_reject_malformed_links_and_bullets() {
    let lines = vec![
        "[Title]",
        "[Title](",
        "[Title]()",
        "[](path.md)",
        "[Title] (path.md)",
        "[Title](path.md) trailing",
        "[Title](pa)th.md)",
        "- Title",
        "-[Title](path.md)",
        "- [Title](path.md",
        "-",
        "#",
        "#   ",
        "+ [Title](path.md)",
    ];

    for line in lines.iter() {
        let text = format!("[Fine](fine.md)\n{}\n", line);

        assert_eq!(
            summarizer(&text).find_items(),
            Err(Error::InvalidSummaryFormat { line: 2 }),
            "{}",
            line
        );
    }
}

#[test]
fn it_should_report_the_first_invalid_line() {
    assert_eq!(
        summarizer("\n\n[A](a.md)\n?\n!\n").find_items(),
        Err(Error::InvalidSummaryFormat { line: 4 })
    );
}

#[test]
fn it_should_take_links_from_the_directory_of_the_summary() {
    let nested = SummaryFileSummarizer::new("docs/guide/SUMMARY.MD", "[A](a.md)");
    let bare = SummaryFileSummarizer::new("summary.md", "[A](a.md)");
    let absolute = SummaryFileSummarizer::new("/vault/summary.md", "[A](/elsewhere/a.md)");

    assert_eq!(
        nested.find_items().unwrap(),
        vec![Item::from(leaf("A", "", "docs/guide/a.md"))]
    );
    assert_eq!(bare.find_items().unwrap(), vec![Item::from(leaf("A", "", "a.md"))]);
    assert_eq!(
        absolute.find_items().unwrap(),
        vec![Item::from(leaf("A", "", "/elsewhere/a.md"))]
    );
}

#[test]
fn it_should_make_an_unnumbered_chapter_of_a_link() {
    let summarizer = summarizer("");

    assert_eq!(
        summarizer.parse_link("Intro", "./intro.md"),
        leaf("Intro", "", "/vault/src/./intro.md")
    );
}

#[test]
fn it_should_make_the_chapters_of_a_list() {
    let summarizer = summarizer("");
    let bullets = vec![
        Bullet { indent: 0, title: "A".to_string(), path: "a.md".to_string() },
        Bullet { indent: 2, title: "B".to_string(), path: "b.md".to_string() },
        Bullet { indent: 0, title: "C".to_string(), path: "c.md".to_string() },
    ];

    assert_eq!(
        summarizer.parse_list(&bullets, "3.9"),
        vec![
            Chapter::new(
                "A",
                "3.9",
                "/vault/src/a.md",
                vec![Item::from(leaf("B", "3.9.1", "/vault/src/b.md"))],
            ),
            leaf("C", "3.10", "/vault/src/c.md"),
        ]
    );
}

#[test]
fn it_should_keep_brackets_inside_a_path_and_parentheses_inside_a_title() {
    assert_eq!(
        summarizer("[A (draft)](notes[1].md)").find_items().unwrap(),
        vec![Item::from(leaf("A (draft)", "", "/vault/src/notes[1].md"))]
    );
}
