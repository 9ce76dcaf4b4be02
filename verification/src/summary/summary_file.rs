use super::file_tree_summarizer::{
    first_below, into_items, lemma_first_below_is_counter, lemma_one_is_counter,
};
use super::numbers::{counted_in_lists, lemma_summary_counted};
use super::{Summarizer, Summary};
use crate::error::{Error, ErrorView};
use crate::paths::{join, parent, path_join, path_parent};
use crate::text::{chars_of, text_of};
use crate::util::{is_counter, lemma_next_is_counter, next_chapter_number, next_number};
use crate::vault::content::{
    as_items, chapters_view, items_view, Chapter, ChapterView, Item, ItemView, Section,
    SectionView,
};
use vstd::prelude::*;

verus! {

/// A character that only spaces a line out.
pub open spec fn is_blank(c: char) -> bool {
    c == ' ' || c == '\t' || c == '\r'
}

/// Where `c` first stands in `text`; the length of `text` where it does not.
pub open spec fn position(text: Seq<char>, c: char) -> nat
    decreases text.len(),
{
    if text.len() == 0 || text[0] == c {
        0
    } else {
        1 + position(text.skip(1), c)
    }
}

/// The lines of `text`: what stands between its newlines. A text has one line more than it
/// has newlines.
pub open spec fn lines_of(text: Seq<char>) -> Seq<Seq<char>>
    decreases text.len(),
{
    let end = position(text, '\n') as int;
    if end >= text.len() {
        seq![text]
    } else {
        seq![text.take(end)] + lines_of(text.skip(end + 1))
    }
}

/// How many blanks `line` begins with.
pub open spec fn leading_blanks(line: Seq<char>) -> nat
    decreases line.len(),
{
    if line.len() > 0 && is_blank(line[0]) {
        1 + leading_blanks(line.skip(1))
    } else {
        0
    }
}

/// How many blanks `line` ends with.
pub open spec fn trailing_blanks(line: Seq<char>) -> nat
    decreases line.len(),
{
    if line.len() > 0 && is_blank(line.last()) {
        1 + trailing_blanks(line.drop_last())
    } else {
        0
    }
}

/// How many `#` `line` begins with.
pub open spec fn leading_hashes(line: Seq<char>) -> nat
    decreases line.len(),
{
    if line.len() > 0 && line[0] == '#' {
        1 + leading_hashes(line.skip(1))
    } else {
        0
    }
}

/// `line` without the blanks at its two ends.
pub open spec fn trimmed(line: Seq<char>) -> Seq<char> {
    let start = leading_blanks(line) as int;
    if start >= line.len() {
        Seq::empty()
    } else {
        line.subrange(start, line.len() - trailing_blanks(line))
    }
}

/// The title and the path of a link `[title](path)`, where `body` is one: a title without
/// `]`, a path without `)`, neither of them empty, and nothing before or behind.
pub open spec fn link_of(body: Seq<char>) -> Option<(Seq<char>, Seq<char>)> {
    let close = position(body, ']') as int;
    if body.len() > 0 && body[0] == '[' && close + 1 < body.len() && body[close + 1] == '(' {
        let rest = body.skip(close + 2);
        let end = position(rest, ')') as int;
        if close > 1 && end > 0 && end + 1 == rest.len() {
            Some((body.subrange(1, close), rest.take(end)))
        } else {
            None
        }
    } else {
        None
    }
}

/// What a line of a summary says.
#[verifier::ext_equal]
pub enum LineView {
    /// Nothing.
    Blank,
    /// `# title`: a section.
    Heading { title: Seq<char> },
    /// `[title](path)`: a chapter without a number.
    Link { title: Seq<char>, path: Seq<char> },
    /// `- [title](path)`, behind `indent` blanks: a numbered chapter. The bullet is `-` or
    /// `*`.
    Bullet { indent: nat, title: Seq<char>, path: Seq<char> },
    /// None of these.
    Invalid,
}

/// What `line` says.
pub open spec fn classify(line: Seq<char>) -> LineView {
    let body = trimmed(line);
    if body.len() == 0 {
        LineView::Blank
    } else if body[0] == '#' {
        let title = trimmed(body.skip(leading_hashes(body) as int));
        if title.len() > 0 {
            LineView::Heading { title }
        } else {
            LineView::Invalid
        }
    } else if body[0] == '[' {
        match link_of(body) {
            Some((title, path)) => LineView::Link { title, path },
            None => LineView::Invalid,
        }
    } else if (body[0] == '-' || body[0] == '*') && body.len() >= 2 && is_blank(body[1]) {
        match link_of(trimmed(body.skip(1))) {
            Some((title, path)) => LineView::Bullet {
                indent: leading_blanks(line),
                title,
                path,
            },
            None => LineView::Invalid,
        }
    } else {
        LineView::Invalid
    }
}

/// A line of a summary, as it was read.
#[derive(Debug, PartialEq)]
pub enum Line {
    Blank,
    Heading { title: String },
    Link { title: String, path: String },
    Bullet { indent: usize, title: String, path: String },
    Invalid,
}

impl View for Line {
    type V = LineView;

    open spec fn view(&self) -> LineView {
        match *self {
            Line::Blank => LineView::Blank,
            Line::Heading { title } => LineView::Heading { title: title@ },
            Line::Link { title, path } => LineView::Link { title: title@, path: path@ },
            Line::Bullet { indent, title, path } => LineView::Bullet {
                indent: indent as nat,
                title: title@,
                path: path@,
            },
            Line::Invalid => LineView::Invalid,
        }
    }
}

pub proof fn lemma_position_bounds(text: Seq<char>, c: char)
    ensures
        position(text, c) <= text.len(),
        position(text, c) < text.len() ==> text[position(text, c) as int] == c,
        forall|i: int| 0 <= i < position(text, c) ==> text[i] != c,
    decreases text.len(),
{
    if text.len() > 0 && text[0] != c {
        let rest = text.skip(1);
        lemma_position_bounds(rest, c);
        assert forall|i: int| 0 <= i < position(text, c) implies text[i] != c by {
            if i > 0 {
                assert(text[i] == rest[i - 1]);
            }
        }
        if position(text, c) < text.len() {
            assert(text[position(text, c) as int] == rest[position(rest, c) as int]);
        }
    }
}

/// The first index of `c` in `text` from `from` on, or the length of `text`.
fn find_from(text: &Vec<char>, from: usize, c: char) -> (at: usize)
    requires
        from <= text.len(),
    ensures
        at == from + position(text@.skip(from as int), c),
        from <= at <= text.len(),
{
    let mut i: usize = from;
    while i < text.len() && text[i] != c
        invariant
            from <= i <= text.len(),
            from + position(text@.skip(from as int), c) == i + position(text@.skip(i as int), c),
        decreases text.len() - i,
    {
        assert(text@.skip(i as int).skip(1) == text@.skip(i + 1));
        i += 1;
    }
    i
}

/// The first index of `c` in `text`, or the length of `text`.
fn find(text: &Vec<char>, c: char) -> (at: usize)
    ensures
        at == position(text@, c),
        at <= text.len(),
{
    assert(text@.skip(0) == text@);
    find_from(text, 0, c)
}

/// The characters of `text` from `from` up to `to`.
fn slice(text: &Vec<char>, from: usize, to: usize) -> (part: Vec<char>)
    requires
        from <= to <= text.len(),
    ensures
        part@ == text@.subrange(from as int, to as int),
{
    let mut part: Vec<char> = Vec::new();
    let mut i: usize = from;
    while i < to
        invariant
            from <= i <= to <= text.len(),
            part@ == text@.subrange(from as int, i as int),
        decreases to - i,
    {
        part.push(text[i]);
        i += 1;
    }
    part
}

fn blank(c: char) -> (is: bool)
    ensures
        is == is_blank(c),
{
    c == ' ' || c == '\t' || c == '\r'
}

fn count_leading_blanks(line: &Vec<char>) -> (count: usize)
    ensures
        count == leading_blanks(line@),
        count <= line.len(),
{
    let mut i: usize = 0;
    assert(line@.skip(0) == line@);
    while i < line.len() && blank(line[i])
        invariant
            i <= line.len(),
            leading_blanks(line@) == i + leading_blanks(line@.skip(i as int)),
        decreases line.len() - i,
    {
        assert(line@.skip(i as int).skip(1) == line@.skip(i + 1));
        i += 1;
    }
    i
}

fn count_trailing_blanks(line: &Vec<char>) -> (count: usize)
    ensures
        count == trailing_blanks(line@),
        count <= line.len(),
{
    let mut i: usize = line.len();
    assert(line@.take(i as int) == line@);
    while i > 0 && blank(line[i - 1])
        invariant
            i <= line.len(),
            trailing_blanks(line@) == (line.len() - i) + trailing_blanks(line@.take(i as int)),
        decreases i,
    {
        assert(line@.take(i as int).drop_last() == line@.take(i - 1));
        i -= 1;
    }
    line.len() - i
}

fn count_leading_hashes(line: &Vec<char>) -> (count: usize)
    ensures
        count == leading_hashes(line@),
        count <= line.len(),
{
    let mut i: usize = 0;
    assert(line@.skip(0) == line@);
    while i < line.len() && line[i] == '#'
        invariant
            i <= line.len(),
            leading_hashes(line@) == i + leading_hashes(line@.skip(i as int)),
        decreases line.len() - i,
    {
        assert(line@.skip(i as int).skip(1) == line@.skip(i + 1));
        i += 1;
    }
    i
}

/// A line that is not all blanks ends in a character that is none, behind the blanks that
/// it begins with.
proof fn lemma_blanks_apart(line: Seq<char>)
    requires
        leading_blanks(line) < line.len(),
    ensures
        leading_blanks(line) + trailing_blanks(line) < line.len(),
    decreases line.len(),
{
    if is_blank(line.last()) {
        let front = line.drop_last();
        lemma_leading_blanks_of_front(line);
        lemma_blanks_apart(front);
    } else {
    }
}

/// Dropping a blank at the end of a line that is not all blanks leaves the blanks at the
/// start as they are.
proof fn lemma_leading_blanks_of_front(line: Seq<char>)
    requires
        leading_blanks(line) < line.len(),
        is_blank(line.last()),
    ensures
        leading_blanks(line.drop_last()) == leading_blanks(line),
        leading_blanks(line.drop_last()) < line.drop_last().len(),
    decreases line.len(),
{
    let front = line.drop_last();
    if is_blank(line[0]) {
        let rest = line.skip(1);
        assert(rest.len() > 0);
        assert(rest.last() == line.last());
        lemma_leading_blanks_of_front(rest);
        assert(front.skip(1) == rest.drop_last());
        assert(front[0] == line[0]);
    } else {
        assert(line.len() > 1);
        assert(front[0] == line[0]);
    }
}

fn trim(line: &Vec<char>) -> (body: Vec<char>)
    ensures
        body@ == trimmed(line@),
{
    let start = count_leading_blanks(line);
    if start >= line.len() {
        Vec::new()
    } else {
        let end = count_trailing_blanks(line);
        proof {
            lemma_blanks_apart(line@);
        }
        slice(line, start, line.len() - end)
    }
}

/// The title and the path of the link that `body` is, if it is one.
fn read_link(body: &Vec<char>) -> (link: Option<(Vec<char>, Vec<char>)>)
    ensures
        match link_of(body@) {
            Some((title, path)) => link matches Some(found) && found.0@ == title && found.1@
                == path,
            None => link is None,
        },
{
    let close = find(body, ']');
    if body.len() > 0 && body[0] == '[' && close < body.len() - 1 && body[close + 1] == '(' {
        let rest = slice(body, close + 2, body.len());
        let end = find(&rest, ')');
        if close > 1 && end > 0 && end < rest.len() && end + 1 == rest.len() {
            Some((slice(body, 1, close), slice(&rest, 0, end)))
        } else {
            None
        }
    } else {
        None
    }
}

/// What each line says, in order.
pub open spec fn classified(lines: Seq<Seq<char>>) -> Seq<LineView> {
    Seq::new(lines.len(), |i: int| classify(lines[i]))
}

/// The index of the first line that is invalid.
pub open spec fn first_invalid(lines: Seq<LineView>) -> Option<nat>
    decreases lines.len(),
{
    if lines.len() == 0 {
        None
    } else if lines[0] is Invalid {
        Some(0)
    } else {
        match first_invalid(lines.skip(1)) {
            Some(at) => Some(at + 1),
            None => None,
        }
    }
}

/// The views of `lines`, in order.
pub open spec fn lines_view(lines: Seq<Line>) -> Seq<LineView> {
    Seq::new(lines.len(), |i: int| lines[i]@)
}

/// The first invalid line is the one before which no line is invalid.
pub proof fn lemma_first_invalid(lines: Seq<LineView>, at: int)
    requires
        0 <= at <= lines.len(),
        forall|i: int| 0 <= i < at ==> !(lines[i] is Invalid),
        at < lines.len() ==> lines[at] is Invalid,
    ensures
        first_invalid(lines) == (if at < lines.len() {
            Some(at as nat)
        } else {
            None
        }),
    decreases lines.len(),
{
    if lines.len() > 0 && at > 0 {
        let rest = lines.skip(1);
        assert forall|i: int| 0 <= i < at - 1 implies !(rest[i] is Invalid) by {
            assert(rest[i] == lines[i + 1]);
        }
        lemma_first_invalid(rest, at - 1);
    }
}

/// An invalid line is not empty.
pub proof fn lemma_invalid_line_not_empty(line: Seq<char>)
    requires
        classify(line) is Invalid,
    ensures
        line.len() > 0,
{
}

/// What `line` says.
fn read_line(line: &Vec<char>) -> (read: Line)
    ensures
        read@ == classify(line@),
{
    let body = trim(line);
    if body.len() == 0 {
        Line::Blank
    } else if body[0] == '#' {
        let hashes = count_leading_hashes(&body);
        let behind = slice(&body, hashes, body.len());
        let title = trim(&behind);
        if title.len() > 0 {
            Line::Heading { title: text_of(&title) }
        } else {
            Line::Invalid
        }
    } else if body[0] == '[' {
        match read_link(&body) {
            Some((title, path)) => Line::Link { title: text_of(&title), path: text_of(&path) },
            None => Line::Invalid,
        }
    } else if (body[0] == '-' || body[0] == '*') && body.len() >= 2 && blank(body[1]) {
        let behind = slice(&body, 1, body.len());
        let rest = trim(&behind);
        match read_link(&rest) {
            Some((title, path)) => Line::Bullet {
                indent: count_leading_blanks(line),
                title: text_of(&title),
                path: text_of(&path),
            },
            None => Line::Invalid,
        }
    } else {
        Line::Invalid
    }
}

/// The characters of each line, in order.
pub open spec fn rows_view(rows: Seq<Vec<char>>) -> Seq<Seq<char>> {
    Seq::new(rows.len(), |i: int| rows[i]@)
}

/// The lines of `text`.
fn split_lines(text: &Vec<char>) -> (rows: Vec<Vec<char>>)
    ensures
        rows_view(rows@) == lines_of(text@),
        forall|k: int| 0 <= k < rows.len() && rows@[k].len() > 0 ==> k < text.len(),
{
    let mut rows: Vec<Vec<char>> = Vec::new();
    let mut start: usize = 0;
    let mut end: usize = find_from(text, 0, '\n');
    assert(text@.skip(0) == text@);
    while end < text.len()
        invariant
            start <= end <= text.len(),
            end == start + position(text@.skip(start as int), '\n'),
            rows.len() <= start,
            lines_of(text@) == rows_view(rows@) + lines_of(text@.skip(start as int)),
        decreases text.len() - start,
    {
        let ghost rest = text@.skip(start as int);
        rows.push(slice(text, start, end));
        proof {
            assert(rest.take(end - start) == text@.subrange(start as int, end as int));
            assert(rest.skip(end - start + 1) == text@.skip(end + 1));
        }
        start = end + 1;
        end = find_from(text, start, '\n');
    }
    rows.push(slice(text, start, text.len()));
    rows
}

/// What each line of `text` says; or the number of the first line that is invalid.
fn read_lines(text: &Vec<char>) -> (lines: Result<Vec<Line>, Error>)
    ensures
        match first_invalid(classified(lines_of(text@))) {
            Some(at) => lines matches Err(error) && error@ == (ErrorView::InvalidSummaryFormat {
                line: at + 1,
            }),
            None => lines matches Ok(read) && lines_view(read@) == classified(lines_of(text@)),
        },
{
    let rows = split_lines(text);
    let ghost all = classified(lines_of(text@));
    let mut lines: Vec<Line> = Vec::new();
    let mut i: usize = 0;
    while i < rows.len()
        invariant
            i <= rows.len(),
            rows_view(rows@) == lines_of(text@),
            all == classified(lines_of(text@)),
            forall|k: int| 0 <= k < rows.len() && rows@[k].len() > 0 ==> k < text.len(),
            lines.len() == i,
            forall|k: int| 0 <= k < i ==> lines@[k]@ == all[k] && !(all[k] is Invalid),
        decreases rows.len() - i,
    {
        let line = read_line(&rows[i]);
        match line {
            Line::Invalid => {
                proof {
                    lemma_invalid_line_not_empty(rows@[i as int]@);
                    lemma_first_invalid(all, i as int);
                }
                return Err(Error::InvalidSummaryFormat { line: i + 1 });
            },
            _ => {},
        }
        lines.push(line);
        i += 1;
    }
    proof {
        lemma_first_invalid(all, all.len() as int);
    }
    Ok(lines)
}

/// A bullet of a list: how far it is indented, and the link behind it.
#[derive(Debug, PartialEq)]
pub struct Bullet {
    pub indent: usize,
    pub title: String,
    pub path: String,
}

/// What a [`Bullet`] is in contracts.
#[verifier::ext_equal]
pub struct BulletView {
    pub indent: nat,
    pub title: Seq<char>,
    pub path: Seq<char>,
}

impl View for Bullet {
    type V = BulletView;

    open spec fn view(&self) -> BulletView {
        BulletView { indent: self.indent as nat, title: self.title@, path: self.path@ }
    }
}

/// The views of `bullets`, in order.
pub open spec fn bullets_view(bullets: Seq<Bullet>) -> Seq<BulletView> {
    Seq::new(bullets.len(), |i: int| bullets[i]@)
}

/// How many bullets at the start of `bullets` are indented by more than `indent`.
pub open spec fn deeper_run(bullets: Seq<BulletView>, indent: nat) -> nat
    decreases bullets.len(),
{
    if bullets.len() > 0 && bullets[0].indent > indent {
        1 + deeper_run(bullets.skip(1), indent)
    } else {
        0
    }
}

pub proof fn lemma_deeper_run_bounds(bullets: Seq<BulletView>, indent: nat)
    ensures
        deeper_run(bullets, indent) <= bullets.len(),
    decreases bullets.len(),
{
    if bullets.len() > 0 && bullets[0].indent > indent {
        lemma_deeper_run_bounds(bullets.skip(1), indent);
    }
}

/// The chapter that a link stands for: it has no number and nothing below it, and its
/// content is the link's path, taken from `directory`.
pub open spec fn link_chapter(title: Seq<char>, path: Seq<char>, directory: Seq<char>)
    -> ChapterView {
    ChapterView {
        title,
        number: Seq::empty(),
        content: path_join(directory, path),
        subchapters: Seq::empty(),
    }
}

/// The chapters of a list, the first of them numbered `number`. A bullet is a chapter. The
/// bullets behind it that are indented by more than it, as far as they go on without a
/// break, are the list of the chapters below it, and they are numbered from the chapter's
/// number with `.1` behind it.
pub open spec fn list_chapters(bullets: Seq<BulletView>, number: Seq<char>, directory: Seq<char>)
    -> Seq<ChapterView>
    decreases bullets.len(),
{
    if bullets.len() == 0 {
        Seq::empty()
    } else {
        let below = deeper_run(bullets.skip(1), bullets[0].indent) as int;
        proof {
            lemma_deeper_run_bounds(bullets.skip(1), bullets[0].indent);
        }
        seq![
            ChapterView {
                title: bullets[0].title,
                number,
                content: path_join(directory, bullets[0].path),
                subchapters: as_items(
                    list_chapters(bullets.subrange(1, 1 + below), first_below(number), directory),
                ),
            },
        ] + list_chapters(bullets.skip(1 + below), next_number(number), directory)
    }
}

/// How many lines the list at the start of `lines` takes: bullets and blank lines, up to the
/// first line that is neither.
pub open spec fn list_len(lines: Seq<LineView>) -> nat
    decreases lines.len(),
{
    if lines.len() > 0 && (lines[0] is Bullet || lines[0] is Blank) {
        1 + list_len(lines.skip(1))
    } else {
        0
    }
}

/// The bullets of the list at the start of `lines`.
pub open spec fn leading_bullets(lines: Seq<LineView>) -> Seq<BulletView>
    decreases lines.len(),
{
    if lines.len() == 0 {
        Seq::empty()
    } else {
        match lines[0] {
            LineView::Bullet { indent, title, path } => seq![BulletView { indent, title, path }]
                + leading_bullets(lines.skip(1)),
            LineView::Blank => leading_bullets(lines.skip(1)),
            _ => Seq::empty(),
        }
    }
}

pub proof fn lemma_list_len_bounds(lines: Seq<LineView>)
    ensures
        list_len(lines) <= lines.len(),
    decreases lines.len(),
{
    if lines.len() > 0 && (lines[0] is Bullet || lines[0] is Blank) {
        lemma_list_len_bounds(lines.skip(1));
    }
}

/// The items that the lines of a summary stand for, in the order of the lines. A heading is
/// a section. A link is a chapter without a number. A list is its chapters, numbered from
/// `1`: each list counts anew. Blank lines stand for nothing.
pub open spec fn summary_items(lines: Seq<LineView>, directory: Seq<char>) -> Seq<ItemView>
    decreases lines.len(),
{
    if lines.len() == 0 {
        Seq::empty()
    } else {
        match lines[0] {
            LineView::Heading { title } => seq![ItemView::Section(SectionView { title })]
                + summary_items(lines.skip(1), directory),
            LineView::Link { title, path } => seq![
                ItemView::Chapter(link_chapter(title, path, directory)),
            ] + summary_items(lines.skip(1), directory),
            LineView::Bullet { .. } => {
                proof {
                    lemma_list_len_bounds(lines);
                }
                as_items(list_chapters(leading_bullets(lines), "1"@, directory)) + summary_items(
                    lines.skip(list_len(lines) as int),
                    directory,
                )
            },
            _ => summary_items(lines.skip(1), directory),
        }
    }
}

/// The directory against which the links of the summary at `path` are read: the one that
/// holds the summary.
pub open spec fn summary_directory(path: Seq<char>) -> Seq<char> {
    match path_parent(path) {
        Some(directory) => directory,
        None => Seq::empty(),
    }
}

/// The table of contents that the summary `text` at `path` describes; or the first line of
/// it that is invalid, counted from 1.
pub open spec fn parse_summary(text: Seq<char>, path: Seq<char>) -> Result<
    Seq<ItemView>,
    ErrorView,
> {
    let lines = classified(lines_of(text));
    match first_invalid(lines) {
        Some(at) => Err(ErrorView::InvalidSummaryFormat { line: at + 1 }),
        None => Ok(summary_items(lines, summary_directory(path))),
    }
}

/// Makes a table of contents from a summary: a text in which each line is a heading
/// (`# title`), a link (`[title](path)`), a bullet with a link, or blank.
pub struct SummaryFileSummarizer {
    /// Where the summary lies.
    pub path: String,
    /// What the summary holds.
    pub text: String,
}

impl SummaryFileSummarizer {
    pub fn new(path: &str, text: &str) -> (summarizer: Self)
        ensures
            summarizer.path@ == path@,
            summarizer.text@ == text@,
    {
        Self { path: path.to_owned(), text: text.to_owned() }
    }

    /// The items of the summary, in the order of its lines. Every list in it counts from
    /// `1`.
    pub fn find_items(&self) -> (items: Result<Vec<Item>, Error>)
        ensures
            match parse_summary(self.text@, self.path@) {
                Ok(wanted) => items matches Ok(found) && items_view(found@) == wanted,
                Err(error) => items matches Err(found) && found@ == error,
            },
            items matches Ok(found) ==> counted_in_lists(items_view(found@)),
    {
        proof {
            if parse_summary(self.text@, self.path@) is Ok {
                lemma_summary_counted(self.text@, self.path@);
            }
        }
        let text = chars_of(self.text.as_str());
        let lines = read_lines(&text)?;
        let directory = self.directory();
        Ok(items_of(&lines, directory.as_str()))
    }

    /// The chapter that a link stands for.
    pub fn parse_link(&self, title: &str, path: &str) -> (chapter: Chapter)
        ensures
            chapter@ == link_chapter(title@, path@, summary_directory(self.path@)),
    {
        let directory = self.directory();
        let chapter = link_to(title, path, directory.as_str());
        chapter
    }

    /// The chapters of a list, the first of them numbered `chapter_number`.
    pub fn parse_list(&self, bullets: &Vec<Bullet>, chapter_number: &str) -> (chapters: Vec<
        Chapter,
    >)
        requires
            is_counter(chapter_number@),
        ensures
            chapters_view(chapters@) == list_chapters(
                bullets_view(bullets@),
                chapter_number@,
                summary_directory(self.path@),
            ),
    {
        let directory = self.directory();
        assert(bullets_view(bullets@).subrange(0, bullets.len() as int) == bullets_view(
            bullets@,
        ));
        list_of(bullets, 0, bullets.len(), chapter_number, directory.as_str())
    }

    fn directory(&self) -> (directory: String)
        ensures
            directory@ == summary_directory(self.path@),
    {
        match parent(self.path.as_str()) {
            Some(directory) => directory,
            None => String::new(),
        }
    }
}

impl Summarizer for SummaryFileSummarizer {
    fn summarize(&self) -> (summary: Result<Summary, Error>)
        ensures
            match parse_summary(self.text@, self.path@) {
                Ok(wanted) => summary matches Ok(found) && found@ == wanted,
                Err(error) => summary matches Err(found) && found@ == error,
            },
    {
        match self.find_items() {
            Ok(items) => Ok(Summary::new(items)),
            Err(error) => Err(error),
        }
    }
}

fn link_to(title: &str, path: &str, directory: &str) -> (chapter: Chapter)
    ensures
        chapter@ == link_chapter(title@, path@, directory@),
{
    let chapter = Chapter {
        title: title.to_owned(),
        number: String::new(),
        content: join(directory, path),
        subchapters: Vec::new(),
    };
    assert(items_view(chapter.subchapters@) =~= Seq::<ItemView>::empty());
    chapter
}

fn list_of(bullets: &Vec<Bullet>, from: usize, to: usize, number: &str, directory: &str) -> (chapters:
    Vec<Chapter>)
    requires
        from <= to <= bullets.len(),
        is_counter(number@),
    ensures
        chapters_view(chapters@) == list_chapters(
            bullets_view(bullets@).subrange(from as int, to as int),
            number@,
            directory@,
        ),
    decreases to - from,
{
    let ghost all = bullets_view(bullets@);
    let mut chapters: Vec<Chapter> = Vec::new();
    let mut counter: String = number.to_owned();
    let mut i: usize = from;
    while i < to
        invariant
            from <= i <= to <= bullets.len(),
            all == bullets_view(bullets@),
            is_counter(counter@),
            list_chapters(all.subrange(from as int, to as int), number@, directory@)
                == chapters_view(chapters@) + list_chapters(
                all.subrange(i as int, to as int),
                counter@,
                directory@,
            ),
        decreases to - i,
    {
        let ghost rest = all.subrange(i as int, to as int);
        let ghost indent = all[i as int].indent;
        let mut end: usize = i + 1;
        assert(rest.skip(1) == all.subrange(i + 1, to as int));
        while end < to && bullets[end].indent > bullets[i].indent
            invariant
                i < end <= to <= bullets.len(),
                all == bullets_view(bullets@),
                indent == all[i as int].indent,
                deeper_run(all.subrange(i + 1, to as int), indent) == (end - i - 1) + deeper_run(
                    all.subrange(end as int, to as int),
                    indent,
                ),
            decreases to - end,
        {
            assert(all.subrange(end as int, to as int).skip(1) == all.subrange(end + 1, to as int));
            end += 1;
        }
        proof {
            assert(rest.subrange(1, end - i) == all.subrange(i + 1, end as int));
            assert(rest.skip(end - i) == all.subrange(end as int, to as int));
            lemma_first_below_is_counter(counter@);
            lemma_next_is_counter(counter@);
        }
        let below = counter.clone().concat(".1");
        let subchapters = list_of(bullets, i + 1, end, below.as_str(), directory);
        let chapter = Chapter {
            title: bullets[i].title.clone(),
            number: counter.clone(),
            content: join(directory, bullets[i].path.as_str()),
            subchapters: into_items(subchapters),
        };
        chapters.push(chapter);
        counter = next_chapter_number(counter.as_str());
        i = end;
    }
    chapters
}

/// The items that `lines` stand for.
fn items_of(lines: &Vec<Line>, directory: &str) -> (items: Vec<Item>)
    ensures
        items_view(items@) == summary_items(lines_view(lines@), directory@),
{
    let ghost all = lines_view(lines@);
    let mut items: Vec<Item> = Vec::new();
    let mut i: usize = 0;
    assert(all.skip(0) == all);
    while i < lines.len()
        invariant
            i <= lines.len(),
            all == lines_view(lines@),
            summary_items(all, directory@) == items_view(items@) + summary_items(
                all.skip(i as int),
                directory@,
            ),
        decreases lines.len() - i,
    {
        let ghost rest = all.skip(i as int);
        assert(rest.skip(1) == all.skip(i + 1));
        match &lines[i] {
            Line::Heading { title } => {
                let item = Item::Section(Section { title: title.clone() });
                items.push(item);
                i += 1;
            },
            Line::Link { title, path } => {
                let item = Item::Chapter(link_to(title.as_str(), path.as_str(), directory));
                items.push(item);
                i += 1;
            },
            Line::Bullet { .. } => {
                let mut bullets: Vec<Bullet> = Vec::new();
                let mut end: usize = i;
                while end < lines.len() && is_listed(&lines[end])
                    invariant
                        i <= end <= lines.len(),
                        all == lines_view(lines@),
                        rest == all.skip(i as int),
                        leading_bullets(rest) == bullets_view(bullets@) + leading_bullets(
                            all.skip(end as int),
                        ),
                        list_len(rest) == (end - i) + list_len(all.skip(end as int)),
                    decreases lines.len() - end,
                {
                    let ghost here = all.skip(end as int);
                    assert(here.skip(1) == all.skip(end + 1));
                    match &lines[end] {
                        Line::Bullet { indent, title, path } => {
                            let bullet = Bullet {
                                indent: *indent,
                                title: title.clone(),
                                path: path.clone(),
                            };
                            bullets.push(bullet);
                        },
                        _ => {},
                    }
                    end += 1;
                }
                proof {
                    assert(rest.skip(end - i) == all.skip(end as int));
                    assert(bullets_view(bullets@).subrange(0, bullets.len() as int)
                        == bullets_view(bullets@));
                    lemma_one_is_counter();
                }
                let chapters = list_of(&bullets, 0, bullets.len(), "1", directory);
                let mut listed = into_items(chapters);
                items.append(&mut listed);
                i = end;
            },
            _ => {
                i += 1;
            },
        }
    }
    items
}

/// Whether a line belongs to a list that has begun: a bullet, or blank.
fn is_listed(line: &Line) -> (listed: bool)
    ensures
        listed == (line@ is Bullet || line@ is Blank),
{
    match line {
        Line::Bullet { .. } => true,
        Line::Blank => true,
        _ => false,
    }
}

} // verus!
