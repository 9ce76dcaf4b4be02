use super::file_tree_summarizer::{
    directory_chapter, entry_chapter, first_below, is_chapter_entry, tree_chapters,
    DirectoryView, EntryView,
};
use super::summary_file::{
    classified, deeper_run, first_invalid, leading_bullets, lemma_deeper_run_bounds,
    lemma_list_len_bounds, lines_of, list_chapters, list_len, parse_summary, summary_directory,
    summary_items, BulletView, LineView,
};
use crate::util::{
    is_dotted_number, lemma_next_is_dotted_number, next_number, nth_number,
};
use crate::vault::content::{as_items, ChapterView, ItemView};
use vstd::prelude::*;

verus! {

/// The items are chapters that are numbered one after the other from `number` on, and the
/// chapters below each of them in the same way from the chapter's own number with `.1`
/// behind it.
pub open spec fn numbered_from(items: Seq<ItemView>, number: Seq<char>) -> bool
    decreases items,
{
    forall|i: int|
        0 <= i < items.len() ==> match #[trigger] items[i] {
            ItemView::Chapter(chapter) => chapter.number == nth_number(number, i as nat)
                && numbered_from(chapter.subchapters, first_below(chapter.number)),
            ItemView::Section(_) => false,
        }
}

/// Counting on from the next number is counting one step further.
pub proof fn lemma_nth_number_shift(number: Seq<char>, steps: nat)
    ensures
        nth_number(next_number(number), steps) == nth_number(number, steps + 1),
    decreases steps,
{
    if steps > 0 {
        lemma_nth_number_shift(number, (steps - 1) as nat);
        assert(nth_number(number, steps + 1) == next_number(nth_number(number, steps)));
    } else {
        assert(nth_number(number, 0) == number);
        assert(nth_number(number, 1) == next_number(nth_number(number, 0)));
    }
}

/// A chapter numbered `number`, followed by items numbered from the next number on, makes
/// items numbered from `number` on.
proof fn lemma_numbered_cons(first: ChapterView, rest: Seq<ItemView>, number: Seq<char>)
    requires
        first.number == number,
        numbered_from(first.subchapters, first_below(number)),
        numbered_from(rest, next_number(number)),
    ensures
        numbered_from(seq![ItemView::Chapter(first)] + rest, number),
{
    let items = seq![ItemView::Chapter(first)] + rest;
    assert forall|i: int| 0 <= i < items.len() implies match #[trigger] items[i] {
        ItemView::Chapter(chapter) => chapter.number == nth_number(number, i as nat)
            && numbered_from(chapter.subchapters, first_below(chapter.number)),
        ItemView::Section(_) => false,
    } by {
        if i > 0 {
            assert(items[i] == rest[i - 1]);
            lemma_nth_number_shift(number, (i - 1) as nat);
        }
    }
}

/// The items for the chapters of two lists are those of the first list, then those of the
/// second.
proof fn lemma_as_items_cons(first: ChapterView, rest: Seq<ChapterView>)
    ensures
        as_items(seq![first] + rest) == seq![ItemView::Chapter(first)] + as_items(rest),
{
    assert(as_items(seq![first] + rest) =~= seq![ItemView::Chapter(first)] + as_items(rest));
}

/// The chapters that a file tree is summarized to are numbered in the order of the listing:
/// those of one directory one after the other from the number that the first of them got,
/// those below a chapter from the chapter's number with `.1` behind it.
pub proof fn lemma_tree_chapters_numbered(
    entries: Seq<EntryView>,
    number: Seq<char>,
    directory: Seq<char>,
)
    requires
        tree_chapters(entries, number, directory) is Ok,
    ensures
        numbered_from(as_items(tree_chapters(entries, number, directory)->Ok_0), number),
    decreases entries, 2int,
{
    if entries.len() == 0 {
        assert(as_items(Seq::<ChapterView>::empty()) =~= Seq::<ItemView>::empty());
    } else {
        match entry_chapter(entries[0], number, directory) {
            Err(_) => {},
            Ok(None) => {
                lemma_tree_chapters_numbered(entries.skip(1), number, directory);
            },
            Ok(Some(chapter)) => {
                let rest = tree_chapters(entries.skip(1), next_number(number), directory)->Ok_0;
                lemma_tree_chapters_numbered(entries.skip(1), next_number(number), directory);
                lemma_entry_chapter_numbered(entries[0], number, directory);
                lemma_numbered_cons(chapter, as_items(rest), number);
                lemma_as_items_cons(chapter, rest);
            },
        }
    }
}

/// The same for the chapter of one entry.
pub proof fn lemma_entry_chapter_numbered(
    entry: EntryView,
    number: Seq<char>,
    directory: Seq<char>,
)
    requires
        entry_chapter(entry, number, directory) matches Ok(Some(_)),
    ensures
        entry_chapter(entry, number, directory)->Ok_0->Some_0.number == number,
        numbered_from(
            entry_chapter(entry, number, directory)->Ok_0->Some_0.subchapters,
            first_below(number),
        ),
    decreases entry, 1int,
{
    match entry {
        EntryView::File(_) => {},
        EntryView::Directory(below) => {
            lemma_directory_chapter_numbered(below, number);
        },
    }
}

/// The same for the chapter of a directory.
pub proof fn lemma_directory_chapter_numbered(directory: DirectoryView, number: Seq<char>)
    requires
        directory_chapter(directory, number) is Ok,
    ensures
        directory_chapter(directory, number)->Ok_0.number == number,
        numbered_from(
            directory_chapter(directory, number)->Ok_0.subchapters,
            first_below(number),
        ),
    decreases directory, 0int,
{
    let entries = directory.listing->Ok_0;
    lemma_tree_chapters_numbered(entries, first_below(number), directory.path);
}

/// The entries that stand for chapters, in the order of the listing: the directories, and
/// the markdown files that are not the content of the chapter of the directory at
/// `directory`.
pub open spec fn chapter_entries(entries: Seq<EntryView>, directory: Seq<char>) -> Seq<
    EntryView,
>
    decreases entries.len(),
{
    if entries.len() == 0 {
        Seq::empty()
    } else if is_chapter_entry(entries[0], directory) {
        seq![entries[0]] + chapter_entries(entries.skip(1), directory)
    } else {
        chapter_entries(entries.skip(1), directory)
    }
}

/// A directory is summarized to one chapter for each of its subdirectories and for each of
/// its markdown files that is not its main content: none is left out, none comes twice, none
/// is added, and they keep the order of the listing. Each is the chapter of its entry, with
/// the number of its place.
pub proof fn lemma_one_chapter_per_entry(
    entries: Seq<EntryView>,
    number: Seq<char>,
    directory: Seq<char>,
)
    requires
        tree_chapters(entries, number, directory) is Ok,
    ensures
        tree_chapters(entries, number, directory)->Ok_0.len() == chapter_entries(
            entries,
            directory,
        ).len(),
        forall|i: int|
            0 <= i < chapter_entries(entries, directory).len() ==> entry_chapter(
                #[trigger] chapter_entries(entries, directory)[i],
                nth_number(number, i as nat),
                directory,
            ) == Ok::<Option<ChapterView>, crate::error::ErrorView>(
                Some(tree_chapters(entries, number, directory)->Ok_0[i]),
            ),
    decreases entries.len(),
{
    if entries.len() > 0 {
        let chapters = tree_chapters(entries, number, directory)->Ok_0;
        let sources = chapter_entries(entries, directory);
        match entry_chapter(entries[0], number, directory) {
            Err(_) => {},
            Ok(None) => {
                lemma_one_chapter_per_entry(entries.skip(1), number, directory);
            },
            Ok(Some(chapter)) => {
                let next = next_number(number);
                let rest = tree_chapters(entries.skip(1), next, directory)->Ok_0;
                let later = chapter_entries(entries.skip(1), directory);
                lemma_one_chapter_per_entry(entries.skip(1), next, directory);
                assert(chapters == seq![chapter] + rest);
                assert(sources == seq![entries[0]] + later);
                assert forall|i: int| 0 <= i < sources.len() implies entry_chapter(
                    #[trigger] sources[i],
                    nth_number(number, i as nat),
                    directory,
                ) == Ok::<Option<ChapterView>, crate::error::ErrorView>(Some(chapters[i])) by {
                    if i > 0 {
                        assert(sources[i] == later[i - 1]);
                        assert(chapters[i] == rest[i - 1]);
                        lemma_nth_number_shift(number, (i - 1) as nat);
                    }
                }
            },
        }
    }
}

/// Two results of summarizing agree but for the numbers: both fail with the same error, or
/// both give as many chapters, with the same titles and contents in the same order.
pub open spec fn same_but_numbers(
    first: Result<Seq<ChapterView>, crate::error::ErrorView>,
    second: Result<Seq<ChapterView>, crate::error::ErrorView>,
) -> bool {
    match (first, second) {
        (Err(first), Err(second)) => first == second,
        (Ok(first), Ok(second)) => first.len() == second.len() && forall|i: int|
            0 <= i < first.len() ==> (#[trigger] first[i]).title == second[i].title
                && first[i].content == second[i].content,
        _ => false,
    }
}

/// The number from which a directory is summarized decides nothing but the numbers:
/// whether an entry stands for a chapter, with what title and content, and whether
/// summarizing fails, and with what, hangs on the entries alone. So the place of an entry
/// in the listing decides its chapter's place and number, and nothing else.
pub proof fn lemma_chapters_but_numbers(
    entries: Seq<EntryView>,
    first: Seq<char>,
    second: Seq<char>,
    directory: Seq<char>,
)
    ensures
        same_but_numbers(
            tree_chapters(entries, first, directory),
            tree_chapters(entries, second, directory),
        ),
    decreases entries, 2int,
{
    if entries.len() > 0 {
        lemma_chapter_but_number(entries[0], first, second, directory);
        match entry_chapter(entries[0], first, directory) {
            Err(_) => {},
            Ok(None) => {
                lemma_chapters_but_numbers(entries.skip(1), first, second, directory);
            },
            Ok(Some(chapter)) => {
                let other = entry_chapter(entries[0], second, directory)->Ok_0->Some_0;
                lemma_chapters_but_numbers(
                    entries.skip(1),
                    next_number(first),
                    next_number(second),
                    directory,
                );
                let a = tree_chapters(entries.skip(1), next_number(first), directory);
                let b = tree_chapters(entries.skip(1), next_number(second), directory);
                if a is Ok {
                    let one = seq![chapter] + a->Ok_0;
                    let two = seq![other] + b->Ok_0;
                    assert forall|i: int| 0 <= i < one.len() implies (#[trigger] one[i]).title
                        == two[i].title && one[i].content == two[i].content by {
                        if i > 0 {
                            assert(one[i] == a->Ok_0[i - 1]);
                            assert(two[i] == b->Ok_0[i - 1]);
                        }
                    }
                }
            },
        }
    }
}

/// The same for the chapter of one entry.
pub proof fn lemma_chapter_but_number(
    entry: EntryView,
    first: Seq<char>,
    second: Seq<char>,
    directory: Seq<char>,
)
    ensures
        match (entry_chapter(entry, first, directory), entry_chapter(entry, second, directory)) {
            (Err(first), Err(second)) => first == second,
            (Ok(None), Ok(None)) => true,
            (Ok(Some(first)), Ok(Some(second))) => first.title == second.title && first.content
                == second.content,
            _ => false,
        },
    decreases entry, 1int,
{
    match entry {
        EntryView::File(_) => {},
        EntryView::Directory(below) => {
            if let Ok(entries) = below.listing {
                lemma_chapters_but_numbers(
                    entries,
                    first_below(first),
                    first_below(second),
                    below.path,
                );
            }
        },
    }
}

/// The chapters of a list are numbered by their depth: those of one level one after the
/// other from the number that the first of them got, those below a chapter from the
/// chapter's number with `.1` behind it.
pub proof fn lemma_list_chapters_numbered(
    bullets: Seq<BulletView>,
    number: Seq<char>,
    directory: Seq<char>,
)
    ensures
        numbered_from(as_items(list_chapters(bullets, number, directory)), number),
    decreases bullets.len(),
{
    if bullets.len() == 0 {
        assert(as_items(Seq::<ChapterView>::empty()) =~= Seq::<ItemView>::empty());
    } else {
        let below = deeper_run(bullets.skip(1), bullets[0].indent) as int;
        lemma_deeper_run_bounds(bullets.skip(1), bullets[0].indent);
        let lower = list_chapters(bullets.subrange(1, 1 + below), first_below(number), directory);
        let rest = list_chapters(bullets.skip(1 + below), next_number(number), directory);
        let first = list_chapters(bullets, number, directory)[0];
        lemma_list_chapters_numbered(bullets.subrange(1, 1 + below), first_below(number), directory);
        lemma_list_chapters_numbered(bullets.skip(1 + below), next_number(number), directory);
        assert(first.subchapters == as_items(lower));
        lemma_numbered_cons(first, as_items(rest), number);
        lemma_as_items_cons(first, rest);
        assert(list_chapters(bullets, number, directory) == seq![first] + rest);
    }
}

/// What the number of a chapter may be: nothing, or digits separated by single dots.
pub open spec fn is_chapter_number(number: Seq<char>) -> bool {
    number.len() == 0 || is_dotted_number(number)
}

/// Every chapter among `items`, and below them, has a number that a chapter may have.
pub open spec fn well_numbered(items: Seq<ItemView>) -> bool
    decreases items,
{
    forall|i: int|
        0 <= i < items.len() ==> match #[trigger] items[i] {
            ItemView::Chapter(chapter) => is_chapter_number(chapter.number) && well_numbered(
                chapter.subchapters,
            ),
            ItemView::Section(_) => true,
        }
}

/// `1` is a dotted number.
pub proof fn lemma_one_is_dotted_number()
    ensures
        is_dotted_number("1"@),
{
    reveal_strlit("1");
}

/// The first number below a dotted number is a dotted number.
pub proof fn lemma_first_below_is_dotted_number(number: Seq<char>)
    requires
        is_dotted_number(number),
    ensures
        is_dotted_number(first_below(number)),
{
    reveal_strlit(".1");
    let below = first_below(number);
    assert(below == number + seq!['.', '1']);
    assert forall|i: int| 0 < i < below.len() implies !(below[i - 1] == '.' && #[trigger] below[i]
        == '.') by {
        if i < number.len() {
            assert(below[i] == number[i]);
            assert(below[i - 1] == number[i - 1]);
        } else if i == number.len() {
            assert(below[i - 1] == number.last());
        }
    }
    assert forall|i: int| 0 <= i < below.len() implies crate::util::is_digit(#[trigger] below[i])
        || below[i] == '.' by {
        if i < number.len() {
            assert(below[i] == number[i]);
        }
    }
    assert(below[0] == number[0]);
}

/// Counting on from a dotted number gives dotted numbers.
pub proof fn lemma_nth_number_is_dotted(number: Seq<char>, steps: nat)
    requires
        is_dotted_number(number),
    ensures
        is_dotted_number(nth_number(number, steps)),
    decreases steps,
{
    if steps > 0 {
        lemma_nth_number_is_dotted(number, (steps - 1) as nat);
        lemma_next_is_dotted_number(nth_number(number, (steps - 1) as nat));
    }
}

/// Chapters that are numbered from a dotted number on have numbers that chapters may have.
pub proof fn lemma_numbered_is_well_numbered(items: Seq<ItemView>, number: Seq<char>)
    requires
        numbered_from(items, number),
        is_dotted_number(number),
    ensures
        well_numbered(items),
    decreases items,
{
    assert forall|i: int| 0 <= i < items.len() implies match #[trigger] items[i] {
        ItemView::Chapter(chapter) => is_chapter_number(chapter.number) && well_numbered(
            chapter.subchapters,
        ),
        ItemView::Section(_) => true,
    } by {
        match items[i] {
            ItemView::Chapter(chapter) => {
                lemma_nth_number_is_dotted(number, i as nat);
                lemma_first_below_is_dotted_number(chapter.number);
                lemma_numbered_is_well_numbered(chapter.subchapters, first_below(chapter.number));
            },
            ItemView::Section(_) => {},
        }
    }
}

/// The table of contents of a summary gives every chapter a number that a chapter may have:
/// none to a link, a dotted number to a bullet.
pub proof fn lemma_summary_items_well_numbered(lines: Seq<LineView>, directory: Seq<char>)
    ensures
        well_numbered(summary_items(lines, directory)),
    decreases lines.len(),
{
    if lines.len() > 0 {
        match lines[0] {
            LineView::Bullet { .. } => {
                lemma_list_len_bounds(lines);
                let listed = as_items(list_chapters(leading_bullets(lines), "1"@, directory));
                let rest = summary_items(lines.skip(list_len(lines) as int), directory);
                lemma_list_chapters_numbered(leading_bullets(lines), "1"@, directory);
                lemma_one_is_dotted_number();
                lemma_numbered_is_well_numbered(listed, "1"@);
                lemma_summary_items_well_numbered(lines.skip(list_len(lines) as int), directory);
                lemma_well_numbered_concat(listed, rest);
            },
            _ => {
                let rest = summary_items(lines.skip(1), directory);
                lemma_summary_items_well_numbered(lines.skip(1), directory);
                let first = summary_items(lines, directory).take(
                    summary_items(lines, directory).len() - rest.len(),
                );
                assert(well_numbered(first)) by {
                    assert(well_numbered(Seq::<ItemView>::empty()));
                }
                assert(summary_items(lines, directory) == first + rest);
                lemma_well_numbered_concat(first, rest);
            },
        }
    }
}

/// Two lists of items whose chapters have the numbers that chapters may have make one such
/// list.
pub proof fn lemma_well_numbered_concat(first: Seq<ItemView>, second: Seq<ItemView>)
    requires
        well_numbered(first),
        well_numbered(second),
    ensures
        well_numbered(first + second),
{
    let items = first + second;
    assert forall|i: int| 0 <= i < items.len() implies match #[trigger] items[i] {
        ItemView::Chapter(chapter) => is_chapter_number(chapter.number) && well_numbered(
            chapter.subchapters,
        ),
        ItemView::Section(_) => true,
    } by {
        if i < first.len() {
            assert(items[i] == first[i]);
        } else {
            assert(items[i] == second[i - first.len()]);
        }
    }
}

/// The item is a chapter with a number.
pub open spec fn is_numbered(item: ItemView) -> bool {
    item matches ItemView::Chapter(chapter) && chapter.number.len() > 0
}

/// How many numbered chapters stand directly before the item at `at`, one after the other.
pub open spec fn run_before(items: Seq<ItemView>, at: int) -> nat
    decreases at,
{
    if 0 < at <= items.len() && is_numbered(items[at - 1]) {
        1 + run_before(items, at - 1)
    } else {
        0
    }
}

/// Every numbered chapter among `items` has the number of its place in its list: `1` where
/// no numbered chapter stands directly before it, else the number after that of the chapter
/// before it.
pub open spec fn counted_in_lists(items: Seq<ItemView>) -> bool {
    forall|at: int|
        0 <= at < items.len() && is_numbered(#[trigger] items[at]) ==> items[at]->Chapter_0.number
            == nth_number("1"@, run_before(items, at))
}

/// No line is invalid.
pub open spec fn all_valid(lines: Seq<LineView>) -> bool {
    forall|i: int| 0 <= i < lines.len() ==> !(#[trigger] lines[i] is Invalid)
}

/// A summary without an invalid line has no first invalid line, and the other way round.
proof fn lemma_all_valid(lines: Seq<LineView>)
    ensures
        all_valid(lines) <==> first_invalid(lines) is None,
    decreases lines.len(),
{
    if lines.len() > 0 {
        let rest = lines.skip(1);
        lemma_all_valid(rest);
        if all_valid(lines) {
            assert forall|i: int| 0 <= i < rest.len() implies !(#[trigger] rest[i] is Invalid) by {
                assert(rest[i] == lines[i + 1]);
            }
        }
        if all_valid(rest) && !(lines[0] is Invalid) {
            assert forall|i: int| 0 <= i < lines.len() implies !(#[trigger] lines[i]
                is Invalid) by {
                if i > 0 {
                    assert(lines[i] == rest[i - 1]);
                }
            }
        }
    }
}

/// Chapters that are numbered from `1` on all have numbers, and each has as many numbered
/// chapters before it as its place says.
proof fn lemma_run_in_list(listed: Seq<ItemView>, rest: Seq<ItemView>, at: int)
    requires
        numbered_from(listed, "1"@),
        0 <= at <= listed.len(),
    ensures
        run_before(listed + rest, at) == at,
        at < listed.len() ==> is_numbered((listed + rest)[at]),
    decreases at,
{
    let items = listed + rest;
    if at < listed.len() {
        assert(items[at] == listed[at]);
        lemma_one_is_dotted_number();
        lemma_nth_number_is_dotted("1"@, at as nat);
    }
    if at > 0 {
        lemma_run_in_list(listed, rest, at - 1);
    }
}

/// Where the items behind a list begin with an item without a number, the numbered
/// chapters before a later place are those that stand there in the items behind the list.
proof fn lemma_run_behind(front: Seq<ItemView>, rest: Seq<ItemView>, at: int)
    requires
        rest.len() > 0,
        !is_numbered(rest[0]),
        1 <= at < rest.len(),
    ensures
        run_before(front + rest, front.len() + at) == run_before(rest, at),
    decreases at,
{
    let items = front + rest;
    assert(items[front.len() + at - 1] == rest[at - 1]);
    if at > 1 {
        lemma_run_behind(front, rest, at - 1);
    }
}

/// In the table of contents of a summary without an invalid line, every list counts from
/// `1`: the first bullet of a list, which stands at the start or behind a heading or a
/// link, has the number `1`, and each further bullet of its level the next number.
pub proof fn lemma_summary_items_counted(lines: Seq<LineView>, directory: Seq<char>)
    requires
        all_valid(lines),
    ensures
        counted_in_lists(summary_items(lines, directory)),
        summary_items(lines, directory).len() > 0 && is_numbered(summary_items(lines, directory)[0])
            ==> lines.len() > 0 && (lines[0] is Bullet || lines[0] is Blank),
    decreases lines.len(),
{
    let items = summary_items(lines, directory);
    if lines.len() > 0 {
        match lines[0] {
            LineView::Bullet { .. } => {
                lemma_list_len_bounds(lines);
                let n = list_len(lines) as int;
                let later = lines.skip(n);
                let listed = as_items(list_chapters(leading_bullets(lines), "1"@, directory));
                let rest = summary_items(later, directory);
                assert forall|i: int| 0 <= i < later.len() implies !(#[trigger] later[i]
                    is Invalid) by {
                    assert(later[i] == lines[n + i]);
                }
                lemma_summary_items_counted(later, directory);
                lemma_list_chapters_numbered(leading_bullets(lines), "1"@, directory);
                lemma_list_ends(lines);
                assert(items == listed + rest);
                assert forall|at: int|
                    0 <= at < items.len() && is_numbered(#[trigger] items[at]) implies items[at]->Chapter_0.number
                    == nth_number("1"@, run_before(items, at)) by {
                    if at < listed.len() {
                        lemma_run_in_list(listed, rest, at);
                        assert(items[at] == listed[at]);
                    } else {
                        assert(items[at] == rest[at - listed.len()]);
                        assert(!is_numbered(rest[0]));
                        lemma_run_behind(listed, rest, at - listed.len());
                    }
                }
            },
            LineView::Blank => {
                let later = lines.skip(1);
                assert forall|i: int| 0 <= i < later.len() implies !(#[trigger] later[i]
                    is Invalid) by {
                    assert(later[i] == lines[i + 1]);
                }
                lemma_summary_items_counted(later, directory);
            },
            _ => {
                let later = lines.skip(1);
                let rest = summary_items(later, directory);
                assert forall|i: int| 0 <= i < later.len() implies !(#[trigger] later[i]
                    is Invalid) by {
                    assert(later[i] == lines[i + 1]);
                }
                lemma_summary_items_counted(later, directory);
                let first = items.take(1);
                assert(items == first + rest);
                assert(!is_numbered(items[0]));
                assert forall|at: int|
                    0 <= at < items.len() && is_numbered(#[trigger] items[at]) implies items[at]->Chapter_0.number
                    == nth_number("1"@, run_before(items, at)) by {
                    lemma_run_behind_one(first, rest, at - 1);
                    assert(items[at] == rest[at - 1]);
                }
            },
        }
    }
}

/// Behind one item without a number, the numbered chapters before a place are those that
/// stand there in the items behind it.
proof fn lemma_run_behind_one(first: Seq<ItemView>, rest: Seq<ItemView>, at: int)
    requires
        first.len() == 1,
        !is_numbered(first[0]),
        0 <= at < rest.len(),
    ensures
        run_before(first + rest, 1 + at) == run_before(rest, at),
    decreases at,
{
    let items = first + rest;
    if at > 0 {
        assert(items[at] == rest[at - 1]);
        lemma_run_behind_one(first, rest, at - 1);
    } else {
        assert(items[0] == first[0]);
        assert(run_before(rest, 0) == 0);
    }
}

/// Behind the list at the start of valid lines stands a heading or a link, or nothing: the
/// items behind the list do not begin with a numbered chapter.
proof fn lemma_list_ends(lines: Seq<LineView>)
    requires
        all_valid(lines),
    ensures
        list_len(lines) <= lines.len(),
        list_len(lines) < lines.len() ==> (lines[list_len(lines) as int] is Heading
            || lines[list_len(lines) as int] is Link),
    decreases lines.len(),
{
    if lines.len() > 0 && (lines[0] is Bullet || lines[0] is Blank) {
        let rest = lines.skip(1);
        assert forall|i: int| 0 <= i < rest.len() implies !(#[trigger] rest[i] is Invalid) by {
            assert(rest[i] == lines[i + 1]);
        }
        lemma_list_ends(rest);
        if list_len(lines) < lines.len() {
            assert(lines[list_len(lines) as int] == rest[list_len(rest) as int]);
        }
    }
}

/// In the table of contents that a summary is read to, every list counts from `1`.
pub proof fn lemma_summary_counted(text: Seq<char>, path: Seq<char>)
    requires
        parse_summary(text, path) is Ok,
    ensures
        counted_in_lists(parse_summary(text, path)->Ok_0),
{
    let lines = classified(lines_of(text));
    lemma_all_valid(lines);
    lemma_summary_items_counted(lines, summary_directory(path));
}

} // verus!
