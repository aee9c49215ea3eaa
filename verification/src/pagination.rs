//! The pagination core: folding one listing page after another into the
//! table, following cursors until a page's cursor is absent or empty.
//! The page fetch itself is the caller's; everything decided from a
//! fetched page is here.

use vstd::prelude::*;
use crate::entry::{row_view, Entry};
use crate::table::Table;

verus! {

/// The filter settings of one run.
pub struct Query {
    /// Match whole words instead of substrings.
    pub whole_word: bool,
    /// Require every term instead of any.
    pub require_all: bool,
    /// The search terms, as given.
    pub terms: Vec<String>,
    /// The lowercased excluded display names.
    pub excluded: Vec<String>,
    /// The language filter, where set.
    pub lang: Option<String>,
}

/// The language filter of `q` as a character sequence.
pub open spec fn query_lang_view(q: Query) -> Option<Seq<char>> {
    match q.lang {
        Option::Some(l) => Option::Some(l@),
        Option::None => Option::None,
    }
}

/// Whether `e` passes the filter of `q`.
pub open spec fn entry_matches(e: Entry, q: Query) -> bool {
    e.matches_spec(
        q.whole_word,
        q.require_all,
        q.terms.deep_view(),
        q.excluded.deep_view(),
        query_lang_view(q),
    )
}

/// The rows of the entries that pass the filter, in entry order.
pub open spec fn filtered_rows(entries: Seq<Entry>, q: Query) -> Seq<Seq<Seq<char>>>
    decreases entries.len(),
{
    if entries.len() == 0 {
        Seq::<Seq<Seq<char>>>::empty()
    } else {
        let rest = filtered_rows(entries.drop_last(), q);
        if entry_matches(entries.last(), q) {
            rest.push(row_view(entries.last()))
        } else {
            rest
        }
    }
}

/// One fetched listing page: its decoded entries and the cursor of the
/// next page, where the envelope carried one.
pub struct Page {
    /// The page's entries, in array order.
    pub entries: Vec<Entry>,
    /// The next cursor; an absent or empty one ends the pagination.
    pub cursor: Option<String>,
}

/// Whether a cursor continues the pagination: present and non-empty. An
/// absent or empty cursor is terminal.
pub open spec fn cursor_continues(c: Option<String>) -> bool {
    match c {
        Option::Some(s) => s@.len() > 0,
        Option::None => false,
    }
}

/// The cursor to follow after a page: its own where that continues,
/// `None` where it is absent or empty.
pub open spec fn next_cursor(c: Option<String>) -> Option<String> {
    if cursor_continues(c) {
        c
    } else {
        Option::<String>::None
    }
}

/// How many pages a run starting at the front consumes: every page up to
/// and including the first whose cursor is absent or empty, or all of
/// them where every page carries a continuing cursor.
pub open spec fn pages_consumed(pages: Seq<Page>) -> int
    decreases pages.len(),
{
    if pages.len() == 0 {
        0
    } else if !cursor_continues(pages[0].cursor) {
        1
    } else {
        1 + pages_consumed(pages.drop_first())
    }
}

/// The number of entries over all pages.
pub open spec fn total_entries(pages: Seq<Page>) -> int
    decreases pages.len(),
{
    if pages.len() == 0 {
        0int
    } else {
        pages[0].entries@.len() + total_entries(pages.drop_first())
    }
}

/// The filtered rows over all pages, in page order.
pub open spec fn pages_rows(pages: Seq<Page>, q: Query) -> Seq<Seq<Seq<char>>>
    decreases pages.len(),
{
    if pages.len() == 0 {
        Seq::<Seq<Seq<char>>>::empty()
    } else {
        filtered_rows(pages[0].entries@, q) + pages_rows(pages.drop_first(), q)
    }
}

/// The entry count of a page prefix grows by the next page's entries.
proof fn lemma_total_take(pages: Seq<Page>, i: int)
    requires
        0 <= i < pages.len(),
    ensures
        total_entries(pages.take(i + 1)) == total_entries(pages.take(i)) + pages[i].entries@.len(),
    decreases i,
{
    if i == 0 {
        assert(pages.take(1).drop_first() =~= Seq::<Page>::empty());
        assert(pages.take(0) =~= Seq::<Page>::empty());
    } else {
        lemma_total_take(pages.drop_first(), i - 1);
        assert(pages.take(i + 1).drop_first() =~= pages.drop_first().take(i));
        assert(pages.take(i).drop_first() =~= pages.drop_first().take(i - 1));
    }
}

/// The filtered rows of a page prefix grow by the next page's rows.
proof fn lemma_rows_take(pages: Seq<Page>, q: Query, i: int)
    requires
        0 <= i < pages.len(),
    ensures
        pages_rows(pages.take(i + 1), q) == pages_rows(pages.take(i), q) + filtered_rows(
            pages[i].entries@,
            q,
        ),
    decreases i,
{
    if i == 0 {
        assert(pages.take(1).drop_first() =~= Seq::<Page>::empty());
        assert(pages.take(0) =~= Seq::<Page>::empty());
        assert(pages_rows(pages.take(1), q) =~~= pages_rows(pages.take(0), q) + filtered_rows(
            pages[0].entries@,
            q,
        ));
    } else {
        lemma_rows_take(pages.drop_first(), q, i - 1);
        assert(pages.take(i + 1).drop_first() =~= pages.drop_first().take(i));
        assert(pages.take(i).drop_first() =~= pages.drop_first().take(i - 1));
        assert(pages_rows(pages.take(i + 1), q) =~~= pages_rows(pages.take(i), q) + filtered_rows(
            pages[i].entries@,
            q,
        ));
    }
}

/// Entry counts are never negative.
proof fn lemma_total_nonneg(pages: Seq<Page>)
    ensures
        total_entries(pages) >= 0,
    decreases pages.len(),
{
    if pages.len() > 0 {
        lemma_total_nonneg(pages.drop_first());
    }
}

/// The entry count splits at any prefix boundary.
proof fn lemma_total_split(pages: Seq<Page>, i: int)
    requires
        0 <= i <= pages.len(),
    ensures
        total_entries(pages) == total_entries(pages.take(i)) + total_entries(pages.skip(i)),
    decreases i,
{
    if i == 0 {
        assert(pages.take(0) =~= Seq::<Page>::empty());
        assert(pages.skip(0) =~= pages);
    } else {
        lemma_total_split(pages.drop_first(), i - 1);
        assert(pages.take(i).drop_first() =~= pages.drop_first().take(i - 1));
        assert(pages.skip(i) =~= pages.drop_first().skip(i - 1));
    }
}

/// Where the first `i` pages all carry continuing cursors, consumption
/// continues into the rest.
proof fn lemma_consumed_skip(pages: Seq<Page>, i: int)
    requires
        0 <= i <= pages.len(),
        forall|k: int| 0 <= k < i ==> cursor_continues(#[trigger] pages[k].cursor),
    ensures
        pages_consumed(pages) == i + pages_consumed(pages.skip(i)),
    decreases i,
{
    if i == 0 {
        assert(pages.skip(0) =~= pages);
    } else {
        lemma_consumed_skip(pages.drop_first(), i - 1);
        assert(pages.skip(i) =~= pages.drop_first().skip(i - 1));
    }
}

/// Pagination termination: where every page but the last carries a
/// continuing cursor and the last page's cursor is absent or empty, a
/// run consumes exactly all of them, so its total counts every page's
/// entries.
pub proof fn lemma_pagination_stops_at_last(pages: Seq<Page>)
    requires
        pages.len() > 0,
        !cursor_continues(pages.last().cursor),
        forall|k: int|
            0 <= k < pages.len() - 1 ==> cursor_continues(#[trigger] pages[k].cursor),
    ensures
        pages_consumed(pages) == pages.len(),
        total_entries(pages.take(pages_consumed(pages))) == total_entries(pages),
{
    lemma_consumed_skip(pages, pages.len() - 1);
    assert(pages.skip(pages.len() - 1)[0] == pages.last());
    assert(pages.take(pages.len() as int) =~= pages);
}

/// Folds one fetched page into the table and the running total: counts
/// every entry, appends the rows of those that pass the filter, and
/// hands back the page's cursor where it continues the pagination —
/// an absent or empty cursor comes back as `None` and ends it.
pub fn consume_page(table: &mut Table, total: &mut usize, page: &Page, q: &Query) -> (next: Option<
    String,
>)
    requires
        old(table).wf(),
        *old(total) + page.entries@.len() <= usize::MAX,
    ensures
        final(table).wf(),
        final(table).rows_view() == old(table).rows_view() + filtered_rows(page.entries@, *q),
        final(table).aligns_view() == old(table).aligns_view(),
        *final(total) == *old(total) + page.entries@.len(),
        next == next_cursor(page.cursor),
{
    let mut i: usize = 0;
    while i < page.entries.len()
        invariant
            table.wf(),
            i <= page.entries@.len(),
            table.rows_view() =~~= old(table).rows_view() + filtered_rows(
                page.entries@.take(i as int),
                *q,
            ),
            table.aligns_view() == old(table).aligns_view(),
            *total == *old(total),
        decreases page.entries@.len() - i,
    {
        let e = &page.entries[i];
        if e.matches(q.whole_word, q.require_all, &q.terms, &q.excluded, &q.lang) {
            let row = e.format_row();
            table.push(row);
        }
        proof {
            assert(page.entries@.take((i + 1) as int).drop_last() =~= page.entries@.take(i as int));
            assert(page.entries@.take((i + 1) as int).last() == page.entries@[i as int]);
        }
        i = i + 1;
    }
    proof {
        assert(page.entries@.take(page.entries@.len() as int) =~= page.entries@);
    }
    *total = *total + page.entries.len();
    match &page.cursor {
        Option::Some(c) => {
            if c.as_str().is_empty() {
                Option::None
            } else {
                Option::Some(c.clone())
            }
        },
        Option::None => Option::None,
    }
}

/// Folds fetched pages into the table in order, stopping after the
/// first page whose cursor is absent or empty; returns how many pages
/// were consumed. Always terminates, consuming at most all of `pages`.
pub fn consume_pages(table: &mut Table, total: &mut usize, pages: &Vec<Page>, q: &Query) -> (consumed:
    usize)
    requires
        old(table).wf(),
        *old(total) + total_entries(pages@) <= usize::MAX,
    ensures
        final(table).wf(),
        final(table).aligns_view() == old(table).aligns_view(),
        consumed == pages_consumed(pages@),
        consumed <= pages@.len(),
        *final(total) == *old(total) + total_entries(pages@.take(consumed as int)),
        final(table).rows_view() == old(table).rows_view() + pages_rows(
            pages@.take(consumed as int),
            *q,
        ),
{
    let mut i: usize = 0;
    while i < pages.len()
        invariant
            table.wf(),
            i <= pages@.len(),
            *old(total) + total_entries(pages@) <= usize::MAX,
            *total == *old(total) + total_entries(pages@.take(i as int)),
            table.aligns_view() == old(table).aligns_view(),
            table.rows_view() =~~= old(table).rows_view() + pages_rows(
                pages@.take(i as int),
                *q,
            ),
            forall|k: int| 0 <= k < i ==> cursor_continues(#[trigger] pages@[k].cursor),
        decreases pages@.len() - i,
    {
        proof {
            lemma_total_split(pages@, i as int);
            lemma_total_nonneg(pages@.take(i as int));
            lemma_total_nonneg(pages@.skip(i as int));
            lemma_total_nonneg(pages@.skip(i as int).drop_first());
            assert(pages@.skip(i as int)[0] == pages@[i as int]);
        }
        let next = consume_page(table, total, &pages[i], q);
        proof {
            lemma_total_take(pages@, i as int);
            lemma_rows_take(pages@, *q, i as int);
        }
        i = i + 1;
        match next {
            Option::Some(_) => {},
            Option::None => {
                proof {
                    lemma_consumed_skip(pages@, i - 1);
                    assert(pages@.skip(i - 1)[0] == pages@[i - 1]);
                }
                return i;
            },
        }
    }
    proof {
        lemma_consumed_skip(pages@, pages@.len() as int);
        assert(pages@.skip(pages@.len() as int) =~= Seq::<Page>::empty());
    }
    i
}

} // verus!
