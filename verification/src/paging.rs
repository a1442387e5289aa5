//! Paged GitHub listings: pages fetched by number until a short page or the
//! page cap (organization memberships and public organizations), and pages
//! fetched by cursor until GitHub reports no next page or the page cap (the
//! viewer's repositories). The caller fetches each page asked for and hands
//! it back; these collectors decide what is kept and what is asked next.

use crate::organizations::{
    is_active_state, is_last_page, next_repository_cursor, retain_active_memberships, Membership, MAX_ORGANIZATION_PAGES,
    MAX_REPOSITORY_PAGES, PAGE_SIZE,
};
use vstd::prelude::*;

verus! {

/// The items of the pages, one page after another.
pub open spec fn concat_pages<T>(pages: Seq<Seq<T>>) -> Seq<T>
    decreases pages.len(),
{
    if pages.len() == 0 {
        Seq::empty()
    } else {
        concat_pages(pages.drop_last()) + pages.last()
    }
}

// ---------------------------------------------------------------------------
// Pages by number
// ---------------------------------------------------------------------------

/// A listing read page by page, pages numbered from 1.
pub struct NumberedPages<T> {
    items: Vec<T>,
    next_page: Option<u32>,
}

/// The abstract value of a numbered listing: what has been kept so far, and
/// the page to fetch next (`None` once the listing is complete).
pub struct NumberedPagesView<T> {
    pub items: Seq<T>,
    pub next_page: Option<u32>,
}

impl<T> View for NumberedPages<T> {
    type V = NumberedPagesView<T>;

    closed spec fn view(&self) -> NumberedPagesView<T> {
        NumberedPagesView { items: self.items@, next_page: self.next_page }
    }
}

/// The page asked for after page `page` brought `fetched` items: none after a
/// short page or after the last page allowed.
pub open spec fn page_after(page: u32, fetched: nat) -> Option<u32> {
    if fetched < PAGE_SIZE || page >= MAX_ORGANIZATION_PAGES {
        None
    } else {
        Some((page + 1) as u32)
    }
}

/// One page read: `kept` joins the items, and the next page is asked for
/// only when this one was full (`fetched` items) and below the cap.
pub open spec fn numbered_step<T>(state: NumberedPagesView<T>, kept: Seq<T>, fetched: nat) -> NumberedPagesView<T> {
    NumberedPagesView { items: state.items + kept, next_page: page_after(state.next_page->0, fetched) }
}

/// The listing after reading the pages in order from a fresh one; each page is
/// what was kept of it and how many items it brought.
pub open spec fn numbered_run<T>(pages: Seq<(Seq<T>, nat)>) -> NumberedPagesView<T>
    decreases pages.len(),
{
    if pages.len() == 0 {
        NumberedPagesView { items: Seq::empty(), next_page: Some(1u32) }
    } else {
        numbered_step(numbered_run(pages.drop_last()), pages.last().0, pages.last().1)
    }
}

/// What is kept of a page of memberships: the active ones, in order.
pub open spec fn active_only(page: Seq<Membership>) -> Seq<Membership> {
    page.filter(|m: Membership| is_active_state(m.state))
}

impl<T> NumberedPages<T> {
    /// A fresh listing: nothing kept, page 1 to fetch.
    pub fn new() -> (res: Self)
        ensures
            res@.items == Seq::<T>::empty(),
            res@.next_page == Some(1u32),
    {
        NumberedPages { items: Vec::new(), next_page: Some(1) }
    }

    /// The page to fetch next; `None` once the listing is complete.
    pub fn next_page(&self) -> (res: Option<u32>)
        ensures
            res == self@.next_page,
    {
        self.next_page
    }

    /// Reads the page asked for: `kept` is what is kept of it and `fetched`
    /// how many items it brought.
    pub fn accept_page(&mut self, kept: Vec<T>, fetched: usize)
        requires
            old(self)@.next_page is Some,
        ensures
            final(self)@ == numbered_step(old(self)@, kept@, fetched as nat),
    {
        let mut kept = kept;
        self.items.append(&mut kept);
        let page = match self.next_page {
            Some(p) => p,
            None => 0,
        };
        self.next_page = if is_last_page(fetched) || page >= MAX_ORGANIZATION_PAGES {
            None
        } else {
            Some(page + 1)
        };
    }

    /// Everything kept, in page order.
    pub fn into_items(self) -> (res: Vec<T>)
        ensures
            res@ == self@.items,
    {
        self.items
    }
}

impl NumberedPages<Membership> {
    /// Reads a page of memberships: the active ones are kept, in order, and
    /// the page's full size decides whether another is asked for.
    pub fn accept_memberships(&mut self, page: Vec<Membership>)
        requires
            old(self)@.next_page is Some,
        ensures
            final(self)@ == numbered_step(old(self)@, active_only(page@), page@.len()),
    {
        let fetched = page.len();
        let kept = retain_active_memberships(page);
        self.accept_page(kept, fetched);
    }
}

/// A numbered listing read from a fresh one, with every page but the last
/// full and no more pages than the cap, holds the kept items of all pages in
/// page order. It asks for the page after the last one exactly when that one
/// was full and the cap is not reached: reading stops at the first short page
/// or at the cap.
pub proof fn numbered_pages_concatenate_until_a_short_page<T>(pages: Seq<(Seq<T>, nat)>)
    requires
        pages.len() <= MAX_ORGANIZATION_PAGES,
        forall|i: int| 0 <= i < pages.len() - 1 ==> (#[trigger] pages[i]).1 >= PAGE_SIZE,
    ensures
        numbered_run(pages).items == concat_pages(Seq::new(pages.len(), |i: int| pages[i].0)),
        numbered_run(pages).next_page == if pages.len() > 0 && (pages.last().1 < PAGE_SIZE
            || pages.len() == MAX_ORGANIZATION_PAGES) {
            None::<u32>
        } else {
            Some((pages.len() + 1) as u32)
        },
    decreases pages.len(),
{
    if pages.len() > 0 {
        let front = pages.drop_last();
        assert forall|i: int| 0 <= i < front.len() - 1 implies (#[trigger] front[i]).1 >= PAGE_SIZE by {
            assert(front[i] == pages[i]);
        }
        numbered_pages_concatenate_until_a_short_page(front);
        assert(Seq::new(pages.len(), |i: int| pages[i].0).drop_last() =~= Seq::new(
            front.len(),
            |i: int| front[i].0,
        ));
        if front.len() > 0 {
            assert(front.last() == pages[pages.len() - 2]);
        }
    }
}

/// Membership pages read from a fresh listing, every page but the last full
/// and no more pages than the cap, leave the active memberships of all pages
/// in page order; reading stops at the first short page or at the cap.
pub proof fn membership_pages_keep_active_memberships_in_order(pages: Seq<Seq<Membership>>)
    requires
        pages.len() <= MAX_ORGANIZATION_PAGES,
        forall|i: int| 0 <= i < pages.len() - 1 ==> (#[trigger] pages[i]).len() >= PAGE_SIZE,
    ensures
        numbered_run(Seq::new(pages.len(), |i: int| (active_only(pages[i]), pages[i].len()))).items
            == concat_pages(Seq::new(pages.len(), |i: int| active_only(pages[i]))),
        numbered_run(Seq::new(pages.len(), |i: int| (active_only(pages[i]), pages[i].len()))).next_page
            == if pages.len() > 0 && (pages.last().len() < PAGE_SIZE || pages.len()
            == MAX_ORGANIZATION_PAGES) {
            None::<u32>
        } else {
            Some((pages.len() + 1) as u32)
        },
{
    let runs = Seq::new(pages.len(), |i: int| (active_only(pages[i]), pages[i].len()));
    assert forall|i: int| 0 <= i < runs.len() - 1 implies (#[trigger] runs[i]).1 >= PAGE_SIZE by {
        assert(runs[i].1 == pages[i].len());
    }
    numbered_pages_concatenate_until_a_short_page(runs);
    assert(Seq::new(runs.len(), |i: int| runs[i].0) =~= Seq::new(
        pages.len(),
        |i: int| active_only(pages[i]),
    ));
}

// ---------------------------------------------------------------------------
// Pages by cursor
// ---------------------------------------------------------------------------

/// A listing read page by page, each page asked for with the cursor that
/// the previous one reported.
pub struct CursorPages<T> {
    items: Vec<T>,
    cursor: Option<String>,
    pages_read: u32,
    finished: bool,
}

/// The abstract value of a cursor listing.
pub struct CursorPagesView<T> {
    /// Everything read so far.
    pub items: Seq<T>,
    /// The cursor the next page is asked with (`None` for the first page).
    pub cursor: Option<Seq<char>>,
    pub pages_read: nat,
    /// No further page is to be asked for.
    pub finished: bool,
}

impl<T> View for CursorPages<T> {
    type V = CursorPagesView<T>;

    closed spec fn view(&self) -> CursorPagesView<T> {
        CursorPagesView {
            items: self.items@,
            cursor: match self.cursor {
                Some(c) => Some(c@),
                None => None,
            },
            pages_read: self.pages_read as nat,
            finished: self.finished,
        }
    }
}

/// An optional text by its characters.
pub open spec fn cursor_view(cursor: Option<String>) -> Option<Seq<char>> {
    match cursor {
        Some(c) => Some(c@),
        None => None,
    }
}

/// The cursor the next page is asked with: the reported end cursor, when
/// GitHub reports a next page.
pub open spec fn next_cursor_spec(has_next_page: Option<bool>, end_cursor: Option<Seq<char>>) -> Option<Seq<char>> {
    if has_next_page == Some(true) {
        end_cursor
    } else {
        None
    }
}

/// One page read: its items join the listing, the next page is asked with the
/// reported cursor, and the listing is finished when there is none or the cap
/// is reached.
pub open spec fn cursor_step<T>(
    state: CursorPagesView<T>,
    items: Seq<T>,
    has_next_page: Option<bool>,
    end_cursor: Option<Seq<char>>,
) -> CursorPagesView<T> {
    let next = next_cursor_spec(has_next_page, end_cursor);
    CursorPagesView {
        items: state.items + items,
        cursor: next,
        pages_read: state.pages_read + 1,
        finished: next is None || state.pages_read + 1 >= MAX_REPOSITORY_PAGES,
    }
}

/// The listing after reading the pages in order from a fresh one; each page
/// is its items, whether GitHub reported a next page, and its end cursor.
pub open spec fn cursor_run<T>(pages: Seq<(Seq<T>, Option<bool>, Option<Seq<char>>)>) -> CursorPagesView<T>
    decreases pages.len(),
{
    if pages.len() == 0 {
        CursorPagesView { items: Seq::empty(), cursor: None, pages_read: 0, finished: false }
    } else {
        let last = pages.last();
        cursor_step(cursor_run(pages.drop_last()), last.0, last.1, last.2)
    }
}

/// A page that leads on to another: GitHub reported a next page and its
/// cursor.
pub open spec fn continues<T>(page: (Seq<T>, Option<bool>, Option<Seq<char>>)) -> bool {
    page.1 == Some(true) && page.2 is Some
}

impl<T> CursorPages<T> {
    /// The listing's well-formedness: an unfinished listing is below the cap.
    pub open spec fn wf(&self) -> bool {
        &&& self@.pages_read <= MAX_REPOSITORY_PAGES
        &&& !self@.finished ==> self@.pages_read < MAX_REPOSITORY_PAGES
    }

    /// A fresh listing: nothing read, the first page asked without a cursor.
    pub fn new() -> (res: Self)
        ensures
            res.wf(),
            res@ == (CursorPagesView::<T> {
                items: Seq::empty(),
                cursor: None,
                pages_read: 0,
                finished: false,
            }),
    {
        CursorPages { items: Vec::new(), cursor: None, pages_read: 0, finished: false }
    }

    /// Whether no further page is to be asked for.
    pub fn is_finished(&self) -> (res: bool)
        ensures
            res == self@.finished,
    {
        self.finished
    }

    /// The cursor the next page is asked with.
    pub fn cursor(&self) -> (res: Option<&String>)
        ensures
            match res {
                Some(c) => self@.cursor == Some(c@),
                None => self@.cursor is None,
            },
    {
        self.cursor.as_ref()
    }

    /// Reads the page asked for: its items, whether GitHub reported a next
    /// page, and its end cursor.
    pub fn accept_page(&mut self, items: Vec<T>, has_next_page: Option<bool>, end_cursor: Option<String>)
        requires
            old(self).wf(),
            !old(self)@.finished,
        ensures
            final(self).wf(),
            final(self)@ == cursor_step(
                old(self)@,
                items@,
                has_next_page,
                cursor_view(end_cursor),
            ),
    {
        let mut items = items;
        self.items.append(&mut items);
        let next = next_repository_cursor(has_next_page, end_cursor);
        self.pages_read = self.pages_read + 1;
        self.finished = next.is_none() || self.pages_read >= MAX_REPOSITORY_PAGES;
        self.cursor = next;
    }

    /// Everything read, in page order.
    pub fn into_items(self) -> (res: Vec<T>)
        ensures
            res@ == self@.items,
    {
        self.items
    }
}

/// A cursor listing read from a fresh one, where every page but the last led
/// on to another and no more pages than the cap were read, holds the items of
/// all pages in page order. Each page after the first is asked with the cursor
/// the previous page reported, and reading stops at the first page without a
/// next cursor or at the cap.
pub proof fn cursor_pages_concatenate_until_the_last_cursor<T>(
    pages: Seq<(Seq<T>, Option<bool>, Option<Seq<char>>)>,
)
    requires
        pages.len() <= MAX_REPOSITORY_PAGES,
        forall|i: int| 0 <= i < pages.len() - 1 ==> continues(#[trigger] pages[i]),
    ensures
        cursor_run(pages).items == concat_pages(Seq::new(pages.len(), |i: int| pages[i].0)),
        cursor_run(pages).pages_read == pages.len(),
        cursor_run(pages).cursor == if pages.len() == 0 {
            None
        } else {
            next_cursor_spec(pages.last().1, pages.last().2)
        },
        cursor_run(pages).finished == (pages.len() > 0 && (!continues(pages.last()) || pages.len()
            == MAX_REPOSITORY_PAGES)),
    decreases pages.len(),
{
    if pages.len() > 0 {
        let front = pages.drop_last();
        assert forall|i: int| 0 <= i < front.len() - 1 implies continues(#[trigger] front[i]) by {
            assert(front[i] == pages[i]);
        }
        cursor_pages_concatenate_until_the_last_cursor(front);
        assert(Seq::new(pages.len(), |i: int| pages[i].0).drop_last() =~= Seq::new(
            front.len(),
            |i: int| front[i].0,
        ));
    }
}

} // verus!
