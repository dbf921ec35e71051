//! Scanning a profile: gathering the posts of its grid page by page.
use crate::text;
use crate::timeline;
use crate::timeline::{PostSummary, PostSummaryView};
use vstd::prelude::*;

verus! {

/// How far a scan has come.
#[derive(Clone, Copy, Debug, PartialEq, Eq, Structural)]
pub struct ScanProgress {
    pub fetched: usize,
    /// How many posts the profile has, 0 where that is not known.
    pub total: u64,
    pub done: bool,
}

/// A scan: the posts gathered so far, and where the next page starts.
#[derive(Debug)]
pub struct Scan {
    /// The most posts to gather, 0 for all of them.
    pub limit: usize,
    pub total: u64,
    pub posts: Vec<PostSummary>,
    /// The cursor of the next page, none for the first one.
    pub cursor: Option<String>,
}

/// A scan, over views.
pub struct ScanView {
    pub limit: nat,
    pub total: u64,
    pub posts: Seq<PostSummaryView>,
    pub cursor: Option<Seq<char>>,
}

impl View for Scan {
    type V = ScanView;

    open spec fn view(&self) -> ScanView {
        ScanView {
            limit: self.limit as nat,
            total: self.total,
            posts: timeline::summary_views(self.posts@),
            cursor: text::opt_text(self.cursor),
        }
    }
}

impl ScanView {
    /// The scan after one more page, with the cursor that came with it. An empty
    /// page changes nothing; with the limit reached, only as many posts are kept.
    pub open spec fn with_page(
        self,
        page: Seq<PostSummaryView>,
        next: Option<Seq<char>>,
    ) -> ScanView {
        let all = self.posts + page;
        if page.len() == 0 {
            self
        } else if self.limit > 0 && all.len() >= self.limit {
            ScanView { posts: all.subrange(0, self.limit as int), ..self }
        } else {
            ScanView {
                posts: all,
                cursor: match next {
                    Some(c) => Some(c),
                    None => self.cursor,
                },
                ..self
            }
        }
    }

    /// Whether another page is to be asked for after this one: it held posts, the
    /// limit is not reached, and there is a next page.
    pub open spec fn goes_on(self, page: Seq<PostSummaryView>, next: Option<Seq<char>>) -> bool {
        page.len() > 0 && !(self.limit > 0 && self.posts.len() + page.len() >= self.limit)
            && next is Some
    }
}

/// What comes of a page.
#[derive(Clone, Copy, Debug, PartialEq, Eq, Structural)]
pub struct PageTaken {
    /// Whether another page is to be asked for.
    pub more: bool,
    /// What is to be told of the page, nothing of an empty one.
    pub progress: Option<ScanProgress>,
}

impl Scan {
    /// A scan that has gathered nothing yet. A limit of 0 means everything.
    pub fn new(limit: usize, total: u64) -> (r: Scan)
        ensures
            r@ == (ScanView { limit: limit as nat, total, posts: Seq::empty(), cursor: None }),
    {
        let r = Scan { limit, total, posts: Vec::new(), cursor: None };
        assert(r@.posts == Seq::<PostSummaryView>::empty());
        r
    }

    /// Takes a page and the cursor that came with it. The posts are counted
    /// before they are cut down to the limit.
    pub fn take_page(&mut self, page: Vec<PostSummary>, next: Option<String>) -> (r: PageTaken)
        ensures
            final(self)@ == old(self)@.with_page(
                timeline::summary_views(page@),
                text::opt_text(next),
            ),
            r.more == old(self)@.goes_on(timeline::summary_views(page@), text::opt_text(next)),
            match r.progress {
                Some(p) => page@.len() > 0 && p.fetched == old(self)@.posts.len() + page@.len()
                    && p.total == old(self)@.total && !p.done,
                None => page@.len() == 0,
            },
    {
        let ghost before = self.posts@;
        let ghost added = page@;
        if page.len() == 0 {
            return PageTaken { more: false, progress: None };
        }
        let mut page = page;
        self.posts.append(&mut page);
        assert(timeline::summary_views(before + added) == timeline::summary_views(before)
            + timeline::summary_views(added));
        let progress = Some(
            ScanProgress { fetched: self.posts.len(), total: self.total, done: false },
        );
        if self.limit > 0 && self.posts.len() >= self.limit {
            self.posts.truncate(self.limit);
            assert(timeline::summary_views(self.posts@) == timeline::summary_views(
                before + added,
            ).subrange(0, self.limit as int));
            return PageTaken { more: false, progress };
        }
        match next {
            Some(cursor) => {
                self.cursor = Some(cursor);
                PageTaken { more: true, progress }
            },
            None => PageTaken { more: false, progress },
        }
    }

    /// What is told at the end.
    pub fn finished(&self) -> (r: ScanProgress)
        ensures
            r.fetched == self@.posts.len(),
            r.total == self@.total,
            r.done,
    {
        ScanProgress { fetched: self.posts.len(), total: self.total, done: true }
    }
}

/// A scan after the pages that it has asked for, from the first of some pages
/// on; those behind the page that ends it are not asked for.
pub open spec fn scanned(
    scan: ScanView,
    pages: Seq<(Seq<PostSummaryView>, Option<Seq<char>>)>,
) -> ScanView
    decreases pages.len(),
{
    if pages.len() == 0 {
        scan
    } else {
        let (page, next) = pages[0];
        if scan.goes_on(page, next) {
            scanned(scan.with_page(page, next), pages.subrange(1, pages.len() as int))
        } else {
            scan.with_page(page, next)
        }
    }
}

/// The posts of some pages, one page after the other.
pub open spec fn all_posts(pages: Seq<(Seq<PostSummaryView>, Option<Seq<char>>)>) -> Seq<
    PostSummaryView,
>
    decreases pages.len(),
{
    if pages.len() == 0 {
        Seq::empty()
    } else {
        pages[0].0 + all_posts(pages.subrange(1, pages.len() as int))
    }
}

/// A scan gathers the posts in the order of the pages, and drops none but those
/// at the end.
pub proof fn law_scan_keeps_the_order(
    scan: ScanView,
    pages: Seq<(Seq<PostSummaryView>, Option<Seq<char>>)>,
)
    ensures
        scanned(scan, pages).posts.is_prefix_of(scan.posts + all_posts(pages)),
    decreases pages.len(),
{
    if pages.len() == 0 {
        assert(scan.posts + all_posts(pages) == scan.posts);
        assert(scan.posts == scan.posts.subrange(0, scan.posts.len() as int));
    } else {
        let rest = pages.subrange(1, pages.len() as int);
        let (page, next) = pages[0];
        let taken = scan.with_page(page, next);
        let whole = scan.posts + all_posts(pages);
        assert(whole == (scan.posts + page) + all_posts(rest));
        if scan.goes_on(page, next) {
            law_scan_keeps_the_order(taken, rest);
        } else {
            assert(taken.posts == whole.subrange(0, taken.posts.len() as int));
        }
    }
}

/// A scan with a limit never gathers more posts than that.
pub proof fn law_scan_respects_the_limit(
    scan: ScanView,
    pages: Seq<(Seq<PostSummaryView>, Option<Seq<char>>)>,
)
    requires
        scan.limit > 0,
        scan.posts.len() <= scan.limit,
    ensures
        scanned(scan, pages).posts.len() <= scan.limit,
        scanned(scan, pages).limit == scan.limit,
    decreases pages.len(),
{
    if pages.len() > 0 {
        let rest = pages.subrange(1, pages.len() as int);
        let (page, next) = pages[0];
        if scan.goes_on(page, next) {
            law_scan_respects_the_limit(scan.with_page(page, next), rest);
        }
    }
}

/// A scan without a limit gathers every post, as long as no page before the last
/// one is empty or comes without a cursor.
pub proof fn law_unlimited_scan_takes_everything(
    scan: ScanView,
    pages: Seq<(Seq<PostSummaryView>, Option<Seq<char>>)>,
)
    requires
        scan.limit == 0,
        forall|i: int|
            0 <= i < pages.len() - 1 ==> (#[trigger] pages[i]).0.len() > 0 && pages[i].1 is Some,
    ensures
        scanned(scan, pages).posts == scan.posts + all_posts(pages),
    decreases pages.len(),
{
    if pages.len() == 0 {
        assert(scan.posts + all_posts(pages) == scan.posts);
    } else {
        let rest = pages.subrange(1, pages.len() as int);
        let (page, next) = pages[0];
        let taken = scan.with_page(page, next);
        assert(scan.posts + all_posts(pages) == (scan.posts + page) + all_posts(rest));
        assert(scan.posts + page == taken.posts);
        assert forall|i: int| 0 <= i < rest.len() - 1 implies (#[trigger] rest[i]).0.len() > 0
            && rest[i].1 is Some by {
            assert(rest[i] == pages[i + 1]);
        }
        if scan.goes_on(page, next) {
            law_unlimited_scan_takes_everything(taken, rest);
        } else {
            if pages.len() > 1 {
                assert(pages[0].0.len() > 0 && pages[0].1 is Some);
            }
            assert(rest.len() == 0);
            assert(taken.posts + all_posts(rest) == taken.posts);
        }
    }
}

/// A scan that goes on asks for the page behind the one that it has taken: its
/// cursor is the one that came with that page.
pub proof fn law_scan_follows_the_cursor(
    scan: ScanView,
    page: Seq<PostSummaryView>,
    next: Option<Seq<char>>,
)
    requires
        scan.goes_on(page, next),
    ensures
        scan.with_page(page, next).cursor == next,
        scan.with_page(page, next).posts.len() > scan.posts.len(),
{
}

/// Another page is asked for exactly when the page held posts, there is a next
/// page, and the limit, if there is one, is not reached.
pub proof fn law_scan_goes_on_until_it_has_enough(
    scan: ScanView,
    page: Seq<PostSummaryView>,
    next: Option<Seq<char>>,
)
    ensures
        page.len() > 0 && next is Some && scan.limit == 0 ==> scan.goes_on(page, next),
        page.len() > 0 && next is Some && scan.posts.len() + page.len() < scan.limit
            ==> scan.goes_on(page, next),
        page.len() == 0 || next is None ==> !scan.goes_on(page, next),
        0 < scan.limit <= scan.posts.len() + page.len() ==> !scan.goes_on(page, next),
{
}

/// A page adds its posts behind those that were gathered before it, cut down to
/// the limit if there is one; nothing else of the scan changes but the cursor.
pub proof fn law_page_is_added(
    scan: ScanView,
    page: Seq<PostSummaryView>,
    next: Option<Seq<char>>,
)
    ensures
        scan.limit == 0 || scan.posts.len() + page.len() <= scan.limit ==> scan.with_page(
            page,
            next,
        ).posts == scan.posts + page,
        scan.limit > 0 && page.len() > 0 && scan.posts.len() + page.len() > scan.limit
            ==> scan.with_page(page, next).posts == (scan.posts + page).take(scan.limit as int),
        page.len() == 0 ==> scan.with_page(page, next) == scan,
        scan.with_page(page, next).limit == scan.limit,
        scan.with_page(page, next).total == scan.total,
        scan.with_page(page, next).cursor == scan.cursor || scan.with_page(page, next).cursor
            == next,
{
    let all = scan.posts + page;
    if page.len() == 0 {
        assert(all == scan.posts);
    }
    if scan.limit > 0 && all.len() == scan.limit {
        assert(all.subrange(0, scan.limit as int) == all);
    }
}

/// A scan with a limit gathers exactly the first posts up to that limit, or all
/// of them where there are fewer, as long as no page before the last one is empty
/// or comes without a cursor.
pub proof fn law_limited_scan_takes_the_first(
    scan: ScanView,
    pages: Seq<(Seq<PostSummaryView>, Option<Seq<char>>)>,
)
    requires
        scan.limit > 0,
        scan.posts.len() < scan.limit,
        forall|i: int|
            0 <= i < pages.len() - 1 ==> (#[trigger] pages[i]).0.len() > 0 && pages[i].1 is Some,
    ensures
        scanned(scan, pages).posts == (scan.posts + all_posts(pages)).take(
            if scan.posts.len() + all_posts(pages).len() < scan.limit {
                (scan.posts.len() + all_posts(pages).len()) as int
            } else {
                scan.limit as int
            },
        ),
    decreases pages.len(),
{
    let whole = scan.posts + all_posts(pages);
    if pages.len() == 0 {
        assert(whole.take(whole.len() as int) == scan.posts);
    } else {
        let rest = pages.subrange(1, pages.len() as int);
        let (page, next) = pages[0];
        let taken = scan.with_page(page, next);
        assert(whole == (scan.posts + page) + all_posts(rest));
        assert forall|i: int| 0 <= i < rest.len() - 1 implies (#[trigger] rest[i]).0.len() > 0
            && rest[i].1 is Some by {
            assert(rest[i] == pages[i + 1]);
        }
        if scan.goes_on(page, next) {
            law_limited_scan_takes_the_first(taken, rest);
        } else if page.len() > 0 && scan.posts.len() + page.len() >= scan.limit {
            assert(whole.take(scan.limit as int) == taken.posts);
        } else {
            if pages.len() > 1 {
                assert(pages[0].0.len() > 0 && pages[0].1 is Some);
            }
            assert(rest.len() == 0);
            assert(whole == scan.posts + page);
            assert(whole.take(whole.len() as int) == whole);
            assert(taken.posts == whole);
        }
    }
}

} // verus!
