use vstd::prelude::*;

use crate::error::CommonError;

verus! {

/// A page of results: which page, and how many items a page holds.
pub struct PageQuery {
    current_page: i32,
    item_per_page: i32,
}

/// A keyword search for stickers, with its page.
pub struct SearchEmotionsQuery {
    page_query: PageQuery,
    keywords: String,
}

/// The page that a search asks for.
#[derive(Debug, Clone, Copy, PartialEq, Eq, Structural)]
pub struct PageSpec {
    pub current_page: i32,
    pub page_size: i32,
}

/// A sticker search: the keywords and the page asked for.
#[derive(Debug, Clone)]
pub struct EmotionSpec {
    pub keywords: String,
    pub page: PageSpec,
}

/// The number of the first item that a page asks for: the page number
/// times the page size.
pub open spec fn first_item(page: PageSpec) -> int {
    page.current_page * page.page_size
}

/// The page after `page`, with the same size.
pub open spec fn following_page(page: PageSpec) -> PageSpec {
    PageSpec { current_page: (page.current_page + 1) as i32, page_size: page.page_size }
}

/// Paging law: the page after a page asks for the items that come right
/// after the items of that page, so that paging through a search neither
/// skips nor repeats items.
pub proof fn lemma_pages_are_contiguous(page: PageSpec)
    requires
        page.current_page < i32::MAX,
    ensures
        first_item(following_page(page)) == first_item(page) + page.page_size,
{
    assert((page.current_page + 1) * page.page_size == page.current_page * page.page_size
        + page.page_size) by (nonlinear_arith);
}

/// The number of stickers the program asks for in one page.
pub const STICKERS_PER_PAGE: i32 = 18;

impl EmotionSpec {
    /// The query the program starts with: no keywords, the first page,
    /// 18 stickers a page.
    pub fn initial() -> (r: EmotionSpec)
        ensures
            r.keywords@ == Seq::<char>::empty(),
            r.page == (PageSpec { current_page: 0, page_size: STICKERS_PER_PAGE }),
    {
        EmotionSpec {
            keywords: String::new(),
            page: PageSpec { current_page: 0, page_size: STICKERS_PER_PAGE },
        }
    }

    /// The query for the next page of the same search: same keywords, same
    /// page size, the page after this one.
    pub fn next_page(&self) -> (r: EmotionSpec)
        requires
            self.page.current_page < i32::MAX,
        ensures
            r.keywords@ == self.keywords@,
            r.page == following_page(self.page),
    {
        EmotionSpec {
            keywords: self.keywords.clone(),
            page: PageSpec {
                page_size: self.page.page_size,
                current_page: self.page.current_page + 1,
            },
        }
    }

    /// The query for a new search typed by the user: nothing when the text is
    /// empty; otherwise the first page of the new keywords, with the page
    /// size kept.
    pub fn start_search(&self, search: String) -> (r: Option<EmotionSpec>)
        ensures
            search@.len() == 0 ==> r is None,
            search@.len() != 0 ==> (r matches Some(q) && q.keywords@ == search@ && q.page == (
            PageSpec { current_page: 0, page_size: self.page.page_size })),
    {
        if search.as_str().is_empty() {
            return None;
        }
        Some(
            EmotionSpec {
                keywords: search,
                page: PageSpec { page_size: self.page.page_size, current_page: 0 },
            },
        )
    }
}

/// What happens in the sticker window that changes the search.
pub enum BrowseEvent {
    /// The grid was scrolled; the flag says whether it reached its end.
    Scrolled(bool),
    /// The stickers of the page asked for are on the grid.
    PageShown,
    /// The user entered a search text.
    Searched(String),
}

/// The state of the sticker window as the contracts see it: the keywords,
/// the page of the current query, and whether a page is being loaded.
pub open spec fn browse_state(keywords: Seq<char>, page: PageSpec, loading: bool) -> (
    Seq<char>,
    PageSpec,
    bool,
) {
    (keywords, page, loading)
}

/// One step of the sticker window: the next state, and the page to fetch,
/// if any.
/// - A scroll to the end while nothing is loading moves to the following
///   page, marks it as loading and fetches it; any other scroll changes
///   nothing.
/// - A shown page ends the loading.
/// - An empty search text changes nothing; another one starts a new search
///   at page 0 with the same page size and fetches that page. The window
///   does not wait for that fetch, so loading is off afterwards.
pub open spec fn browse_step(state: (Seq<char>, PageSpec, bool), event: BrowseEvent) -> (
    (Seq<char>, PageSpec, bool),
    Option<PageSpec>,
) {
    let (keywords, page, loading) = state;
    match event {
        BrowseEvent::Scrolled(at_end) => if at_end && !loading {
            ((keywords, following_page(page), true), Some(following_page(page)))
        } else {
            (state, None)
        },
        BrowseEvent::PageShown => ((keywords, page, false), None),
        BrowseEvent::Searched(text) => if text@.len() == 0 {
            (state, None)
        } else {
            let first = PageSpec { current_page: 0, page_size: page.page_size };
            ((text@, first, false), Some(first))
        },
    }
}

/// Whether a step can be taken: moving past the last page an `i32` can
/// number overflows.
pub open spec fn browse_step_allowed(state: (Seq<char>, PageSpec, bool), event: BrowseEvent) -> bool {
    event matches BrowseEvent::Scrolled(at_end) && at_end && !state.2 ==> state.1.current_page
        < i32::MAX
}

/// The search state of the sticker window.
pub struct Browser {
    pub query: EmotionSpec,
    pub loading: bool,
}

impl Browser {
    /// The state as the contracts see it.
    pub open spec fn state(&self) -> (Seq<char>, PageSpec, bool) {
        browse_state(self.query.keywords@, self.query.page, self.loading)
    }

    /// The window's first state: the initial query, nothing loading.
    pub fn new() -> (r: Browser)
        ensures
            r.state() == browse_state(Seq::<char>::empty(), PageSpec { current_page: 0, page_size: STICKERS_PER_PAGE }, false),
    {
        Browser { query: EmotionSpec::initial(), loading: false }
    }

    /// Takes one step (see [`browse_step`]) and gives the query to fetch, if
    /// any; that query is the new current query.
    pub fn step(&mut self, event: BrowseEvent) -> (r: Option<EmotionSpec>)
        requires
            browse_step_allowed(old(self).state(), event),
        ensures
            final(self).state() == browse_step(old(self).state(), event).0,
            match browse_step(old(self).state(), event).1 {
                Some(page) => r matches Some(q) && q.page == page && q.keywords@
                    == final(self).query.keywords@,
                None => r is None,
            },
    {
        match event {
            BrowseEvent::Scrolled(at_end) => {
                if at_end && !self.loading {
                    self.query = self.query.next_page();
                    self.loading = true;
                    Some(
                        EmotionSpec { keywords: self.query.keywords.clone(), page: self.query.page },
                    )
                } else {
                    None
                }
            },
            BrowseEvent::PageShown => {
                self.loading = false;
                None
            },
            BrowseEvent::Searched(text) => {
                match self.query.start_search(text) {
                    Some(q) => {
                        self.query = q;
                        self.loading = false;
                        Some(
                            EmotionSpec {
                                keywords: self.query.keywords.clone(),
                                page: self.query.page,
                            },
                        )
                    },
                    None => None,
                }
            },
        }
    }
}

/// Loading law: while a page is being loaded, no scroll fetches another page
/// and the state stays as it is.
pub proof fn lemma_no_second_load(state: (Seq<char>, PageSpec, bool), at_end: bool)
    requires
        state.2,
    ensures
        browse_step(state, BrowseEvent::Scrolled(at_end)) == (state, None::<PageSpec>),
{
}

/// The state after `k` rounds of "scroll to the end, then the page is
/// shown", starting from `state`.
pub open spec fn after_rounds(state: (Seq<char>, PageSpec, bool), k: nat) -> (
    Seq<char>,
    PageSpec,
    bool,
)
    decreases k,
{
    if k == 0 {
        state
    } else {
        let before = after_rounds(state, (k - 1) as nat);
        browse_step(browse_step(before, BrowseEvent::Scrolled(true)).0, BrowseEvent::PageShown).0
    }
}

/// Session law: after a search for a non-empty text `s` (from any state),
/// every round of "scroll to the end, then the page is shown" fetches the
/// next page of `s`, with the page size unchanged: the round `j` (counting
/// from 1, `j <= k <= i32::MAX`) fetches page `j`, starting at item
/// `j * page_size`, and ends with nothing loading. No page is skipped or
/// fetched twice, and a scroll never fetches while a page is loading.
pub proof fn lemma_search_session(
    before: (Seq<char>, PageSpec, bool),
    s: String,
    k: nat,
)
    requires
        s@.len() > 0,
        k < i32::MAX,
    ensures
        ({
            let (searched, fetched) = browse_step(before, BrowseEvent::Searched(s));
            &&& fetched == Some(PageSpec { current_page: 0, page_size: before.1.page_size })
            &&& forall|j: nat|
                1 <= j <= k ==> {
                    let round = #[trigger] after_rounds(searched, (j - 1) as nat);
                    let page = PageSpec { current_page: j as i32, page_size: before.1.page_size };
                    &&& browse_step(round, BrowseEvent::Scrolled(true)).1 == Some(page)
                    &&& first_item(page) == j * before.1.page_size
                    &&& after_rounds(searched, j) == (s@, page, false)
                }
        }),
    decreases k,
{
    let searched = browse_step(before, BrowseEvent::Searched(s)).0;
    let size = before.1.page_size;
    assert forall|j: nat| 1 <= j <= k implies {
        let round = #[trigger] after_rounds(searched, (j - 1) as nat);
        let page = PageSpec { current_page: j as i32, page_size: size };
        &&& browse_step(round, BrowseEvent::Scrolled(true)).1 == Some(page)
        &&& first_item(page) == j * size
        &&& after_rounds(searched, j) == (s@, page, false)
    } by {
        lemma_rounds(s@, size, (j - 1) as nat);
    }
}

proof fn lemma_rounds(s: Seq<char>, size: i32, j: nat)
    requires
        j < i32::MAX,
    ensures
        after_rounds((s, PageSpec { current_page: 0, page_size: size }, false), j) == (
            s,
            PageSpec { current_page: j as i32, page_size: size },
            false,
        ),
    decreases j,
{
    if j > 0 {
        lemma_rounds(s, size, (j - 1) as nat);
    }
}

/// A source of stickers: it finds sticker URLs for a search and loads the
/// bytes behind a URL.
pub trait FindEmotion {
    fn load_emotion(&self, url: &String) -> Result<Box<[u8]>, CommonError>;

    fn search_emotions(&self, emotion_spec: &EmotionSpec) -> Result<Vec<String>, CommonError>;
}

} // verus!
