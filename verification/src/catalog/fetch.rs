//! Which catalog requests go out to a venue, one after the other.
use vstd::prelude::*;

use super::payload;
use crate::catalog;
use crate::catalog::{CatalogError, CatalogErrorView, Instrument, InstrumentView, Listing};
use crate::domain::Provider;
use crate::providers;
use crate::text;
use crate::weburl;
use crate::weburl::QueryPair;

verus! {

pub const BYBIT_PAGE_LIMIT: &'static str = "1000";

/// The most pages of Bybit's catalog.
pub const BYBIT_MAX_PAGES: usize = 10_000;

/// The retrieval of the catalog of one venue, page by page.
#[derive(Debug)]
pub struct CatalogFetch {
    provider: Provider,
    endpoint: String,
    cursor: Option<String>,
    requested_cursors: Vec<String>,
    pages: usize,
    done: bool,
    listing: Listing,
}

/// The mathematical value of a [`CatalogFetch`].
pub struct FetchView {
    pub provider: Provider,
    pub endpoint: Seq<char>,
    pub cursor: Option<Seq<char>>,
    pub requested_cursors: Seq<Seq<char>>,
    pub pages: nat,
    pub done: bool,
    pub instruments: Seq<InstrumentView>,
}

impl View for CatalogFetch {
    type V = FetchView;

    closed spec fn view(&self) -> FetchView {
        FetchView {
            provider: self.provider,
            endpoint: self.endpoint@,
            cursor: match self.cursor {
                Some(cursor) => Some(cursor@),
                None => None,
            },
            requested_cursors: providers::text_views(self.requested_cursors@),
            pages: self.pages as nat,
            done: self.done,
            instruments: self.listing@,
        }
    }
}

/// A retrieval that has not asked for anything yet.
pub open spec fn fresh(provider: Provider, endpoint: Seq<char>) -> FetchView {
    FetchView {
        provider,
        endpoint,
        cursor: None,
        requested_cursors: Seq::empty(),
        pages: 0,
        done: false,
        instruments: Seq::empty(),
    }
}

/// The query of the next request: nothing where the endpoint is asked as it is.
pub open spec fn query(fetch: FetchView) -> Option<Seq<(Seq<char>, Seq<char>)>> {
    match fetch.provider {
        Provider::Bybit => {
            let pairs = seq![("category"@, "linear"@), ("limit"@, BYBIT_PAGE_LIMIT@)];
            match fetch.cursor {
                Some(cursor) => Some(pairs.push(("cursor"@, cursor))),
                None => Some(pairs),
            }
        },
        Provider::Okx => Some(seq![("instType"@, "SWAP"@)]),
        _ => None,
    }
}

/// The URL of the next request.
pub open spec fn address(fetch: FetchView) -> Option<Seq<char>> {
    match query(fetch) {
        Some(pairs) => weburl::url_with_query(fetch.endpoint, pairs),
        None => Some(fetch.endpoint),
    }
}

/// A retrieval after a page of Bybit's catalog: complete after the last page, or else about to ask
/// for the next one. A cursor that was asked for before and too many pages are refused.
pub open spec fn after_page(fetch: FetchView, page: payload::PageView) -> Result<
    FetchView,
    CatalogErrorView,
> {
    let provider = fetch.provider;
    let next = page.next_page_cursor;
    match payload::joined(fetch.instruments, page.instruments) {
        Err(error) => Err(error),
        Ok(instruments) => if next.len() == 0 {
            Ok(FetchView { done: true, instruments, pages: fetch.pages + 1, ..fetch })
        } else if fetch.requested_cursors.contains(next) {
            Err(CatalogErrorView::RepeatedCursor { provider, cursor: next })
        } else if fetch.pages + 1 >= BYBIT_MAX_PAGES {
            Err(CatalogErrorView::PaginationLimit { provider, limit: BYBIT_MAX_PAGES })
        } else {
            Ok(
                FetchView {
                    cursor: Some(next),
                    requested_cursors: fetch.requested_cursors.push(next),
                    pages: fetch.pages + 1,
                    instruments,
                    ..fetch
                },
            )
        },
    }
}

/// A retrieval after an answer.
pub open spec fn after_answer(fetch: FetchView, body: Seq<char>) -> Result<
    FetchView,
    CatalogErrorView,
> {
    if fetch.provider == Provider::Bybit {
        match payload::bybit_page_in(body) {
            Ok(page) => after_page(fetch, page),
            Err(error) => Err(error),
        }
    } else {
        match payload::answer_in(fetch.provider, body) {
            Ok(instruments) => Ok(
                FetchView { done: true, instruments, pages: fetch.pages + 1, ..fetch },
            ),
            Err(error) => Err(error),
        }
    }
}

/// An error about a prefix of the instruments is the error about all of them.
proof fn lemma_joined_error(list: Seq<InstrumentView>, more: Seq<InstrumentView>, count: int)
    requires
        0 <= count <= more.len(),
        payload::joined(list, more.take(count)) is Err,
    ensures
        payload::joined(list, more) == payload::joined(list, more.take(count)),
    decreases more.len(),
{
    if count < more.len() {
        assert(more.drop_last().take(count) =~= more.take(count));
        lemma_joined_error(list, more.drop_last(), count);
    } else {
        assert(more.take(count) =~= more);
    }
}

/// Put instruments into a listing.
fn join(listing: Listing, more: Vec<Instrument>) -> (r: Result<Listing, CatalogError>)
    requires
        forall|k: int|
            0 <= k < more@.len() ==> catalog::belongs(listing.venue(), (#[trigger] more@[k])@),
    ensures
        catalog::fetched_view(r) == payload::joined(
            listing@,
            catalog::instrument_views(more@),
        ),
        r matches Ok(joined) ==> joined.venue() == listing.venue(),
{
    let ghost all = catalog::instrument_views(more@);
    let ghost start = listing@;
    let ghost venue = listing.venue();
    let mut joined = listing;
    let mut i: usize = 0;
    while i < more.len()
        invariant
            i <= more@.len(),
            all == catalog::instrument_views(more@),
            start == listing@,
            venue == listing.venue(),
            joined.venue() == venue,
            forall|k: int|
                0 <= k < more@.len() ==> catalog::belongs(venue, (#[trigger] more@[k])@),
            payload::joined(start, all.take(i as int)) == Ok::<
                Seq<InstrumentView>,
                CatalogErrorView,
            >(joined@),
        decreases more.len() - i,
    {
        proof {
            assert(all.take(i + 1).drop_last() =~= all.take(i as int));
            assert(all.take(i + 1).last() == all[i as int]);
            if payload::joined(start, all.take(i + 1)) is Err {
                lemma_joined_error(start, all, i + 1);
            }
        }
        let instrument = more[i].clone();
        joined.insert_unique(instrument)?;
        i += 1;
    }
    proof {
        assert(all.take(i as int) =~= all);
    }
    Ok(joined)
}

impl CatalogFetch {
    /// The listing is one of the venue that is asked, and the pages are counted.
    #[verifier::type_invariant]
    spec fn coherent(&self) -> bool {
        &&& self.listing.venue() == self.provider
        &&& self.pages <= BYBIT_MAX_PAGES
        &&& !self.done ==> self.pages < BYBIT_MAX_PAGES
    }

    /// A retrieval that has not asked for anything yet.
    pub fn begin(provider: Provider, endpoint: &str) -> (fetch: CatalogFetch)
        ensures
            fetch@ == fresh(provider, endpoint@),
    {
        let fetch = CatalogFetch {
            provider,
            endpoint: endpoint.to_owned(),
            cursor: None,
            requested_cursors: Vec::new(),
            pages: 0,
            done: false,
            listing: Listing::new(provider),
        };
        proof {
            assert(providers::text_views(fetch.requested_cursors@) =~= Seq::empty());
        }
        fetch
    }

    /// Whether the catalog is complete.
    pub fn is_done(&self) -> (answer: bool)
        ensures
            answer == self@.done,
    {
        self.done
    }

    /// The URL to ask next.
    ///
    /// # Errors
    ///
    /// An endpoint that is no URL is refused.
    pub fn next_url(&self) -> (r: Result<String, CatalogError>)
        ensures
            match r {
                Ok(url) => address(self@) == Some(url@),
                Err(error) => {
                    &&& address(self@) is None
                    &&& error@ == (CatalogErrorView::Request {
                        provider: self@.provider,
                        message: "catalog endpoint is not a URL"@,
                    })
                },
            },
            weburl::url_of(self@.endpoint) is Ok ==> r is Ok,
    {
        let mut pairs: Vec<QueryPair> = Vec::new();
        match self.provider {
            Provider::Bybit => {
                pairs.push(QueryPair { name: "category", value: "linear".to_owned() });
                pairs.push(QueryPair { name: "limit", value: BYBIT_PAGE_LIMIT.to_owned() });
                if let Some(cursor) = &self.cursor {
                    pairs.push(QueryPair { name: "cursor", value: cursor.clone() });
                }
            },
            Provider::Okx => {
                pairs.push(QueryPair { name: "instType", value: "SWAP".to_owned() });
            },
            _ => {
                return Ok(self.endpoint.clone());
            },
        }
        proof {
            assert(weburl::pair_views(pairs@) =~= query(self@)->0);
        }
        match weburl::replace_pairs(self.endpoint.as_str(), &pairs) {
            Some(url) => Ok(url),
            None => Err(
                CatalogError::Request {
                    provider: self.provider,
                    message: "catalog endpoint is not a URL".to_owned(),
                },
            ),
        }
    }

    /// Whether a cursor was asked for.
    fn was_requested(&self, cursor: &str) -> (answer: bool)
        ensures
            answer == self@.requested_cursors.contains(cursor@),
    {
        let ghost all = self@.requested_cursors;
        let mut i: usize = 0;
        while i < self.requested_cursors.len()
            invariant
                i <= self.requested_cursors@.len(),
                all == providers::text_views(self.requested_cursors@),
                forall|k: int| 0 <= k < i ==> #[trigger] all[k] != cursor@,
            decreases self.requested_cursors.len() - i,
        {
            if text::same(self.requested_cursors[i].as_str(), cursor) {
                proof {
                    assert(all[i as int] == cursor@);
                }
                return true;
            }
            i += 1;
        }
        false
    }

    /// Take a page of Bybit's catalog.
    ///
    /// # Errors
    ///
    /// An instrument that came before, a cursor that was asked for before and too many pages are
    /// refused.
    pub fn take_page(self, page: payload::BybitPage) -> (r: Result<CatalogFetch, CatalogError>)
        requires
            self@.provider == Provider::Bybit,
            !self@.done,
            forall|k: int|
                0 <= k < page.instruments@.len() ==> catalog::belongs(
                    Provider::Bybit,
                    (#[trigger] page.instruments@[k])@,
                ),
        ensures
            match r {
                Ok(fetch) => after_page(self@, page@) == Ok::<FetchView, CatalogErrorView>(fetch@),
                Err(error) => after_page(self@, page@) == Err::<FetchView, CatalogErrorView>(
                    error@,
                ),
            },
    {
        proof {
            use_type_invariant(&self);
        }
        let repeated = self.was_requested(page.next_page_cursor.as_str());
        let CatalogFetch { provider, endpoint, cursor, requested_cursors, pages, done, listing } =
            self;
        let ghost before = providers::text_views(requested_cursors@);
        let listing = join(listing, page.instruments)?;
        let next = page.next_page_cursor;
        if next.as_str().is_empty() {
            return Ok(
                CatalogFetch {
                    provider,
                    endpoint,
                    cursor,
                    requested_cursors,
                    pages: pages + 1,
                    done: true,
                    listing,
                },
            );
        }
        if repeated {
            return Err(CatalogError::RepeatedCursor { provider, cursor: next });
        }
        if pages + 1 >= BYBIT_MAX_PAGES {
            return Err(CatalogError::PaginationLimit { provider, limit: BYBIT_MAX_PAGES });
        }
        let mut requested_cursors = requested_cursors;
        requested_cursors.push(next.clone());
        proof {
            assert(providers::text_views(requested_cursors@) =~= before.push(next@));
        }
        Ok(
            CatalogFetch {
                provider,
                endpoint,
                cursor: Some(next),
                requested_cursors,
                pages: pages + 1,
                done,
                listing,
            },
        )
    }

    /// Take an answer.
    ///
    /// # Errors
    ///
    /// What is wrong with the answer, with the instruments or with the cursor in it.
    pub fn take_answer(self, body: &str) -> (r: Result<CatalogFetch, CatalogError>)
        requires
            !self@.done,
        ensures
            match r {
                Ok(fetch) => after_answer(self@, body@) == Ok::<FetchView, CatalogErrorView>(
                    fetch@,
                ),
                Err(error) => after_answer(self@, body@) == Err::<FetchView, CatalogErrorView>(
                    error@,
                ),
            },
    {
        proof {
            use_type_invariant(&self);
        }
        if self.provider == Provider::Bybit {
            let page = payload::parse_bybit_page(body)?;
            return self.take_page(page);
        }
        let listing = payload::parse_catalog(self.provider, body)?;
        let CatalogFetch { provider, endpoint, cursor, requested_cursors, pages, .. } = self;
        Ok(
            CatalogFetch {
                provider,
                endpoint,
                cursor,
                requested_cursors,
                pages: pages + 1,
                done: true,
                listing,
            },
        )
    }

    /// The listing of a complete catalog.
    pub fn finish(self) -> (listing: Listing)
        ensures
            listing@ == self@.instruments,
            listing.venue() == self@.provider,
            catalog::is_listing(listing.venue(), listing@),
    {
        proof {
            use_type_invariant(&self);
        }
        let count = self.listing.len();
        self.listing
    }
}

// ---------------------------------------------------------------------------------------------
// Laws
// ---------------------------------------------------------------------------------------------

/// A retrieval that goes on asks for a page that it did not ask for before, and it asks for at
/// most a fixed number of pages.
pub proof fn law_pagination_makes_progress(fetch: FetchView, page: payload::PageView)
    requires
        after_page(fetch, page) is Ok,
        !fetch.done,
    ensures
        ({
            let after = after_page(fetch, page)->Ok_0;
            &&& after.pages == fetch.pages + 1
            &&& !after.done ==> {
                &&& after.pages < BYBIT_MAX_PAGES
                &&& after.cursor == Some(page.next_page_cursor)
                &&& !fetch.requested_cursors.contains(page.next_page_cursor)
                &&& after.requested_cursors == fetch.requested_cursors.push(page.next_page_cursor)
            }
        }),
{
}

/// No instrument is lost between pages: what came before a page is there after it.
pub proof fn law_pages_only_add(
    list: Seq<InstrumentView>,
    more: Seq<InstrumentView>,
    instrument: InstrumentView,
)
    requires
        payload::joined(list, more) is Ok,
        list.contains(instrument) || more.contains(instrument),
    ensures
        payload::joined(list, more)->Ok_0.contains(instrument),
    decreases more.len(),
{
    if more.len() > 0 {
        let shorter = payload::joined(list, more.drop_last())->Ok_0;
        let last = more.last();
        let at = catalog::place(shorter, last.symbol);
        catalog::lemma_place(shorter, last.symbol);
        let longer = catalog::added(shorter, last);
        if list.contains(instrument) || more.drop_last().contains(instrument) {
            law_pages_only_add(list, more.drop_last(), instrument);
            let i = choose|i: int| 0 <= i < shorter.len() && shorter[i] == instrument;
            if i < at {
                assert(longer[i] == instrument);
            } else {
                assert(longer[i + 1] == instrument);
            }
        } else {
            let i = choose|i: int| 0 <= i < more.len() && more[i] == instrument;
            if i < more.len() - 1 {
                assert(more.drop_last()[i] == instrument);
            }
            assert(longer[at] == instrument);
        }
    }
}

} // verus!
