//! Page-by-page retrieval of a history: which page to ask for next, and when
//! to stop.

use vstd::prelude::*;
use crate::history::{records_of, HistoryItem, RawRecord};

verus! {

/// The number of records asked for with each page.
pub const PAGE_SIZE: usize = 1000;

/// The state of a retrieval, as a mathematical value.
pub struct FetchModel {
    /// The zero-based index of the page that is due next.
    pub next_page: nat,
    /// The records of all pages taken so far, in order.
    pub collected: Seq<RawRecord>,
    /// Whether a page shorter than `PAGE_SIZE` has come.
    pub finished: bool,
}

/// What the caller has to do next.
#[derive(Debug, Clone, Copy, PartialEq, Eq, Structural)]
pub enum FetchAction {
    /// Ask for the page with index `start`, of `length` records.
    Request { start: usize, length: usize },
    /// The history is complete: ask for nothing more.
    Finished,
}

/// A retrieval in progress.
#[derive(Debug)]
pub struct HistoryFetch {
    pub page: usize,
    pub history: Vec<HistoryItem>,
    pub finished: bool,
}

/// The state before any page was asked for.
pub open spec fn initial() -> FetchModel {
    FetchModel { next_page: 0, collected: Seq::empty(), finished: false }
}

/// The state after one more page has come. A page shorter than `PAGE_SIZE` is
/// the last one; a page that comes after the last one is ignored.
pub open spec fn accept(state: FetchModel, page: Seq<RawRecord>) -> FetchModel {
    if state.finished {
        state
    } else if page.len() < PAGE_SIZE {
        FetchModel { next_page: state.next_page, collected: state.collected + page, finished: true }
    } else {
        FetchModel {
            next_page: state.next_page + 1,
            collected: state.collected + page,
            finished: false,
        }
    }
}

/// The state after the pages have come one after the other.
pub open spec fn feed(state: FetchModel, pages: Seq<Seq<RawRecord>>) -> FetchModel
    decreases pages.len(),
{
    if pages.len() == 0 {
        state
    } else {
        accept(feed(state, pages.drop_last()), pages.last())
    }
}

/// The page that is asked for in this state, if any.
pub open spec fn pending_request(state: FetchModel) -> Option<nat> {
    if state.finished {
        None
    } else {
        Some(state.next_page)
    }
}

/// The number of pages that were asked for and have come.
pub open spec fn requests_answered(state: FetchModel) -> nat {
    if state.finished {
        state.next_page + 1
    } else {
        state.next_page
    }
}

/// While only full pages come, the retrieval goes on: after `pages.len()` of
/// them that many requests were answered, the next page is due, and all their
/// records are held.
pub proof fn lemma_full_pages_continue(pages: Seq<Seq<RawRecord>>)
    requires
        forall|i: int| 0 <= i < pages.len() ==> (#[trigger] pages[i]).len() == PAGE_SIZE,
    ensures
        !feed(initial(), pages).finished,
        feed(initial(), pages).next_page == pages.len(),
        feed(initial(), pages).collected.len() == pages.len() * PAGE_SIZE,
        pending_request(feed(initial(), pages)) == Some(pages.len()),
    decreases pages.len(),
{
    if pages.len() > 0 {
        let prefix = pages.drop_last();
        assert forall|i: int| 0 <= i < prefix.len() implies (#[trigger] prefix[i]).len()
            == PAGE_SIZE by {
            assert(prefix[i] == pages[i]);
        }
        lemma_full_pages_continue(prefix);
        assert(pages.last() == pages[pages.len() - 1]);
    }
}

/// After `k` full pages and one shorter page of `m` records the retrieval has
/// ended: it holds `k * PAGE_SIZE + m` records, `k + 1` requests were
/// answered, and no request is pending. Whatever comes later changes nothing.
pub proof fn lemma_fetch_stops_at_short_page(pages: Seq<Seq<RawRecord>>, k: nat, m: nat)
    requires
        pages.len() == k + 1,
        forall|i: int| 0 <= i < k ==> (#[trigger] pages[i]).len() == PAGE_SIZE,
        pages[k as int].len() == m,
        m < PAGE_SIZE,
    ensures
        feed(initial(), pages).finished,
        feed(initial(), pages).collected.len() == k * PAGE_SIZE + m,
        requests_answered(feed(initial(), pages)) == k + 1,
        pending_request(feed(initial(), pages)).is_none(),
        forall|later: Seq<RawRecord>|
            accept(feed(initial(), pages), later) == feed(initial(), pages),
{
    let prefix = pages.drop_last();
    assert forall|i: int| 0 <= i < prefix.len() implies (#[trigger] prefix[i]).len()
        == PAGE_SIZE by {
        assert(prefix[i] == pages[i]);
    }
    lemma_full_pages_continue(prefix);
    assert(pages.last() == pages[k as int]);
}

impl View for HistoryFetch {
    type V = FetchModel;

    open spec fn view(&self) -> FetchModel {
        FetchModel {
            next_page: self.page as nat,
            collected: records_of(self.history@),
            finished: self.finished,
        }
    }
}

/// What the caller has to do in a state.
pub open spec fn action_of(state: FetchModel) -> FetchAction {
    match pending_request(state) {
        Some(page) => FetchAction::Request { start: page as usize, length: PAGE_SIZE },
        None => FetchAction::Finished,
    }
}

impl HistoryFetch {
    /// Every page taken so far but the last was full.
    pub open spec fn wf(&self) -> bool {
        self.page * PAGE_SIZE <= self.history.len()
    }

    /// A retrieval that has asked for nothing yet.
    pub fn new() -> (fetch: HistoryFetch)
        ensures
            fetch@ == initial(),
            fetch.wf(),
    {
        let fetch = HistoryFetch { page: 0, history: Vec::new(), finished: false };
        assert(records_of(fetch.history@) =~= Seq::empty());
        fetch
    }

    /// What to do now: ask for the page that is due, or stop.
    pub fn next_action(&self) -> (action: FetchAction)
        ensures
            action == action_of(self@),
    {
        if self.finished {
            FetchAction::Finished
        } else {
            FetchAction::Request { start: self.page, length: PAGE_SIZE }
        }
    }

    /// Takes the page that was asked for and says what to do next. The page's
    /// records are added to those held; a page shorter than `PAGE_SIZE` ends
    /// the retrieval, a full one makes the next page due.
    pub fn accept_page(&mut self, page: Vec<HistoryItem>) -> (action: FetchAction)
        requires
            old(self).wf(),
        ensures
            final(self).wf(),
            final(self)@ == accept(old(self)@, records_of(page@)),
            action == action_of(final(self)@),
    {
        if self.finished {
            return FetchAction::Finished;
        }
        let mut page = page;
        let ghost before = records_of(self.history@);
        let ghost added = records_of(page@);
        let full = page.len() >= PAGE_SIZE;
        self.history.append(&mut page);
        assert(records_of(self.history@) =~= before + added);
        if full {
            self.page += 1;
            FetchAction::Request { start: self.page, length: PAGE_SIZE }
        } else {
            self.finished = true;
            FetchAction::Finished
        }
    }

    /// The records of all pages taken, in the order in which they came.
    pub fn into_history(self) -> (history: Vec<HistoryItem>)
        ensures
            records_of(history@) == self@.collected,
    {
        self.history
    }
}

} // verus!
