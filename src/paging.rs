//! The "fetch until the reported total is reached" protocol, shared by the
//! follow-graph listings and the content listing of a peer.
use vstd::prelude::*;

verus! {

/// Largest value an index or a total of a cursor can hold.
pub open spec fn count_max() -> nat {
    u64::MAX as nat
}

/// `a + b`, held at `count_max()` when it would pass it.
pub open spec fn saturating_sum(a: nat, b: nat) -> nat {
    if a + b > count_max() {
        count_max()
    } else {
        a + b
    }
}

/// What a cursor knows about a paginated listing.
pub struct CursorState {
    /// Items received so far; also the start of the next page to ask for.
    pub index: nat,
    /// Number of items the listing is expected to hold.
    pub total: nat,
    /// Whether `total` was taken from a response.
    pub total_known: bool,
    /// Set once a failure or an empty page ended the fetch.
    pub exhausted: bool,
}

impl CursorState {
    /// Before any request: the total is unknown, and the sentinel `1` forces
    /// a first request.
    pub open spec fn initial() -> CursorState {
        CursorState { index: 0, total: 1, total_known: false, exhausted: false }
    }

    /// Whether another page is to be requested.
    pub open spec fn wants_page(self) -> bool {
        !self.exhausted && self.index < self.total
    }

    /// The state after a page with `items` entries came back, with the total
    /// that the response reported, if any.
    ///
    /// A total is recorded once, from the first response; a first response
    /// without one makes this page the last. An empty page ends the fetch.
    pub open spec fn after_page(self, items: nat, reported: Option<nat>) -> CursorState {
        let next = saturating_sum(self.index, items);
        let total = if self.total_known {
            self.total
        } else {
            match reported {
                Some(t) => t,
                None => next,
            }
        };
        CursorState { index: next, total, total_known: true, exhausted: items == 0 }
    }

    /// The state after a transport failure or an unreadable response: what
    /// was gathered is kept and no further page is asked for.
    pub open spec fn after_failure(self) -> CursorState {
        CursorState { exhausted: true, ..self }
    }
}

/// State of one paginated fetch against one peer endpoint.
pub struct PageCursor {
    index: u64,
    total: u64,
    total_known: bool,
    exhausted: bool,
}

impl View for PageCursor {
    type V = CursorState;

    closed spec fn view(&self) -> CursorState {
        CursorState {
            index: self.index as nat,
            total: self.total as nat,
            total_known: self.total_known,
            exhausted: self.exhausted,
        }
    }
}

impl PageCursor {
    /// A cursor for a listing of which nothing has been fetched.
    pub fn new() -> (r: PageCursor)
        ensures
            r@ == CursorState::initial(),
    {
        PageCursor { index: 0, total: 1, total_known: false, exhausted: false }
    }

    /// Whether the fetch loop is to request another page.
    pub fn wants_page(&self) -> (r: bool)
        ensures
            r == self@.wants_page(),
    {
        !self.exhausted && self.index < self.total
    }

    /// Start of the next page to request: the number of items received.
    pub fn next_start(&self) -> (r: u64)
        ensures
            r as nat == self@.index,
    {
        self.index
    }

    /// Number of items received so far.
    pub fn fetched(&self) -> (r: u64)
        ensures
            r as nat == self@.index,
    {
        self.index
    }

    /// The total reported by the peer, once one was recorded.
    pub fn known_total(&self) -> (r: Option<u64>)
        ensures
            self@.total_known ==> r == Some(self@.total as u64),
            !self@.total_known ==> r.is_none(),
    {
        if self.total_known {
            Some(self.total)
        } else {
            None
        }
    }

    /// Takes in a page of `items` entries whose response reported `reported`
    /// as the listing's total, if it reported one.
    pub fn on_page(&mut self, items: usize, reported: Option<u64>)
        ensures
            final(self)@ == old(self)@.after_page(
                items as nat,
                match reported {
                    Some(t) => Some(t as nat),
                    None => None,
                },
            ),
    {
        let next: u64 = if items as u64 > u64::MAX - self.index {
            u64::MAX
        } else {
            self.index + items as u64
        };
        if !self.total_known {
            self.total = match reported {
                Some(t) => t,
                None => next,
            };
            self.total_known = true;
        }
        self.index = next;
        self.exhausted = items == 0;
    }

    /// Ends the fetch after a failed request or a response that could not be read.
    pub fn on_failure(&mut self)
        ensures
            final(self)@ == old(self)@.after_failure(),
    {
        self.exhausted = true;
    }
}

/// Number of entries a peer holding `total` items, serving pages of at most
/// `page` entries, puts on the page that starts at `start`.
pub open spec fn served_items(total: nat, page: nat, start: nat) -> nat {
    if start >= total {
        0
    } else if total - start < page {
        (total - start) as nat
    } else {
        page
    }
}

/// Drives a cursor against such a peer, which reports `total` with every page,
/// for at most `fuel` requests: the final state and the number of requests made.
pub open spec fn run_against_peer(c: CursorState, total: nat, page: nat, fuel: nat) -> (
    CursorState,
    nat,
)
    decreases fuel,
{
    if !c.wants_page() || fuel == 0 {
        (c, 0)
    } else {
        let next = c.after_page(served_items(total, page, c.index), Some(total));
        let (end, n) = run_against_peer(next, total, page, (fuel - 1) as nat);
        (end, n + 1)
    }
}

/// `a / b`, rounded up.
pub open spec fn ceil_div(a: nat, b: nat) -> nat
    recommends
        b > 0,
{
    ((a + b - 1) / b as int) as nat
}

proof fn lemma_ceil_div_step(a: nat, b: nat)
    requires
        b >= 1,
        a > b,
    ensures
        ceil_div(a, b) == 1 + ceil_div((a - b) as nat, b),
        ceil_div((a - b) as nat, b) <= a - b,
{
    assert(((a + b - 1) as int) / (b as int) == 1 + ((a - b + b - 1) as int) / (b as int))
        by (nonlinear_arith)
        requires
            b >= 1,
            a > b,
    ;
    assert(((a - b + b - 1) as int) / (b as int) <= a - b) by (nonlinear_arith)
        requires
            b >= 1,
            a > b,
    ;
}

proof fn lemma_ceil_div_one(a: nat, b: nat)
    requires
        1 <= a <= b,
    ensures
        ceil_div(a, b) == 1,
{
    assert(((a + b - 1) as int) / (b as int) == 1) by (nonlinear_arith)
        requires
            1 <= a <= b,
    ;
}

proof fn lemma_run_from_middle(c: CursorState, total: nat, page: nat, fuel: nat)
    requires
        page >= 1,
        total <= count_max(),
        !c.exhausted,
        c.index < total,
        c.total_known ==> c.total == total,
        !c.total_known ==> c.index < c.total,
        fuel >= ceil_div((total - c.index) as nat, page),
    ensures
        run_against_peer(c, total, page, fuel).0.index == total,
        !run_against_peer(c, total, page, fuel).0.wants_page(),
        run_against_peer(c, total, page, fuel).1 == ceil_div((total - c.index) as nat, page),
    decreases total - c.index,
{
    let rest = (total - c.index) as nat;
    let items = served_items(total, page, c.index);
    let next = c.after_page(items, Some(total));
    assert(c.wants_page());
    if rest <= page {
        lemma_ceil_div_one(rest, page);
        assert(items == rest);
        assert(next.index == total);
        assert(!next.wants_page());
        assert(run_against_peer(next, total, page, (fuel - 1) as nat) == (next, 0nat));
    } else {
        lemma_ceil_div_step(rest, page);
        assert(items == page);
        assert(next.index == c.index + page);
        lemma_run_from_middle(next, total, page, (fuel - 1) as nat);
    }
}

/// A fetch against a peer that reports a total of `total` items and serves
/// pages of `page` entries makes exactly `ceil(total / page)` requests and
/// ends having received exactly `total` items.
///
/// An empty listing (`total == 0`) is left out: the first request, which the
/// protocol always makes, finds an empty page, so one request is made there.
pub proof fn lemma_pagination_terminates(total: nat, page: nat)
    requires
        1 <= total <= count_max(),
        page >= 1,
    ensures
        ({
            let (end, requests) = run_against_peer(CursorState::initial(), total, page, total);
            &&& requests == ceil_div(total, page)
            &&& end.index == total
            &&& !end.wants_page()
        }),
{
    assert(ceil_div(total, page) <= total) by (nonlinear_arith)
        requires
            page >= 1,
            total >= 1,
            ceil_div(total, page) == ((total + page - 1) / page as int) as nat,
    ;
    lemma_run_from_middle(CursorState::initial(), total, page, total);
}

} // verus!
