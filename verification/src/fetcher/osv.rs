//! OSV.dev request and response records, and the pagination of a batch
//! query: which queries go out in each round and how the answers are
//! merged. The HTTP exchange itself is made by the caller, round by round.

use vstd::prelude::*;

use crate::text::owned;

verus! {

/// Maximum pagination rounds, so that a malformed response cannot keep
/// the loop going for ever.
pub const MAX_PAGES: usize = 20;

// ── Request types ──────────────────────────────────────────────

/// The body of a batch query.
pub struct BatchRequest {
    pub queries: Vec<Query>,
}

/// One versioned package query, with the page token of a later round.
pub struct Query {
    pub version: String,
    pub package: QueryPackage,
    pub page_token: Option<String>,
}

/// The package a query is about.
pub struct QueryPackage {
    pub name: String,
    pub ecosystem: String,
}

// ── Response types ─────────────────────────────────────────────

/// The answer to a batch query: one result per query, in order.
pub struct BatchResponse {
    pub results: Vec<QueryResult>,
}

/// The advisories of one query, and the token of its next page if any.
pub struct QueryResult {
    pub vulns: Vec<Advisory>,
    pub next_page_token: Option<String>,
}

/// One OSV advisory.
pub struct Advisory {
    pub id: String,
    pub summary: Option<String>,
    pub severity: Vec<Severity>,
    pub affected: Vec<Affected>,
    pub references: Vec<Reference>,
}

/// A severity score, as OSV writes it (a number or a CVSS vector).
pub struct Severity {
    pub score: Option<String>,
}

/// The affected versions of a package.
pub struct Affected {
    pub ranges: Vec<Range>,
    pub versions: Vec<String>,
}

/// A range of versions given by events.
pub struct Range {
    pub range_type: String,
    pub events: Vec<Event>,
}

/// A range event: where a vulnerability starts or is fixed.
pub struct Event {
    pub introduced: Option<String>,
    pub fixed: Option<String>,
}

/// A link about an advisory.
pub struct Reference {
    pub url: Option<String>,
}

/// The view of an optional string.
pub open spec fn opt_view(o: Option<String>) -> Option<Seq<char>> {
    match o {
        Some(s) => Some(s@),
        None => None,
    }
}

/// A query as plain values: version, package name, ecosystem, page token.
pub open spec fn query_view(q: Query) -> (Seq<char>, Seq<char>, Seq<char>, Option<Seq<char>>) {
    (q.version@, q.package.name@, q.package.ecosystem@, opt_view(q.page_token))
}

/// A copy of an optional string.
pub fn copy_opt(o: &Option<String>) -> (r: Option<String>)
    ensures
        opt_view(r) == opt_view(*o),
{
    match o {
        Some(s) => Some(owned(s.as_str())),
        None => None,
    }
}

// ── Pagination ─────────────────────────────────────────────────

/// The state of a paginated batch query: the advisories gathered so far
/// for each query of the batch, the queries that still have a page to fetch
/// (index in the batch and page token), the rounds made, and whether a round
/// failed.
pub struct Pager {
    accumulated: Vec<Vec<Advisory>>,
    pending: Vec<(usize, Option<String>)>,
    pages: usize,
    stopped: bool,
}

/// What was gathered per query after `results` answered the `pending`
/// queries, and which of them have a next page (first `k` results only).
pub open spec fn absorb(
    acc: Seq<Seq<Advisory>>,
    pending: Seq<(usize, Option<Seq<char>>)>,
    results: Seq<QueryResult>,
    k: int,
) -> (Seq<Seq<Advisory>>, Seq<(usize, Option<Seq<char>>)>)
    decreases k,
{
    if k <= 0 {
        (acc, seq![])
    } else {
        let (a, p) = absorb(acc, pending, results, k - 1);
        let idx = pending[k - 1].0 as int;
        let r = results[k - 1];
        let a2 = a.update(idx, a[idx] + r.vulns@);
        let p2 = match r.next_page_token {
            Some(t) => p.push((pending[k - 1].0, Some(t@))),
            None => p,
        };
        (a2, p2)
    }
}

/// The smaller of two integers.
pub open spec fn min_int(a: int, b: int) -> int {
    if a <= b {
        a
    } else {
        b
    }
}

impl Pager {
    /// The advisories gathered so far, per query of the batch.
    pub closed spec fn acc(&self) -> Seq<Seq<Advisory>> {
        self.accumulated@.map_values(|v: Vec<Advisory>| v@)
    }

    /// The queries still to page through: index in the batch and page token.
    pub closed spec fn pending_view(&self) -> Seq<(usize, Option<Seq<char>>)> {
        self.pending@.map_values(|e: (usize, Option<String>)| (e.0, opt_view(e.1)))
    }

    /// The rounds made so far.
    pub closed spec fn pages_done(&self) -> nat {
        self.pages as nat
    }

    /// Whether a round failed, which ends the query.
    pub closed spec fn is_stopped(&self) -> bool {
        self.stopped
    }

    /// Every pending index names one of the queries of the batch.
    pub open spec fn wf(&self) -> bool {
        &&& forall|k: int|
            0 <= k < self.pending_view().len() ==> (#[trigger] self.pending_view()[k]).0 < self.acc().len()
        &&& self.pages_done() <= MAX_PAGES
    }

    /// Whether another round is due.
    pub open spec fn active(&self) -> bool {
        !self.is_stopped() && self.pending_view().len() > 0 && self.pages_done() < MAX_PAGES
    }

    /// The state before the first round of a batch of `n` queries: nothing
    /// gathered, every query pending without a token.
    pub fn new(n: usize) -> (r: Pager)
        ensures
            r.wf(),
            r.acc() == Seq::new(n as nat, |i: int| Seq::<Advisory>::empty()),
            r.pending_view() == Seq::new(n as nat, |i: int| (i as usize, None::<Seq<char>>)),
            r.pages_done() == 0,
            !r.is_stopped(),
    {
        let mut accumulated: Vec<Vec<Advisory>> = Vec::new();
        let mut pending: Vec<(usize, Option<String>)> = Vec::new();
        let mut i: usize = 0;
        while i < n
            invariant
                i <= n,
                accumulated@.len() == i,
                pending@.len() == i,
                forall|k: int| 0 <= k < i ==> (#[trigger] accumulated@[k])@ == Seq::<Advisory>::empty(),
                forall|k: int| 0 <= k < i ==> #[trigger] pending@[k] == (k as usize, None::<String>),
            decreases n - i,
        {
            accumulated.push(Vec::new());
            pending.push((i, None));
            i = i + 1;
        }
        let r = Pager { accumulated, pending, pages: 0, stopped: false };
        assert(r.acc() =~= Seq::new(n as nat, |i: int| Seq::<Advisory>::empty()));
        assert(r.pending_view() =~= Seq::new(n as nat, |i: int| (i as usize, None::<Seq<char>>)));
        r
    }

    /// The queries of the next round, or `None` once every query is done,
    /// a round failed, or `MAX_PAGES` rounds were made. Each pending query
    /// goes out again with its page token.
    pub fn next_queries(&self, queries: &[Query]) -> (r: Option<Vec<Query>>)
        requires
            self.wf(),
            queries@.len() == self.acc().len(),
        ensures
            r is None <==> !self.active(),
            r matches Some(b) ==> {
                &&& b@.len() == self.pending_view().len()
                &&& forall|k: int|
                    0 <= k < b@.len() ==> {
                        let idx = self.pending_view()[k].0 as int;
                        query_view(#[trigger] b@[k]) == (
                            queries@[idx].version@,
                            queries@[idx].package.name@,
                            queries@[idx].package.ecosystem@,
                            self.pending_view()[k].1,
                        )
                    }
            },
    {
        if self.stopped || self.pending.len() == 0 || self.pages >= MAX_PAGES {
            return None;
        }
        let mut batch: Vec<Query> = Vec::new();
        let mut k: usize = 0;
        while k < self.pending.len()
            invariant
                self.wf(),
                queries@.len() == self.acc().len(),
                k <= self.pending@.len(),
                batch@.len() == k,
                forall|t: int|
                    0 <= t < k ==> {
                        let idx = self.pending_view()[t].0 as int;
                        query_view(#[trigger] batch@[t]) == (
                            queries@[idx].version@,
                            queries@[idx].package.name@,
                            queries@[idx].package.ecosystem@,
                            self.pending_view()[t].1,
                        )
                    },
            decreases self.pending@.len() - k,
        {
            let idx = self.pending[k].0;
            assert(self.pending_view()[k as int].0 == idx);
            assert(self.accumulated@.len() == self.acc().len());
            let q = &queries[idx];
            let token = copy_opt(&self.pending[k].1);
            batch.push(
                Query {
                    version: owned(q.version.as_str()),
                    package: QueryPackage {
                        name: owned(q.package.name.as_str()),
                        ecosystem: owned(q.package.ecosystem.as_str()),
                    },
                    page_token: token,
                },
            );
            k = k + 1;
        }
        Some(batch)
    }

    /// Takes in the answer to a round: the advisories of each result are
    /// added to its query, results beyond the pending queries are
    /// ignored, and the queries whose result has a next-page token make up
    /// the next round.
    pub fn record_results(&mut self, results: Vec<QueryResult>)
        requires
            old(self).wf(),
            old(self).active(),
        ensures
            final(self).wf(),
            (final(self).acc(), final(self).pending_view()) == absorb(
                old(self).acc(),
                old(self).pending_view(),
                results@,
                min_int(results@.len() as int, old(self).pending_view().len() as int),
            ),
            final(self).pages_done() == old(self).pages_done() + 1,
            final(self).is_stopped() == old(self).is_stopped(),
    {
        let ghost acc0 = self.acc();
        let ghost pend0 = self.pending_view();
        let ghost res = results@;
        let mut next_pending: Vec<(usize, Option<String>)> = Vec::new();
        let mut results = results;
        let n = results.len();
        let mut remaining: Vec<QueryResult> = Vec::new();
        // Results are taken from the back; reverse them first so that the
        // front comes out first.
        while results.len() > 0
            invariant
                remaining@.len() + results@.len() == n,
                n == res.len(),
                forall|t: int| 0 <= t < results@.len() ==> #[trigger] results@[t] == res[t],
                forall|t: int| 0 <= t < remaining@.len() ==> #[trigger] remaining@[t] == res[n - 1 - t],
            decreases results@.len(),
        {
            let r = results.pop().unwrap();
            remaining.push(r);
        }
        let limit = if n < self.pending.len() {
            n
        } else {
            self.pending.len()
        };
        let mut k: usize = 0;
        while k < limit
            invariant
                limit == min_int(n as int, pend0.len() as int),
                n == res.len(),
                k <= limit,
                remaining@.len() == n - k,
                forall|t: int| 0 <= t < remaining@.len() ==> #[trigger] remaining@[t] == res[n - 1 - t],
                pend0 == self.pending_view(),
                forall|t: int| 0 <= t < pend0.len() ==> (#[trigger] pend0[t]).0 < acc0.len(),
                self.accumulated@.len() == acc0.len(),
                self.pages == old(self).pages,
                self.pages < MAX_PAGES,
                self.stopped == old(self).stopped,
                (self.acc(), next_pending@.map_values(
                    |e: (usize, Option<String>)| (e.0, opt_view(e.1)),
                )) == absorb(acc0, pend0, res, k as int),
            decreases limit - k,
        {
            let result = remaining.pop().unwrap();
            assert(result == res[k as int]);
            let idx = self.pending[k].0;
            assert(pend0[k as int].0 == idx);
            let ghost before = self.acc();
            let ghost np_before = next_pending@.map_values(
                |e: (usize, Option<String>)| (e.0, opt_view(e.1)),
            );
            let mut slot: Vec<Advisory> = Vec::new();
            self.accumulated.set_and_swap(idx, &mut slot);
            let QueryResult { vulns, next_page_token } = result;
            let mut vulns = vulns;
            slot.append(&mut vulns);
            self.accumulated.set_and_swap(idx, &mut slot);
            assert(self.acc() =~= before.update(idx as int, before[idx as int] + res[k as int].vulns@));
            match next_page_token {
                Some(t) => {
                    next_pending.push((idx, Some(t)));
                    assert(next_pending@.map_values(
                        |e: (usize, Option<String>)| (e.0, opt_view(e.1)),
                    ) =~= np_before.push((pend0[k as int].0, opt_view(res[k as int].next_page_token))));
                },
                None => {},
            }
            k = k + 1;
        }
        self.pending = next_pending;
        self.pages = self.pages + 1;
        proof {
            lemma_absorb_indices(acc0, pend0, res, limit as int);
            let ab = absorb(acc0, pend0, res, limit as int);
            assert(self.pending_view() == ab.1);
            assert(self.acc() == ab.0);
            assert(self.acc().len() == acc0.len());
        }
    }

    /// Records that a round failed: the query ends with what was gathered.
    pub fn record_failure(&mut self)
        requires
            old(self).wf(),
        ensures
            final(self).wf(),
            final(self).acc() == old(self).acc(),
            final(self).pending_view() == old(self).pending_view(),
            final(self).pages_done() == old(self).pages_done(),
            final(self).is_stopped(),
    {
        self.stopped = true;
        assert(self.pending_view() =~= old(self).pending_view());
        assert(self.acc() =~= old(self).acc());
    }

    /// How many queries still had a page to fetch.
    pub fn unfinished(&self) -> (r: usize)
        ensures
            r == self.pending_view().len(),
    {
        self.pending.len()
    }

    /// One result per query of the batch, with everything gathered for it and
    /// no page token.
    pub fn finish(self) -> (r: Vec<QueryResult>)
        ensures
            r@.len() == self.acc().len(),
            forall|i: int|
                0 <= i < r@.len() ==> (#[trigger] r@[i]).vulns@ == self.acc()[i]
                    && r@[i].next_page_token is None,
    {
        let ghost acc = self.acc();
        let mut accumulated = self.accumulated;
        let n = accumulated.len();
        let mut reversed: Vec<QueryResult> = Vec::new();
        while accumulated.len() > 0
            invariant
                accumulated@.len() + reversed@.len() == n,
                n == acc.len(),
                forall|t: int| 0 <= t < accumulated@.len() ==> (#[trigger] accumulated@[t])@ == acc[t],
                forall|t: int|
                    0 <= t < reversed@.len() ==> (#[trigger] reversed@[t]).vulns@ == acc[n - 1 - t]
                        && reversed@[t].next_page_token is None,
            decreases accumulated@.len(),
        {
            let vulns = accumulated.pop().unwrap();
            reversed.push(QueryResult { vulns, next_page_token: None });
        }
        let mut out: Vec<QueryResult> = Vec::new();
        while reversed.len() > 0
            invariant
                reversed@.len() + out@.len() == n,
                n == acc.len(),
                forall|t: int|
                    0 <= t < reversed@.len() ==> (#[trigger] reversed@[t]).vulns@ == acc[n - 1 - t]
                        && reversed@[t].next_page_token is None,
                forall|t: int|
                    0 <= t < out@.len() ==> (#[trigger] out@[t]).vulns@ == acc[t]
                        && out@[t].next_page_token is None,
            decreases reversed@.len(),
        {
            let r = reversed.pop().unwrap();
            out.push(r);
        }
        out
    }
}

/// `absorb` keeps the number of queries and only names pending indices.
pub proof fn lemma_absorb_indices(
    acc: Seq<Seq<Advisory>>,
    pending: Seq<(usize, Option<Seq<char>>)>,
    results: Seq<QueryResult>,
    k: int,
)
    requires
        0 <= k <= pending.len(),
        k <= results.len(),
        forall|t: int| 0 <= t < pending.len() ==> (#[trigger] pending[t]).0 < acc.len(),
    ensures
        absorb(acc, pending, results, k).0.len() == acc.len(),
        forall|t: int|
            0 <= t < absorb(acc, pending, results, k).1.len() ==> (#[trigger] absorb(
                acc,
                pending,
                results,
                k,
            ).1[t]).0 < acc.len(),
    decreases k,
{
    if k > 0 {
        lemma_absorb_indices(acc, pending, results, k - 1);
    }
}

/// The number of advisories gathered over all queries.
pub open spec fn total_len(acc: Seq<Seq<Advisory>>) -> nat
    decreases acc.len(),
{
    if acc.len() == 0 {
        0
    } else {
        total_len(acc.drop_last()) + acc.last().len()
    }
}

/// The number of advisories in `results[0..k)`.
pub open spec fn results_len(results: Seq<QueryResult>, k: int) -> nat
    decreases k,
{
    if k <= 0 {
        0
    } else {
        results_len(results, k - 1) + results[k - 1].vulns@.len()
    }
}

proof fn lemma_total_len_update(acc: Seq<Seq<Advisory>>, i: int, v: Seq<Advisory>)
    requires
        0 <= i < acc.len(),
    ensures
        total_len(acc.update(i, acc[i] + v)) == total_len(acc) + v.len(),
    decreases acc.len(),
{
    if i < acc.len() - 1 {
        lemma_total_len_update(acc.drop_last(), i, v);
        assert(acc.update(i, acc[i] + v).drop_last() =~= acc.drop_last().update(i, acc[i] + v));
    } else {
        assert(acc.update(i, acc[i] + v).drop_last() =~= acc.drop_last());
    }
}

/// A round of pagination loses no advisory and invents none: the number
/// gathered grows by exactly the number the answered results hold, and
/// only answered queries whose result has a page token stay pending.
pub proof fn law_round_keeps_every_advisory(
    acc: Seq<Seq<Advisory>>,
    pending: Seq<(usize, Option<Seq<char>>)>,
    results: Seq<QueryResult>,
    k: int,
)
    requires
        0 <= k <= pending.len(),
        k <= results.len(),
        forall|t: int| 0 <= t < pending.len() ==> (#[trigger] pending[t]).0 < acc.len(),
    ensures
        total_len(absorb(acc, pending, results, k).0) == total_len(acc) + results_len(results, k),
        absorb(acc, pending, results, k).1.len() <= k,
        forall|t: int|
            0 <= t < absorb(acc, pending, results, k).1.len() ==> (#[trigger] absorb(
                acc,
                pending,
                results,
                k,
            ).1[t]).1 is Some,
    decreases k,
{
    if k > 0 {
        law_round_keeps_every_advisory(acc, pending, results, k - 1);
        lemma_absorb_indices(acc, pending, results, k - 1);
        let (a, p) = absorb(acc, pending, results, k - 1);
        lemma_total_len_update(a, pending[k - 1].0 as int, results[k - 1].vulns@);
    }
}

} // verus!
