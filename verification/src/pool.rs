use vstd::prelude::*;
use crate::seq_views;

verus! {

/// How many page slots among `results` hold a completed result.
pub open spec fn spec_completed(results: Seq<Option<Vec<String>>>) -> int
    decreases results.len(),
{
    if results.len() == 0 {
        0
    } else {
        spec_completed(results.drop_last()) + if results.last() is Some {
            1int
        } else {
            0int
        }
    }
}

/// Every page's URLs flattened in page order; a page not yet completed
/// contributes nothing.
pub open spec fn spec_flat(results: Seq<Option<Vec<String>>>) -> Seq<Seq<char>>
    decreases results.len(),
{
    if results.len() == 0 {
        Seq::empty()
    } else {
        spec_flat(results.drop_last()) + (match results.last() {
            Some(urls) => seq_views(urls@),
            None => Seq::empty(),
        })
    }
}

proof fn lemma_completed_le_len(s: Seq<Option<Vec<String>>>)
    ensures
        spec_completed(s) <= s.len(),
    decreases s.len(),
{
    if s.len() > 0 {
        lemma_completed_le_len(s.drop_last());
    }
}

proof fn lemma_completed_hole(s: Seq<Option<Vec<String>>>, hole: int)
    requires
        0 <= hole < s.len(),
        s[hole] is None,
    ensures
        spec_completed(s) <= s.len() - 1,
    decreases s.len(),
{
    if hole == s.len() - 1 {
        lemma_completed_le_len(s.drop_last());
    } else {
        lemma_completed_hole(s.drop_last(), hole);
    }
}

proof fn lemma_completed_ignores_tail(s: Seq<Option<Vec<String>>>, bound: int)
    requires
        0 <= bound <= s.len(),
        forall|i: int| 0 <= i < s.len() && s[i] is Some ==> i < bound,
    ensures
        spec_completed(s) == spec_completed(s.take(bound)),
    decreases s.len(),
{
    if s.len() <= bound {
        assert(s.take(bound) =~= s);
    } else {
        assert(s.drop_last() =~= s.take(s.len() - 1));
        assert(s.take(s.len() - 1).take(bound) =~= s.take(bound));
        lemma_completed_ignores_tail(s.drop_last(), bound);
    }
}

proof fn lemma_completed_update(s: Seq<Option<Vec<String>>>, i: int, urls: Vec<String>)
    requires
        0 <= i < s.len(),
        s[i] is None,
    ensures
        spec_completed(s.update(i, Some(urls))) == spec_completed(s) + 1,
    decreases s.len(),
{
    let t = s.update(i, Some(urls));
    if i == s.len() - 1 {
        assert(t.drop_last() =~= s.drop_last());
    } else {
        assert(t.drop_last() =~= s.drop_last().update(i, Some(urls)));
        lemma_completed_update(s.drop_last(), i, urls);
    }
}

/// The bounded page-fetch pool of the discovery stage: pages start in page
/// order, at most `cap` of them in flight at once, and each page's
/// extraction reports back once, in any completion order. The per-page
/// result slots make the combined output independent of completion order.
pub struct PageFetchPool {
    /// The concurrency cap.
    pub cap: usize,
    /// How many pages have been started; pages start in page order.
    pub started: usize,
    /// One slot per listing page, in page order, `Some` once that page's
    /// repository URLs have come back.
    pub results: Vec<Option<Vec<String>>>,
}

impl PageFetchPool {
    pub open spec fn pages(&self) -> int {
        self.results@.len() as int
    }

    pub open spec fn completed(&self) -> int {
        spec_completed(self.results@)
    }

    /// Pages started and not yet completed.
    pub open spec fn in_flight(&self) -> int {
        self.started - self.completed()
    }

    pub open spec fn wf(&self) -> bool {
        &&& self.cap >= 1
        &&& self.started <= self.pages()
        &&& (forall|i: int| 0 <= i < self.results@.len() && self.results@[i] is Some ==> i
            < self.started)
        &&& 0 <= self.in_flight() <= self.cap
    }

    pub fn new(pages: usize, cap: usize) -> (r: Self)
        requires
            cap >= 1,
        ensures
            r.wf(),
            r.cap == cap,
            r.started == 0,
            r.pages() == pages,
            r.in_flight() == 0,
            forall|i: int| 0 <= i < pages ==> r.results@[i] is None,
    {
        let mut results: Vec<Option<Vec<String>>> = Vec::new();
        let mut i: usize = 0;
        while i < pages
            invariant
                0 <= i <= pages,
                results@.len() == i,
                spec_completed(results@) == 0,
                forall|j: int| 0 <= j < i ==> results@[j] is None,
            decreases pages - i,
        {
            let ghost prev = results@;
            results.push(None);
            proof {
                assert(results@.drop_last() =~= prev);
            }
            i = i + 1;
        }
        PageFetchPool { cap, started: 0, results }
    }

    fn completed_count(&self) -> (r: usize)
        ensures
            r == self.completed(),
    {
        let n = self.results.len();
        let mut count: usize = 0;
        let mut i: usize = 0;
        while i < n
            invariant
                0 <= i <= n,
                n == self.results@.len(),
                count == spec_completed(self.results@.take(i as int)),
                count <= i,
            decreases n - i,
        {
            proof {
                assert(self.results@.take(i + 1).drop_last() =~= self.results@.take(i as int));
            }
            if self.results[i].is_some() {
                count = count + 1;
            }
            i = i + 1;
        }
        proof {
            assert(self.results@.take(n as int) =~= self.results@);
        }
        count
    }

    /// How many page fetches are in flight right now.
    pub fn inflight_count(&self) -> (r: usize)
        requires
            self.wf(),
        ensures
            r == self.in_flight(),
    {
        self.started - self.completed_count()
    }

    /// Starts the next page fetch if one is pending and the cap leaves room:
    /// the started page's index, or `None` when the cap is reached or every
    /// page has started.
    pub fn try_start(&mut self) -> (r: Option<usize>)
        requires
            old(self).wf(),
        ensures
            final(self).wf(),
            final(self).cap == old(self).cap,
            final(self).results == old(self).results,
            r matches Some(page) ==> {
                &&& page == old(self).started
                &&& page < old(self).pages()
                &&& final(self).started == old(self).started + 1
                &&& old(self).in_flight() < old(self).cap
                &&& final(self).in_flight() == old(self).in_flight() + 1
            },
            r is None ==> final(self).started == old(self).started && (old(self).in_flight()
                == old(self).cap || old(self).started == old(self).pages()),
    {
        let inflight = self.inflight_count();
        if inflight < self.cap && self.started < self.results.len() {
            let page = self.started;
            self.started = self.started + 1;
            Some(page)
        } else {
            None
        }
    }

    /// Records page `page`'s extracted repository URLs: each started page
    /// reports exactly once, in any completion order.
    pub fn complete(&mut self, page: usize, urls: Vec<String>)
        requires
            old(self).wf(),
            page < old(self).started,
            old(self).results@[page as int] is None,
        ensures
            final(self).wf(),
            final(self).cap == old(self).cap,
            final(self).started == old(self).started,
            final(self).results@ == old(self).results@.update(page as int, Some(urls)),
            final(self).in_flight() == old(self).in_flight() - 1,
    {
        proof {
            lemma_completed_update(self.results@, page as int, urls);
            lemma_completed_ignores_tail(self.results@, self.started as int);
            lemma_completed_hole(self.results@.take(self.started as int), page as int);
            lemma_completed_le_len(self.results@.take(self.started as int));
        }
        self.results.set(page, Some(urls));
    }

    /// Whether every page has started and completed.
    pub fn is_done(&self) -> (r: bool)
        ensures
            r <==> (self.started == self.pages() && forall|i: int|
                0 <= i < self.results@.len() ==> self.results@[i] is Some),
    {
        if self.started != self.results.len() {
            return false;
        }
        let n = self.results.len();
        let mut i: usize = 0;
        while i < n
            invariant
                0 <= i <= n,
                n == self.results@.len(),
                forall|j: int| 0 <= j < i ==> self.results@[j] is Some,
            decreases n - i,
        {
            if self.results[i].is_none() {
                return false;
            }
            i = i + 1;
        }
        true
    }

    /// The discovery stage's combined output once every page has completed:
    /// all pages' repository URLs flattened in page order, whatever order
    /// the completions arrived in.
    pub fn into_urls(self) -> (r: Vec<String>)
        requires
            forall|i: int| 0 <= i < self.results@.len() ==> self.results@[i] is Some,
        ensures
            seq_views(r@) == spec_flat(self.results@),
    {
        let ghost orig = self.results@;
        let mut results = self.results;
        let mut urls: Vec<String> = Vec::new();
        let n = results.len();
        let mut i: usize = 0;
        while i < n
            invariant
                0 <= i <= n,
                n == orig.len(),
                results@ =~= orig.skip(i as int),
                forall|j: int| 0 <= j < orig.len() ==> orig[j] is Some,
                seq_views(urls@) == spec_flat(orig.take(i as int)),
            decreases n - i,
        {
            let slot = results.remove(0);
            proof {
                assert(orig.skip(i as int)[0] == orig[i as int]);
                assert(orig.skip(i as int).remove(0) =~= orig.skip(i + 1));
            }
            match slot {
                Some(mut page_urls) => {
                    proof {
                        assert(orig.take(i + 1).drop_last() =~= orig.take(i as int));
                        assert(orig.take(i + 1).last() == orig[i as int]);
                        assert(seq_views(urls@ + page_urls@) =~= seq_views(urls@) + seq_views(
                            page_urls@,
                        ));
                    }
                    urls.append(&mut page_urls);
                },
                None => {
                    proof {
                        assert(false);
                    }
                },
            }
            i = i + 1;
        }
        proof {
            assert(orig.take(n as int) =~= orig);
        }
        urls
    }
}

/// The bounded pool never exceeds its configured concurrency cap, however
/// many listing pages there are.
pub proof fn lemma_pool_bounded(p: &PageFetchPool)
    requires
        p.wf(),
    ensures
        p.in_flight() <= p.cap,
{
}

} // verus!
