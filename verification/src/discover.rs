use vstd::prelude::*;
use crate::html::{select_attr_values, selected_attrs};
use crate::seq_views;
use crate::urls::{last_segment, repo_url, spec_last_segment, spec_repo_url};

verus! {

/// CSS selector locating one anchor per repository row on a listing page.
pub open spec fn spec_repo_anchor_selector() -> Seq<char> {
    "turbo-frame > div > div > ul > li > div > div > h3 > a"@
}

/// Name of the anchor attribute that carries the repository's endpoint.
pub open spec fn spec_href_attr() -> Seq<char> {
    "href"@
}

/// The repository URLs one listing page's body yields: for each matched
/// anchor's endpoint, the account base URL joined with the endpoint's last
/// path segment and a trailing separator.
pub open spec fn spec_page_repo_urls(base: Seq<char>, body: Seq<char>) -> Seq<Seq<char>> {
    selected_attrs(body, spec_repo_anchor_selector(), spec_href_attr()).map_values(
        |h: Seq<char>| spec_repo_url(base, spec_last_segment(h)),
    )
}

/// The flattened repository-URL sequence of all listing pages, in page
/// order, without deduplication.
pub open spec fn spec_discovered(base: Seq<char>, bodies: Seq<Seq<char>>) -> Seq<Seq<char>>
    decreases bodies.len(),
{
    if bodies.len() == 0 {
        Seq::empty()
    } else {
        spec_discovered(base, bodies.drop_last()) + spec_page_repo_urls(base, bodies.last())
    }
}

/// Derives the repository URLs one listing page's body names: each anchor's
/// endpoint is reduced to its bare repository name and joined onto the
/// account base URL.
pub fn repo_urls_from_page(base: &str, body: &str) -> (r: Vec<String>)
    ensures
        seq_views(r@) == spec_page_repo_urls(base@, body@),
{
    let hrefs = select_attr_values(
        body,
        "turbo-frame > div > div > ul > li > div > div > h3 > a",
        "href",
    );
    let mut urls: Vec<String> = Vec::new();
    let n = hrefs.len();
    let mut i: usize = 0;
    while i < n
        invariant
            0 <= i <= n,
            n == hrefs@.len(),
            seq_views(hrefs@) == selected_attrs(body@, spec_repo_anchor_selector(), spec_href_attr()),
            seq_views(urls@) == spec_page_repo_urls(base@, body@).take(i as int),
        decreases n - i,
    {
        let name = last_segment(hrefs[i].as_str());
        let url = repo_url(base, name.as_str());
        let ghost prev = urls@;
        urls.push(url);
        proof {
            let sel = selected_attrs(body@, spec_repo_anchor_selector(), spec_href_attr());
            let target = spec_page_repo_urls(base@, body@);
            assert(seq_views(hrefs@)[i as int] == hrefs@[i as int]@);
            assert(sel[i as int] == hrefs@[i as int]@);
            assert(target[i as int] == spec_repo_url(base@, spec_last_segment(sel[i as int])));
            assert(urls@.last()@ == target[i as int]);
            assert(seq_views(prev) == target.take(i as int));
            assert(seq_views(prev).len() == prev.len());
            assert(prev.len() == i as int);
            assert(urls@ == prev.push(url));
            assert forall|j: int| 0 <= j < i implies seq_views(urls@)[j] == target[j] by {
                assert(seq_views(urls@)[j] == urls@[j]@);
                assert(urls@[j] == prev[j]);
                assert(seq_views(prev)[j] == prev[j]@);
                assert(seq_views(prev)[j] == target.take(i as int)[j]);
            }
            assert(seq_views(urls@) =~= target.take(i + 1));
        }
        i = i + 1;
    }
    proof {
        assert(spec_page_repo_urls(base@, body@).take(n as int) =~= spec_page_repo_urls(
            base@,
            body@,
        ));
    }
    urls
}

/// Runs the whole page-extraction stage over already-fetched page bodies, in
/// page order: the flattened repository-URL sequence of every page.
pub fn discover_from_pages(base: &str, bodies: &Vec<String>) -> (r: Vec<String>)
    ensures
        seq_views(r@) == spec_discovered(base@, seq_views(bodies@)),
{
    let mut urls: Vec<String> = Vec::new();
    let n = bodies.len();
    let mut i: usize = 0;
    while i < n
        invariant
            0 <= i <= n,
            n == bodies@.len(),
            seq_views(urls@) == spec_discovered(base@, seq_views(bodies@).take(i as int)),
        decreases n - i,
    {
        let mut page_urls = repo_urls_from_page(base, bodies[i].as_str());
        proof {
            let views = seq_views(bodies@);
            assert(views.take(i + 1).drop_last() =~= views.take(i as int));
            assert(views.take(i + 1).last() == bodies@[i as int]@);
            assert(seq_views(urls@ + page_urls@) =~= seq_views(urls@) + seq_views(page_urls@));
        }
        urls.append(&mut page_urls);
        i = i + 1;
    }
    proof {
        assert(seq_views(bodies@).take(n as int) =~= seq_views(bodies@));
    }
    urls
}

/// Re-running discovery against unchanged listing pages yields the identical
/// ordered repository-URL sequence: the discovered sequence is a function of
/// the account base URL and the page contents alone.
pub proof fn lemma_discovery_idempotent(
    base: Seq<char>,
    bodies: Seq<Seq<char>>,
    r1: Seq<Seq<char>>,
    r2: Seq<Seq<char>>,
)
    requires
        r1 == spec_discovered(base, bodies),
        r2 == spec_discovered(base, bodies),
    ensures
        r1 == r2,
{
}

} // verus!
