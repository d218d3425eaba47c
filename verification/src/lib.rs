use vstd::prelude::*;

pub mod account;
pub mod collect;
pub mod count;
pub mod discover;
pub mod html;
pub mod pool;
pub mod urls;

verus! {

/// Number of repositories the forge lists on one paginated listing page.
pub const REPOS_PER_PAGE: u32 = 30;

/// The character sequences a sequence of strings holds.
pub open spec fn seq_views(s: Seq<String>) -> Seq<Seq<char>> {
    s.map_values(|x: String| x@)
}

/// Number of listing pages needed to show `repo_count` repositories when each
/// page holds `page_size` of them: the ceiling of `repo_count / page_size`.
pub open spec fn spec_pages_count(repo_count: int, page_size: int) -> int
    recommends
        page_size >= 1,
{
    if repo_count % page_size == 0 {
        repo_count / page_size
    } else {
        repo_count / page_size + 1
    }
}

/// The page count is the ceiling of `repo_count / page_size`: enough pages
/// to cover every repository, and, when any repository exists, one page
/// fewer would leave some repository unlisted; an exact multiple of
/// `page_size` yields no extra empty page.
pub proof fn lemma_pages_count_is_least_cover(repo_count: int, page_size: int)
    requires
        repo_count >= 0,
        page_size >= 1,
    ensures
        spec_pages_count(repo_count, page_size) * page_size >= repo_count,
        repo_count > 0 ==> (spec_pages_count(repo_count, page_size) - 1) * page_size < repo_count,
        repo_count == 0 ==> spec_pages_count(repo_count, page_size) == 0,
{
    let q = repo_count / page_size;
    let m = repo_count % page_size;
    vstd::arithmetic::div_mod::lemma_fundamental_div_mod(repo_count, page_size);
    vstd::arithmetic::div_mod::lemma_mod_bound(repo_count, page_size);
    vstd::arithmetic::div_mod::lemma_div_pos_is_pos(repo_count, page_size);
    assert(page_size * q == q * page_size) by (nonlinear_arith);
    assert((q + 1) * page_size == q * page_size + page_size) by (nonlinear_arith);
    assert((q - 1) * page_size == q * page_size - page_size) by (nonlinear_arith);
}

/// How many listing pages must be fetched to cover `repo_count` repositories,
/// `page_size` repositories to a page. An exact multiple of `page_size` yields
/// no extra empty page.
pub fn pages_count(repo_count: u32, page_size: u32) -> (r: u32)
    requires
        page_size >= 1,
    ensures
        r == spec_pages_count(repo_count as int, page_size as int),
{
    let modulo = repo_count % page_size;
    if modulo == 0 {
        repo_count / page_size
    } else {
        proof {
            let rc = repo_count as int;
            let p = page_size as int;
            let q = rc / p;
            let m = rc % p;
            vstd::arithmetic::div_mod::lemma_fundamental_div_mod(rc, p);
            vstd::arithmetic::div_mod::lemma_mod_bound(rc, p);
            vstd::arithmetic::div_mod::lemma_div_pos_is_pos(rc, p);
            vstd::arithmetic::div_mod::lemma_div_by_multiple(q, p);
            assert(p * q == q * p) by (nonlinear_arith);
            assert(rc - m == q * p);
            assert(q + 1 <= rc) by (nonlinear_arith)
                requires
                    p >= 1,
                    m >= 1,
                    q >= 0,
                    rc == p * q + m,
            ;
        }
        (repo_count - modulo) / page_size + 1
    }
}

} // verus!
