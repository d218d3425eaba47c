use vstd::prelude::*;
use vstd::string::*;

verus! {

/// Index of the first occurrence of `c` in `s` at or after `from`,
/// or `s.len()` when there is none.
pub open spec fn spec_find_char(s: Seq<char>, c: char, from: int) -> int
    decreases s.len() - from,
{
    if from < 0 || from >= s.len() {
        s.len() as int
    } else if s[from] == c {
        from
    } else {
        spec_find_char(s, c, from + 1)
    }
}

/// Index of the start of the first `"://"` in `s` at or after `from`,
/// or `-1` when there is none.
pub open spec fn spec_find_scheme_end(s: Seq<char>, from: int) -> int
    decreases s.len() - from,
{
    if from < 0 || from + 3 > s.len() {
        -1
    } else if s[from] == ':' && s[from + 1] == '/' && s[from + 2] == '/' {
        from
    } else {
        spec_find_scheme_end(s, from + 1)
    }
}

/// The first path segment of an absolute URL: the characters between the
/// first `'/'` after the `"://"` separator and the following `'/'` (or the
/// end). `None` when the URL has no scheme separator, no path, or an empty
/// first segment.
pub open spec fn spec_first_path_segment(s: Seq<char>) -> Option<Seq<char>> {
    let sep = spec_find_scheme_end(s, 0);
    if sep == -1 {
        None
    } else {
        let slash = spec_find_char(s, '/', sep + 3);
        if slash == s.len() {
            None
        } else {
            let end = spec_find_char(s, '/', slash + 1);
            let seg = s.subrange(slash + 1, end);
            if seg.len() == 0 {
                None
            } else {
                Some(seg)
            }
        }
    }
}

/// Index of the last `'/'` strictly before position `upto`, or `-1`.
pub open spec fn spec_last_slash(s: Seq<char>, upto: int) -> int
    decreases upto,
{
    if upto <= 0 {
        -1
    } else if s[upto - 1] == '/' {
        upto - 1
    } else {
        spec_last_slash(s, upto - 1)
    }
}

/// Everything after the last `'/'` of `s`; the whole of `s` when it holds
/// no `'/'`. Empty when `s` ends in `'/'`.
pub open spec fn spec_last_segment(s: Seq<char>) -> Seq<char> {
    s.subrange(spec_last_slash(s, s.len() as int) + 1, s.len() as int)
}

/// The bare repository name a discovered repository URL stands for: the last
/// path segment, ignoring one trailing `'/'`.
pub open spec fn spec_repo_name(u: Seq<char>) -> Seq<char> {
    if u.len() > 0 && u[u.len() - 1] == '/' {
        spec_last_segment(u.drop_last())
    } else {
        spec_last_segment(u)
    }
}

/// The absolute URL of the repository `name` under the account base URL:
/// the base, the name, and a trailing separator.
pub open spec fn spec_repo_url(base: Seq<char>, name: Seq<char>) -> Seq<char> {
    base + name + seq!['/']
}

pub fn find_char_from(s: &str, c: char, from: usize) -> (r: usize)
    requires
        from <= s@.len(),
    ensures
        r == spec_find_char(s@, c, from as int),
        from <= r <= s@.len(),
{
    let n = s.unicode_len();
    let mut i: usize = from;
    while i < n
        invariant
            from <= i <= n,
            n == s@.len(),
            spec_find_char(s@, c, from as int) == spec_find_char(s@, c, i as int),
        decreases n - i,
    {
        if s.get_char(i) == c {
            return i;
        }
        i = i + 1;
    }
    i
}

pub fn find_scheme_end(s: &str) -> (r: Option<usize>)
    ensures
        r is None <==> spec_find_scheme_end(s@, 0) == -1,
        r matches Some(i) ==> spec_find_scheme_end(s@, 0) == i && i + 3 <= s@.len(),
{
    let n = s.unicode_len();
    let mut i: usize = 0;
    while n - i >= 3
        invariant
            0 <= i <= n,
            n == s@.len(),
            spec_find_scheme_end(s@, 0) == spec_find_scheme_end(s@, i as int),
        decreases n - i,
    {
        if s.get_char(i) == ':' && s.get_char(i + 1) == '/' && s.get_char(i + 2) == '/' {
            return Some(i);
        }
        i = i + 1;
    }
    None
}

/// The first path segment of `url`, as the account name: `None` when the URL
/// is malformed or has no non-empty first segment.
pub fn first_path_segment(url: &str) -> (r: Option<String>)
    ensures
        r is Some <==> spec_first_path_segment(url@) is Some,
        r matches Some(t) ==> spec_first_path_segment(url@) == Some(t@),
{
    let n = url.unicode_len();
    match find_scheme_end(url) {
        None => None,
        Some(sep) => {
            let slash = find_char_from(url, '/', sep + 3);
            if slash == n {
                None
            } else {
                let end = find_char_from(url, '/', slash + 1);
                let seg = url.substring_char(slash + 1, end);
                if seg.unicode_len() == 0 {
                    None
                } else {
                    Some(seg.to_owned())
                }
            }
        },
    }
}

fn last_slash(s: &str) -> (r: Option<usize>)
    ensures
        r is None <==> spec_last_slash(s@, s@.len() as int) == -1,
        r matches Some(j) ==> spec_last_slash(s@, s@.len() as int) == j && j < s@.len(),
{
    let n = s.unicode_len();
    let mut i: usize = n;
    while i > 0
        invariant
            0 <= i <= n,
            n == s@.len(),
            spec_last_slash(s@, n as int) == spec_last_slash(s@, i as int),
        decreases i,
    {
        if s.get_char(i - 1) == '/' {
            return Some(i - 1);
        }
        i = i - 1;
    }
    None
}

/// Everything after the last `'/'` of `s`.
pub fn last_segment(s: &str) -> (r: String)
    ensures
        r@ == spec_last_segment(s@),
{
    let n = s.unicode_len();
    match last_slash(s) {
        None => {
            let r = s.to_owned();
            proof {
                assert(r@ =~= spec_last_segment(s@));
            }
            r
        },
        Some(j) => s.substring_char(j + 1, n).to_owned(),
    }
}

/// The bare repository name a repository URL stands for.
pub fn repo_name_from_url(url: &str) -> (r: String)
    ensures
        r@ == spec_repo_name(url@),
{
    let n = url.unicode_len();
    if n > 0 && url.get_char(n - 1) == '/' {
        let t = url.substring_char(0, n - 1);
        proof {
            assert(t@ =~= url@.drop_last());
        }
        last_segment(t)
    } else {
        last_segment(url)
    }
}

/// The absolute repository URL: account base, repository name, trailing
/// separator.
pub fn repo_url(base: &str, name: &str) -> (r: String)
    ensures
        r@ == spec_repo_url(base@, name@),
{
    proof {
        reveal_strlit("/");
    }
    let r = base.to_owned().concat(name).concat("/");
    proof {
        assert(r@ =~= spec_repo_url(base@, name@));
    }
    r
}

/// Whether two strings hold the same characters.
pub fn str_eq(a: &str, b: &str) -> (r: bool)
    ensures
        r <==> a@ == b@,
{
    let n = a.unicode_len();
    if n != b.unicode_len() {
        return false;
    }
    let mut i: usize = 0;
    while i < n
        invariant
            0 <= i <= n,
            n == a@.len(),
            n == b@.len(),
            forall|j: int| 0 <= j < i ==> a@[j] == b@[j],
        decreases n - i,
    {
        if a.get_char(i) != b.get_char(i) {
            return false;
        }
        i = i + 1;
    }
    proof {
        assert(a@ =~= b@);
    }
    true
}

/// Repository URL building is injective on names for one account base: two
/// distinct repository names never yield the same repository URL.
pub proof fn lemma_repo_url_injective(base: Seq<char>, n1: Seq<char>, n2: Seq<char>)
    requires
        n1 != n2,
    ensures
        spec_repo_url(base, n1) != spec_repo_url(base, n2),
{
    if spec_repo_url(base, n1) == spec_repo_url(base, n2) {
        let u1 = spec_repo_url(base, n1);
        let u2 = spec_repo_url(base, n2);
        assert(u1.len() == base.len() + n1.len() + 1);
        assert(u2.len() == base.len() + n2.len() + 1);
        assert(n1.len() == n2.len());
        assert(n1 =~= n2) by {
            assert forall|i: int| 0 <= i < n1.len() implies n1[i] == n2[i] by {
                assert(u1[base.len() + i] == n1[i]);
                assert(u2[base.len() + i] == n2[i]);
            }
        }
    }
}

} // verus!
