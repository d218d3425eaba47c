use vstd::prelude::*;
use vstd::string::*;
use crate::count::{parse_count_text, spec_dec_digits, spec_parse_count, u32_to_dec};
use crate::html::{select_first_inner_html, selected_text};
use crate::urls::{first_path_segment, repo_name_from_url, spec_first_path_segment, spec_repo_name};

verus! {

/// Why discovery failed; each variant carries the context an operator needs
/// to tell a forge-layout drift from a transient network failure.
#[derive(Debug)]
pub enum DiscoveryError {
    /// The HTTP transfer failed or ended in a non-success status; raised at
    /// the fetching edge, never by the parsing logic here.
    Transport { url: String, detail: String },
    /// The fetched document lacks the expected structural element.
    MarkupShape { url: String },
    /// The count element's text does not read as a repository count.
    CountParse { url: String, text: String },
    /// The account URL has no non-empty first path segment to name the
    /// account by.
    MissingAccountName { url: String },
}

/// What an account's discovery is asked for: the account's canonical URL and
/// whether every branch of each repository is wanted.
pub struct UserConfig {
    pub url: String,
    pub all_branches: bool,
}

/// Turns an account URL into the account's full repository listing.
pub struct UserFactory {
    pub url: String,
    pub page_url: String,
    pub all_branches: bool,
}

/// What the pipeline reads of a resolved repository handle: the bare
/// repository name and the repository's absolute URL. The handle itself
/// stays with the external repository factory.
#[derive(Debug, Clone)]
pub struct RepoRef {
    pub name: String,
    pub url: String,
}

/// An account with its resolved repositories: assembled once, after every
/// page fetch and every repository-factory call has completed; nothing
/// downstream observes it earlier.
#[derive(Debug)]
pub struct User {
    pub name: String,
    pub url: String,
    pub repositories: Vec<RepoRef>,
}

/// Query string that narrows the account page to its source repositories.
pub open spec fn spec_listing_suffix() -> Seq<char> {
    "?tab=repositories&type=source"@
}

/// CSS selector locating the single repository-count element on the listing
/// index page.
pub open spec fn spec_count_selector() -> Seq<char> {
    "turbo-frame > div > div > div > div > strong"@
}

/// Query-parameter prefix that picks one listing page.
pub open spec fn spec_page_param() -> Seq<char> {
    "&page="@
}

/// The URL of the 1-based listing page `idx`.
pub open spec fn spec_page_url(page_url: Seq<char>, idx: int) -> Seq<char> {
    page_url + spec_page_param() + spec_dec_digits(idx)
}

impl RepoRef {
    /// The readable part of a repository handle, from its discovered URL.
    pub fn from_url(url: String) -> (r: RepoRef)
        ensures
            r.url@ == url@,
            r.name@ == spec_repo_name(url@),
    {
        let name = repo_name_from_url(url.as_str());
        RepoRef { name, url }
    }
}

impl UserFactory {
    pub fn with_config(user_config: UserConfig) -> (r: Self)
        ensures
            r.url@ == user_config.url@,
            r.page_url@ == user_config.url@ + spec_listing_suffix(),
            r.all_branches == user_config.all_branches,
    {
        let page_url = user_config.url.clone().concat("?tab=repositories&type=source");
        UserFactory { url: user_config.url, page_url, all_branches: user_config.all_branches }
    }

    /// Reads the account's total repository count out of the listing index
    /// page's body: the count element's text parsed as a human-formatted
    /// number. `url` only names the fetched page in errors.
    pub fn repositories_count(url: &str, body: &str) -> (r: Result<u32, DiscoveryError>)
        ensures
            selected_text(body@, spec_count_selector()) is None ==> (r matches Err(e)
                && e matches DiscoveryError::MarkupShape { url: u } && u@ == url@),
            selected_text(body@, spec_count_selector()) matches Some(t) ==> match spec_parse_count(
                t,
            ) {
                Some(v) => r == Ok::<u32, DiscoveryError>(v),
                None => r matches Err(e) && e matches DiscoveryError::CountParse {
                    url: u,
                    text: tx,
                } && u@ == url@ && tx@ == t,
            },
    {
        match select_first_inner_html(body, "turbo-frame > div > div > div > div > strong") {
            None => Err(DiscoveryError::MarkupShape { url: url.to_owned() }),
            Some(text) => match parse_count_text(text.as_str()) {
                Some(v) => Ok(v),
                None => Err(DiscoveryError::CountParse { url: url.to_owned(), text }),
            },
        }
    }

    /// How many listing pages the account's repositories span.
    pub fn pages_count(repo_count: u32) -> (r: u32)
        ensures
            r == crate::spec_pages_count(repo_count as int, crate::REPOS_PER_PAGE as int),
    {
        crate::pages_count(repo_count, crate::REPOS_PER_PAGE)
    }

    /// The URLs of listing pages `1..=pages`, in page order.
    pub fn page_urls(&self, pages: u32) -> (r: Vec<String>)
        ensures
            r@.len() == pages,
            forall|k: int| 0 <= k < pages ==> (#[trigger] r@[k])@ == spec_page_url(
                self.page_url@,
                k + 1,
            ),
    {
        let mut urls: Vec<String> = Vec::new();
        let mut i: u32 = 0;
        while i < pages
            invariant
                0 <= i <= pages,
                urls@.len() == i,
                forall|k: int| 0 <= k < i ==> (#[trigger] urls@[k])@ == spec_page_url(
                    self.page_url@,
                    k + 1,
                ),
            decreases pages - i,
        {
            let number = u32_to_dec(i + 1);
            let url = self.page_url.clone().concat("&page=").concat(number.as_str());
            proof {
                assert(url@ =~= spec_page_url(self.page_url@, i + 1));
            }
            urls.push(url);
            i = i + 1;
        }
        urls
    }

    /// Assembles the account once discovery has finished: the account name
    /// is the first path segment of the account URL, and the fully resolved
    /// repository handles are adopted as they stand. This is the
    /// synchronization barrier of the discovery stage: it runs only after
    /// every repository handle has resolved.
    pub fn create(self, repositories: Vec<RepoRef>) -> (r: Result<User, DiscoveryError>)
        ensures
            spec_first_path_segment(self.url@) is None ==> (r matches Err(e)
                && e matches DiscoveryError::MissingAccountName { url: u } && u@ == self.url@),
            spec_first_path_segment(self.url@) matches Some(nm) ==> (r matches Ok(u) && u.name@
                == nm && u.url@ == self.url@ && u.repositories == repositories),
    {
        match first_path_segment(self.url.as_str()) {
            None => Err(DiscoveryError::MissingAccountName { url: self.url }),
            Some(name) => Ok(User { name, url: self.url, repositories }),
        }
    }
}

} // verus!
