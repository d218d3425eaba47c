use glit_core::account::{DiscoveryError, RepoRef, UserConfig, UserFactory};
use glit_core::count::{parse_count_text, u32_to_dec};
use glit_core::discover::{discover_from_pages, repo_urls_from_page};
use glit_core::pages_count;

const COUNT_PAGE: &str = "<html><body><turbo-frame><div><div><div><div><strong> 1,234 </strong></div></div></div></div></turbo-frame></body></html>";

fn listing_page(anchors: &[&str]) -> String {
    let mut items = String::new();
    for href in anchors {
        items.push_str("<li><div><div><h3><a href=\"");
        items.push_str(href);
        items.push_str("\">repo</a></h3></div></div></li>");
    }
    format!(
        "<html><body><turbo-frame><div><div><ul>{}</ul></div></div></turbo-frame></body></html>",
        items
    )
}

#[test]
fn pages_count_zero_repos_zero_pages() {
    assert_eq!(pages_count(0, 30), 0);
}

#[test]
fn pages_count_exact_multiple_no_extra_page() {
    assert_eq!(pages_count(30, 30), 1);
    assert_eq!(pages_count(60, 30), 2);
}

#[test]
fn pages_count_partial_page_rounds_up() {
    assert_eq!(pages_count(31, 30), 2);
    assert_eq!(pages_count(59, 30), 2);
    assert_eq!(pages_count(1, 30), 1);
}

#[test]
fn pages_count_small_page_size() {
    assert_eq!(pages_count(7, 1), 7);
    assert_eq!(pages_count(7, 3), 3);
}

#[test]
fn factory_pages_count_uses_thirty_per_page() {
    assert_eq!(UserFactory::pages_count(0), 0);
    assert_eq!(UserFactory::pages_count(30), 1);
    assert_eq!(UserFactory::pages_count(31), 2);
}

#[test]
fn parse_count_plain_number() {
    assert_eq!(parse_count_text("42"), Some(42));
}

#[test]
fn parse_count_strips_thousands_separators() {
    assert_eq!(parse_count_text("1,234"), Some(1234));
    assert_eq!(parse_count_text("12,34"), Some(1234));
}

#[test]
fn parse_count_trims_whitespace() {
    assert_eq!(parse_count_text(" \n\t 7 \r "), Some(7));
}

#[test]
fn parse_count_rejects_text() {
    assert_eq!(parse_count_text("soon"), None);
    assert_eq!(parse_count_text("12a"), None);
    assert_eq!(parse_count_text("-3"), None);
}

#[test]
fn parse_count_rejects_empty() {
    assert_eq!(parse_count_text(""), None);
    assert_eq!(parse_count_text("  ,, "), None);
}

#[test]
fn parse_count_largest_fitting_value() {
    assert_eq!(parse_count_text("4,294,967,295"), Some(u32::MAX));
    assert_eq!(parse_count_text("4294967296"), None);
}

#[test]
fn decimal_formatting_writes_plain_numbers() {
    assert_eq!(u32_to_dec(0), "0");
    assert_eq!(u32_to_dec(8), "8");
    assert_eq!(u32_to_dec(30), "30");
    assert_eq!(u32_to_dec(4294967295), "4294967295");
}

#[test]
fn with_config_builds_listing_url() {
    let factory = UserFactory::with_config(UserConfig {
        url: "https://github.com/torvalds/".to_string(),
        all_branches: false,
    });
    assert_eq!(factory.url, "https://github.com/torvalds/");
    assert_eq!(
        factory.page_url,
        "https://github.com/torvalds/?tab=repositories&type=source"
    );
    assert!(!factory.all_branches);
}

#[test]
fn page_urls_are_numbered_from_one() {
    let factory = UserFactory::with_config(UserConfig {
        url: "https://github.com/torvalds/".to_string(),
        all_branches: true,
    });
    let urls = factory.page_urls(2);
    assert_eq!(
        urls,
        vec![
            "https://github.com/torvalds/?tab=repositories&type=source&page=1".to_string(),
            "https://github.com/torvalds/?tab=repositories&type=source&page=2".to_string(),
        ]
    );
}

#[test]
fn repositories_count_reads_count_element() {
    let r = UserFactory::repositories_count("https://example.net/acc/", COUNT_PAGE);
    assert_eq!(r.unwrap(), 1234);
}

#[test]
fn repositories_count_missing_element_is_markup_error() {
    let r = UserFactory::repositories_count("https://example.net/acc/", "<html><body><p>x</p></body></html>");
    match r {
        Err(DiscoveryError::MarkupShape { url }) => assert_eq!(url, "https://example.net/acc/"),
        other => panic!("expected a markup-shape error, got {:?}", other),
    }
}

#[test]
fn repositories_count_non_numeric_is_parse_error() {
    let body = "<html><body><turbo-frame><div><div><div><div><strong>soon</strong></div></div></div></div></turbo-frame></body></html>";
    let r = UserFactory::repositories_count("https://example.net/acc/", body);
    match r {
        Err(DiscoveryError::CountParse { url, text }) => {
            assert_eq!(url, "https://example.net/acc/");
            assert_eq!(text, "soon");
        }
        other => panic!("expected a count-parse error, got {:?}", other),
    }
}

#[test]
fn repo_urls_from_page_joins_last_segment_onto_base() {
    let body = listing_page(&["/torvalds/linux", "/torvalds/git"]);
    let urls = repo_urls_from_page("https://github.com/torvalds/", &body);
    assert_eq!(
        urls,
        vec![
            "https://github.com/torvalds/linux/".to_string(),
            "https://github.com/torvalds/git/".to_string(),
        ]
    );
}

#[test]
fn repo_urls_from_page_without_matches_is_empty() {
    let urls = repo_urls_from_page("https://github.com/torvalds/", "<html><body></body></html>");
    assert!(urls.is_empty());
}

#[test]
fn discover_from_pages_flattens_in_page_order() {
    let bodies = vec![
        listing_page(&["/acc/alpha", "/acc/beta"]),
        listing_page(&["/acc/gamma"]),
    ];
    let urls = discover_from_pages("https://h.example/acc/", &bodies);
    assert_eq!(
        urls,
        vec![
            "https://h.example/acc/alpha/".to_string(),
            "https://h.example/acc/beta/".to_string(),
            "https://h.example/acc/gamma/".to_string(),
        ]
    );
}

#[test]
fn discovery_rerun_on_unchanged_fixture_is_identical() {
    let bodies = vec![
        listing_page(&["/acc/alpha", "/acc/beta"]),
        listing_page(&["/acc/gamma"]),
    ];
    let first = discover_from_pages("https://h.example/acc/", &bodies);
    let second = discover_from_pages("https://h.example/acc/", &bodies);
    assert_eq!(first, second);
}

#[test]
fn distinct_names_give_distinct_repo_urls() {
    let body = listing_page(&["/acc/alpha", "/acc/alphabet"]);
    let urls = repo_urls_from_page("https://h.example/acc/", &body);
    assert_eq!(urls.len(), 2);
    assert_ne!(urls[0], urls[1]);
}

#[test]
fn create_derives_account_name_from_first_path_segment() {
    let factory = UserFactory::with_config(UserConfig {
        url: "https://github.com/torvalds/".to_string(),
        all_branches: false,
    });
    let repos = vec![RepoRef::from_url("https://github.com/torvalds/linux/".to_string())];
    let user = factory.create(repos).unwrap();
    assert_eq!(user.name, "torvalds");
    assert_eq!(user.url, "https://github.com/torvalds/");
    assert_eq!(user.repositories.len(), 1);
    assert_eq!(user.repositories[0].name, "linux");
}

#[test]
fn create_without_path_segment_fails() {
    let factory = UserFactory::with_config(UserConfig {
        url: "https://github.com".to_string(),
        all_branches: false,
    });
    match factory.create(Vec::new()) {
        Err(DiscoveryError::MissingAccountName { url }) => assert_eq!(url, "https://github.com"),
        other => panic!("expected a missing-account-name error, got {:?}", other),
    }
}

#[test]
fn create_with_empty_segment_fails() {
    let factory = UserFactory::with_config(UserConfig {
        url: "https://github.com/".to_string(),
        all_branches: false,
    });
    assert!(factory.create(Vec::new()).is_err());
}

#[test]
fn repo_ref_takes_name_before_trailing_separator() {
    let r = RepoRef::from_url("https://h.example/acc/linux/".to_string());
    assert_eq!(r.name, "linux");
    let bare = RepoRef::from_url("linux".to_string());
    assert_eq!(bare.name, "linux");
}
