use glit_core::account::{RepoRef, UserConfig, UserFactory};
use glit_core::collect::{Collector, RepoMap, UserCommitData};
use glit_core::pool::PageFetchPool;

fn named_collector(names: &[&str]) -> Collector<u32> {
    let names: Vec<String> = names.iter().map(|n| n.to_string()).collect();
    Collector::new(names)
}

#[test]
fn repo_map_get_finds_inserted_data() {
    let mut map: RepoMap<u32> = RepoMap::new();
    map.insert("linux".to_string(), 7);
    map.insert("git".to_string(), 9);
    assert_eq!(map.get("linux"), Some(&7));
    assert_eq!(map.get("git"), Some(&9));
    assert_eq!(map.get("hurd"), None);
}

#[test]
fn repo_map_last_write_wins_on_duplicate_name() {
    let mut map: RepoMap<u32> = RepoMap::new();
    map.insert("linux".to_string(), 1);
    map.insert("linux".to_string(), 2);
    assert_eq!(map.get("linux"), Some(&2));
}

#[test]
fn fan_in_collects_every_unit_in_any_order() {
    let mut collector = named_collector(&["a", "b", "c"]);
    assert!(!collector.is_complete());
    collector.report(2, Ok(30));
    collector.report(0, Ok(10));
    assert!(!collector.is_complete());
    collector.report(1, Ok(20));
    assert!(collector.is_complete());
    let (map, failures) = collector.finish();
    assert!(failures.is_empty());
    assert_eq!(map.pairs.len(), 3);
    assert_eq!(map.get("a").unwrap().repositories_data, 10);
    assert_eq!(map.get("b").unwrap().repositories_data, 20);
    assert_eq!(map.get("c").unwrap().repositories_data, 30);
}

#[test]
fn fan_in_result_is_independent_of_arrival_order() {
    let mut first = named_collector(&["a", "b", "c"]);
    first.report(0, Ok(10));
    first.report(1, Ok(20));
    first.report(2, Ok(30));
    let (map_a, _) = first.finish();

    let mut second = named_collector(&["a", "b", "c"]);
    second.report(2, Ok(30));
    second.report(1, Ok(20));
    second.report(0, Ok(10));
    let (map_b, _) = second.finish();

    assert_eq!(map_a.pairs.len(), map_b.pairs.len());
    for (name, data) in &map_a.pairs {
        assert_eq!(map_b.get(name.as_str()).unwrap().repositories_data, data.repositories_data);
    }
}

#[test]
fn failed_unit_is_reported_and_skipped() {
    let mut collector = named_collector(&["a", "b", "c"]);
    collector.report(0, Ok(10));
    collector.report(1, Err("clone failed".to_string()));
    collector.report(2, Ok(30));
    let (map, failures) = collector.finish();
    assert_eq!(map.get("a").unwrap().repositories_data, 10);
    assert_eq!(map.get("c").unwrap().repositories_data, 30);
    assert!(map.get("b").is_none());
    assert_eq!(failures.len(), 1);
    assert_eq!(failures[0].repository, "b");
    assert_eq!(failures[0].error, "clone failed");
}

fn account_with_repos(names: &[&str]) -> glit_core::account::User {
    let factory = UserFactory::with_config(UserConfig {
        url: "https://h.example/acc/".to_string(),
        all_branches: false,
    });
    let repos: Vec<RepoRef> = names
        .iter()
        .map(|n| RepoRef::from_url(format!("https://h.example/acc/{}/", n)))
        .collect();
    factory.create(repos).unwrap()
}

#[test]
fn committed_data_keys_by_repository_name() {
    let user = account_with_repos(&["a", "b", "c"]);
    let outcomes: Vec<Result<u32, String>> = vec![Ok(1), Ok(2), Ok(3)];
    let (map, failures) = user.committed_data(outcomes);
    assert!(failures.is_empty());
    assert_eq!(map.get("a").unwrap().repositories_data, 1);
    assert_eq!(map.get("b").unwrap().repositories_data, 2);
    assert_eq!(map.get("c").unwrap().repositories_data, 3);
    assert!(map.get("d").is_none());
}

#[test]
fn committed_data_partial_failure_keeps_other_repositories() {
    let user = account_with_repos(&["a", "b", "c"]);
    let outcomes: Vec<Result<u32, String>> =
        vec![Ok(1), Err("broken history".to_string()), Ok(3)];
    let (map, failures) = user.committed_data(outcomes);
    assert_eq!(map.get("a").unwrap().repositories_data, 1);
    assert_eq!(map.get("c").unwrap().repositories_data, 3);
    assert!(map.get("b").is_none());
    assert_eq!(failures.len(), 1);
    assert_eq!(failures[0].repository, "b");
    assert_eq!(failures[0].error, "broken history");
}

#[test]
fn commit_data_wrapper_relays_payload() {
    let wrapped = UserCommitData { repositories_data: vec![1u8, 2, 3] };
    assert_eq!(wrapped.repositories_data, vec![1u8, 2, 3]);
}

#[test]
fn pool_never_exceeds_its_cap() {
    let mut pool = PageFetchPool::new(10, 3);
    let mut peak: usize = 0;
    let mut started: Vec<usize> = Vec::new();
    while !pool.is_done() {
        while let Some(page) = pool.try_start() {
            started.push(page);
            let inflight = pool.inflight_count();
            assert!(inflight <= 3);
            if inflight > peak {
                peak = inflight;
            }
        }
        let page = started.pop().unwrap();
        pool.complete(page, vec![format!("https://h.example/acc/r{}/", page)]);
    }
    assert_eq!(peak, 3);
}

#[test]
fn pool_output_is_in_page_order_whatever_the_completion_order() {
    let mut pool = PageFetchPool::new(3, 8);
    assert_eq!(pool.try_start(), Some(0));
    assert_eq!(pool.try_start(), Some(1));
    assert_eq!(pool.try_start(), Some(2));
    assert_eq!(pool.try_start(), None);
    pool.complete(2, vec!["c".to_string()]);
    pool.complete(0, vec!["a".to_string()]);
    pool.complete(1, vec!["b".to_string()]);
    assert!(pool.is_done());
    let urls = pool.into_urls();
    assert_eq!(urls, vec!["a".to_string(), "b".to_string(), "c".to_string()]);
}

#[test]
fn pool_rerun_with_same_pages_is_identical() {
    let run = |order: &[usize]| -> Vec<String> {
        let mut pool = PageFetchPool::new(3, 2);
        let mut pending: Vec<usize> = Vec::new();
        let mut results: Vec<Option<Vec<String>>> = vec![None, None, None];
        let pages = [
            vec!["a".to_string(), "b".to_string()],
            vec!["c".to_string()],
            vec!["d".to_string()],
        ];
        for &next in order {
            while let Some(page) = pool.try_start() {
                pending.push(page);
                results[page] = Some(pages[page].clone());
            }
            if pending.contains(&next) {
                pending.retain(|&p| p != next);
                pool.complete(next, results[next].take().unwrap());
            }
        }
        while let Some(page) = pending.pop() {
            pool.complete(page, results[page].take().unwrap());
        }
        while let Some(page) = pool.try_start() {
            pool.complete(page, pages[page].clone());
        }
        pool.into_urls()
    };
    let first = run(&[0, 1, 2]);
    let second = run(&[1, 0, 2]);
    assert_eq!(first, second);
    assert_eq!(
        first,
        vec!["a".to_string(), "b".to_string(), "c".to_string(), "d".to_string()]
    );
}
