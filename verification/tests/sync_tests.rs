//! The synchronization cycle: invalidation of changed gists, the merge
//! with the fetched record winning, ordering, and the assembled index.

use gist_cache::cache::ContentCache;
use gist_cache::types::{CacheMetadata, GistCache, GistFile, GistInfo};
use gist_cache::update::{
    apply_sync_cycle, build_index, changed_gist_ids, merge_gists, sort_gists_by_updated_desc,
};

const T0: i64 = 1_700_000_000;
const T1: i64 = 1_700_086_400;

fn gist(id: &str, updated_at: i64) -> GistInfo {
    GistInfo {
        id: id.to_string(),
        description: Some(format!("gist {}", id)),
        files: vec![GistFile {
            filename: format!("{}.sh", id),
            language: Some("Shell".to_string()),
            size: 10,
        }],
        updated_at,
        public: true,
        html_url: format!("https://gist.github.com/{}", id),
    }
}

fn baseline_of(gists: Vec<GistInfo>) -> GistCache {
    GistCache {
        metadata: CacheMetadata {
            last_updated: T0,
            total_count: gists.len(),
            github_user: "testuser".to_string(),
        },
        gists,
    }
}

#[test]
fn test_changed_gist_ids_inequality_both_ways() {
    let olds = vec![gist("a", T0), gist("b", T0), gist("c", T0)];
    // a unchanged, b newer, c older, d unknown
    let fetched = vec![gist("a", T0), gist("b", T1), gist("c", T0 - 5), gist("d", T1)];
    let changed = changed_gist_ids(&olds, &fetched);
    assert_eq!(changed, vec!["b".to_string(), "c".to_string()]);
}

#[test]
fn test_merge_fetched_wins() {
    let olds = vec![gist("a", T0), gist("b", T0)];
    let fetched = vec![gist("a", T1), gist("c", T1)];
    let merged = merge_gists(olds, fetched);
    assert_eq!(merged.len(), 3);
    assert_eq!(merged[0].id, "a");
    assert_eq!(merged[0].updated_at, T1);
    assert_eq!(merged[1].id, "b");
    assert_eq!(merged[2].id, "c");
}

#[test]
fn test_merge_later_fetch_wins() {
    let olds = vec![];
    let fetched = vec![gist("a", T0), gist("a", T1)];
    let merged = merge_gists(olds, fetched);
    assert_eq!(merged.len(), 1);
    assert_eq!(merged[0].updated_at, T1);
}

#[test]
fn test_sort_by_updated_desc() {
    let mut gists = vec![gist("a", T0), gist("b", T1), gist("c", T0 - 7)];
    sort_gists_by_updated_desc(&mut gists);
    assert_eq!(gists[0].id, "b");
    assert_eq!(gists[1].id, "a");
    assert_eq!(gists[2].id, "c");
}

#[test]
fn test_build_index_counts() {
    let idx = build_index(vec![gist("a", T0), gist("b", T1)], "someone".to_string(), T1);
    assert_eq!(idx.metadata.total_count, 2);
    assert_eq!(idx.metadata.last_updated, T1);
    assert_eq!(idx.metadata.github_user, "someone");
}

#[test]
fn test_cycle_merge_keeps_unchanged_and_new() {
    // baseline {itemA at T0}; fetch returns itemA unchanged and itemB new
    let mut store = ContentCache::new();
    store.ensure_cache_dir().unwrap();
    store.write("itemA", "a.txt", "body a").unwrap();

    let baseline = baseline_of(vec![gist("itemA", T0)]);
    let fetched = vec![gist("itemA", T0), gist("itemB", T1)];

    let outcome = apply_sync_cycle(Some(baseline), fetched, "me".to_string(), T1, &mut store);

    // both items are in the new index
    assert_eq!(outcome.cache.metadata.total_count, 2);
    let ids: Vec<&str> = outcome.cache.gists.iter().map(|g| g.id.as_str()).collect();
    assert!(ids.contains(&"itemA"));
    assert!(ids.contains(&"itemB"));

    // itemA's timestamp did not change, so its body was not evicted
    assert!(outcome.invalidated.is_empty());
    assert_eq!(outcome.deleted_count, 0);
    assert!(store.is_cached("itemA", "a.txt"));
}

#[test]
fn test_cycle_invalidates_updated_item() {
    // baseline {itemA at T0} with a cached body; fetch returns itemA at T1
    let mut store = ContentCache::new();
    store.ensure_cache_dir().unwrap();
    store.write("itemA", "a.txt", "stale body").unwrap();

    let baseline = baseline_of(vec![gist("itemA", T0)]);
    let fetched = vec![gist("itemA", T1)];

    let outcome = apply_sync_cycle(Some(baseline), fetched, "me".to_string(), T1, &mut store);

    // the stale body is gone
    assert_eq!(outcome.invalidated, vec!["itemA".to_string()]);
    assert_eq!(outcome.deleted_count, 1);
    assert!(!store.is_cached("itemA", "a.txt"));

    // and the persisted record carries the new timestamp
    assert_eq!(outcome.cache.gists.len(), 1);
    assert_eq!(outcome.cache.gists[0].id, "itemA");
    assert_eq!(outcome.cache.gists[0].updated_at, T1);
}

#[test]
fn test_cycle_empty_fetch_passes_baseline_through() {
    let mut store = ContentCache::new();
    store.ensure_cache_dir().unwrap();

    let baseline = baseline_of(vec![gist("a", T1), gist("b", T0)]);
    let outcome = apply_sync_cycle(Some(baseline), vec![], "me".to_string(), T1, &mut store);

    assert_eq!(outcome.cache.gists.len(), 2);
    assert_eq!(outcome.cache.gists[0].id, "a");
    assert_eq!(outcome.cache.gists[1].id, "b");
    assert_eq!(outcome.cache.metadata.total_count, 2);
    assert!(outcome.invalidated.is_empty());
}

#[test]
fn test_cycle_without_baseline_sorts_fetch() {
    let mut store = ContentCache::new();
    store.ensure_cache_dir().unwrap();

    let fetched = vec![gist("older", T0), gist("newer", T1)];
    let outcome = apply_sync_cycle(None, fetched, "fresh".to_string(), T1, &mut store);

    assert_eq!(outcome.cache.metadata.github_user, "fresh");
    assert_eq!(outcome.cache.gists.len(), 2);
    assert_eq!(outcome.cache.gists[0].id, "newer");
    assert_eq!(outcome.cache.gists[1].id, "older");
    assert!(outcome.invalidated.is_empty());
}

#[test]
fn test_cycle_eviction_of_uncached_item_counts_nothing() {
    let mut store = ContentCache::new();
    store.ensure_cache_dir().unwrap();

    let baseline = baseline_of(vec![gist("itemA", T0)]);
    let fetched = vec![gist("itemA", T1)];

    let outcome = apply_sync_cycle(Some(baseline), fetched, "me".to_string(), T1, &mut store);

    // invalidated, but there was nothing on disk to remove
    assert_eq!(outcome.invalidated, vec!["itemA".to_string()]);
    assert_eq!(outcome.deleted_count, 0);
}
