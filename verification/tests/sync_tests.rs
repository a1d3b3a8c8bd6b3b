use wandering_inn_scraper::store::Store;
use wandering_inn_scraper::sync::sync;
use wandering_inn_scraper::sync::ChapterListing;
use wandering_inn_scraper::sync::VolumeListing;

fn entry(title: &str, uri: &str) -> ChapterListing {
    ChapterListing { title: title.to_string(), uri: uri.to_string() }
}

fn sample_listing() -> Vec<VolumeListing> {
    vec![
        VolumeListing {
            title: "Volume 1".to_string(),
            chapters: vec![entry("1.00", "u1"), entry("1.01", "u2")],
        },
        VolumeListing {
            title: "Volume 2".to_string(),
            chapters: vec![entry("2.00", "u3")],
        },
    ]
}

fn snapshot(store: &Store) -> Vec<(usize, String, String, usize, Option<String>, bool)> {
    let mut rows = Vec::new();
    for vid in 0..store.volume_count() {
        for ch in store.get_chapters_by_volume(vid) {
            rows.push((ch.id, ch.name.clone(), ch.uri.clone(), ch.volumeid, ch.content.clone(), ch.dirty));
        }
    }
    rows
}

#[test]
fn sync_builds_catalog_in_listing_order() {
    let mut store = Store::new();
    sync(&mut store, &sample_listing());
    assert_eq!(store.volume_count(), 2);
    assert_eq!(store.chapter_count(), 3);
    let names: Vec<String> = store
        .get_chapters_by_volume(0)
        .iter()
        .map(|c| c.name.clone())
        .collect();
    assert_eq!(names, vec!["1.00".to_string(), "1.01".to_string()]);
    let names2: Vec<String> = store
        .get_chapters_by_volume(1)
        .iter()
        .map(|c| c.name.clone())
        .collect();
    assert_eq!(names2, vec!["2.00".to_string()]);
}

#[test]
fn sync_twice_equals_sync_once() {
    let mut once = Store::new();
    sync(&mut once, &sample_listing());
    let mut twice = Store::new();
    sync(&mut twice, &sample_listing());
    sync(&mut twice, &sample_listing());
    assert_eq!(twice.volume_count(), once.volume_count());
    assert_eq!(twice.chapter_count(), once.chapter_count());
    assert_eq!(snapshot(&twice), snapshot(&once));
}

#[test]
fn resync_leaves_content_and_flags_untouched() {
    let mut store = Store::new();
    sync(&mut store, &sample_listing());
    let chapters = store.chapters_missing_content();
    let first = chapters[0].id;
    assert!(store.write_chapter_content(first, "body".to_string()));
    store.set_chapter_dirty(first, true);
    let before = snapshot(&store);
    sync(&mut store, &sample_listing());
    assert_eq!(snapshot(&store), before);
}

#[test]
fn sync_with_appended_chapters_only_appends() {
    let mut store = Store::new();
    sync(&mut store, &sample_listing());
    let first = store.get_chapters_by_volume(0)[0].id;
    store.write_chapter_content(first, "body".to_string());
    store.set_chapter_dirty(first, true);

    let mut grown = sample_listing();
    grown[1].chapters.push(entry("2.01", "u4"));
    sync(&mut store, &grown);

    assert_eq!(store.volume_count(), 2);
    assert_eq!(store.chapter_count(), 4);
    let kept = store.get_chapter(first).unwrap();
    assert_eq!(kept.content.unwrap(), "body");
    assert!(kept.dirty);
    let names2: Vec<String> = store
        .get_chapters_by_volume(1)
        .iter()
        .map(|c| c.name.clone())
        .collect();
    assert_eq!(names2, vec!["2.00".to_string(), "2.01".to_string()]);
}
