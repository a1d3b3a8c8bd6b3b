use wandering_inn_scraper::fetch::process_chapter;
use wandering_inn_scraper::fetch::FetchOutcome;
use wandering_inn_scraper::plan::record_chapter_generation;
use wandering_inn_scraper::plan::record_volume_generation;
use wandering_inn_scraper::store::Store;
use wandering_inn_scraper::sync::sync;
use wandering_inn_scraper::sync::ChapterListing;
use wandering_inn_scraper::sync::VolumeListing;

fn listing() -> Vec<VolumeListing> {
    vec![VolumeListing {
        title: "Volume 1".to_string(),
        chapters: vec![
            ChapterListing { title: "c1".to_string(), uri: "u1".to_string() },
            ChapterListing { title: "c2".to_string(), uri: "u2".to_string() },
        ],
    }]
}

fn page_for(name: &str) -> (String, String) {
    (name.to_string(), format!("<p>body of {}</p>", name))
}

fn fetch_missing(store: &mut Store) {
    for ch in store.chapters_missing_content() {
        let (title, body) = page_for(&ch.name);
        let outcome = process_chapter(store, ch.id, &title, &body, false);
        assert!(matches!(outcome, FetchOutcome::Stored { .. }));
    }
}

fn run_planner(store: &mut Store) {
    for vol in store.dirty_volumes() {
        record_volume_generation(store, vol.id, true);
    }
    for ch in store.dirty_chapters() {
        record_chapter_generation(store, ch.id, true);
    }
}

#[test]
fn full_run_then_identical_rerun_is_a_no_op() {
    let mut store = Store::new();

    sync(&mut store, &listing());
    assert_eq!(store.volume_count(), 1);
    assert_eq!(store.chapter_count(), 2);
    for ch in store.get_chapters_by_volume(0) {
        assert!(!ch.dirty);
        assert!(ch.content.is_none());
    }
    assert!(!store.get_volume(0).unwrap().dirty);

    fetch_missing(&mut store);
    for ch in store.get_chapters_by_volume(0) {
        assert!(ch.dirty);
        assert!(ch.content.is_some());
    }
    assert!(store.get_volume(0).unwrap().dirty);

    run_planner(&mut store);
    assert!(store.dirty_volumes().is_empty());
    assert!(store.dirty_chapters().is_empty());
    assert!(!store.get_volume(0).unwrap().dirty);

    // A re-run against the identical listing and identical upstream
    // content must leave every dirty flag clear.
    sync(&mut store, &listing());
    assert!(store.chapters_missing_content().is_empty());
    for ch in store.get_chapters_by_volume(0) {
        let (title, body) = page_for(&ch.name);
        let outcome = process_chapter(&mut store, ch.id, &title, &body, false);
        assert!(matches!(outcome, FetchOutcome::Stored { changed: false }));
    }
    assert!(store.dirty_volumes().is_empty());
    assert!(store.dirty_chapters().is_empty());
}

#[test]
fn failed_generation_keeps_flags_for_retry() {
    let mut store = Store::new();
    sync(&mut store, &listing());
    fetch_missing(&mut store);

    // The volume artifact fails while the chapter artifacts succeed:
    // the two units are independent.
    for vol in store.dirty_volumes() {
        record_volume_generation(&mut store, vol.id, false);
    }
    for ch in store.dirty_chapters() {
        record_chapter_generation(&mut store, ch.id, true);
    }
    assert!(store.get_volume(0).unwrap().dirty);
    assert!(store.dirty_chapters().is_empty());

    for vol in store.dirty_volumes() {
        record_volume_generation(&mut store, vol.id, true);
    }
    assert!(store.dirty_volumes().is_empty());
}
