use wandering_inn_scraper::store::Store;

fn two_volume_store() -> (Store, usize, usize, usize, usize, usize) {
    let mut store = Store::new();
    let v1 = store.upsert_volume("Volume 1".to_string());
    let v2 = store.upsert_volume("Volume 2".to_string());
    let c1 = store.upsert_chapter("1.00".to_string(), "u1".to_string(), v1);
    let c2 = store.upsert_chapter("1.01".to_string(), "u2".to_string(), v1);
    let c3 = store.upsert_chapter("2.00".to_string(), "u3".to_string(), v2);
    (store, v1, v2, c1, c2, c3)
}

#[test]
fn upsert_volume_is_idempotent() {
    let mut store = Store::new();
    let a = store.upsert_volume("Volume 1".to_string());
    let b = store.upsert_volume("Volume 1".to_string());
    assert_eq!(a, b);
    assert_eq!(store.volume_count(), 1);
    let c = store.upsert_volume("Volume 2".to_string());
    assert_ne!(a, c);
    assert_eq!(store.volume_count(), 2);
}

#[test]
fn upsert_volume_never_touches_dirty_flag() {
    let mut store = Store::new();
    let v = store.upsert_volume("Volume 1".to_string());
    store.set_volume_dirty(v, true);
    store.upsert_volume("Volume 1".to_string());
    assert!(store.get_volume(v).unwrap().dirty);
}

#[test]
fn upsert_chapter_is_idempotent() {
    let mut store = Store::new();
    let v = store.upsert_volume("Volume 1".to_string());
    let a = store.upsert_chapter("1.00".to_string(), "u1".to_string(), v);
    let b = store.upsert_chapter("1.00".to_string(), "u1".to_string(), v);
    assert_eq!(a, b);
    assert_eq!(store.chapter_count(), 1);
    let c = store.upsert_chapter("1.00".to_string(), "other".to_string(), v);
    assert_ne!(a, c);
    assert_eq!(store.chapter_count(), 2);
}

#[test]
fn new_chapter_has_no_content_and_is_clean() {
    let (store, _v1, _v2, c1, _c2, _c3) = two_volume_store();
    let ch = store.get_chapter(c1).unwrap();
    assert!(ch.content.is_none());
    assert!(!ch.dirty);
    assert_eq!(store.get_chapter_data(c1), None);
}

#[test]
fn first_write_reports_changed_even_for_empty_text() {
    let (mut store, _v1, _v2, c1, c2, _c3) = two_volume_store();
    assert!(store.write_chapter_content(c1, "body".to_string()));
    assert!(store.write_chapter_content(c2, String::new()));
    assert_eq!(store.get_chapter_data(c1).unwrap(), "body");
    assert_eq!(store.get_chapter_data(c2).unwrap(), "");
}

#[test]
fn identical_rewrite_reports_unchanged() {
    let (mut store, _v1, _v2, c1, _c2, _c3) = two_volume_store();
    assert!(store.write_chapter_content(c1, "body".to_string()));
    assert!(!store.write_chapter_content(c1, "body".to_string()));
    assert!(!store.get_chapter(c1).unwrap().dirty);
}

#[test]
fn differing_rewrite_reports_changed() {
    let (mut store, _v1, _v2, c1, _c2, _c3) = two_volume_store();
    store.write_chapter_content(c1, "old".to_string());
    assert!(store.write_chapter_content(c1, "new".to_string()));
    assert_eq!(store.get_chapter_data(c1).unwrap(), "new");
}

#[test]
fn chapter_dirty_propagates_to_volume() {
    let (mut store, v1, v2, c1, _c2, _c3) = two_volume_store();
    store.set_chapter_dirty(c1, true);
    assert!(store.get_chapter(c1).unwrap().dirty);
    assert!(store.get_volume(v1).unwrap().dirty);
    assert!(!store.get_volume(v2).unwrap().dirty);
}

#[test]
fn clearing_chapter_dirty_leaves_volume_flag() {
    let (mut store, v1, _v2, c1, _c2, _c3) = two_volume_store();
    store.set_chapter_dirty(c1, true);
    store.set_chapter_dirty(c1, false);
    assert!(!store.get_chapter(c1).unwrap().dirty);
    assert!(store.get_volume(v1).unwrap().dirty);
}

#[test]
fn missing_content_lists_only_unset_chapters_in_order() {
    let (mut store, _v1, _v2, c1, c2, c3) = two_volume_store();
    store.write_chapter_content(c2, "body".to_string());
    let missing: Vec<usize> = store
        .chapters_missing_content()
        .iter()
        .map(|c| c.id)
        .collect();
    assert_eq!(missing, vec![c1, c3]);
}

#[test]
fn dirty_listings_follow_flags() {
    let (mut store, v1, _v2, c1, _c2, c3) = two_volume_store();
    store.set_chapter_dirty(c3, true);
    store.set_chapter_dirty(c1, true);
    store.set_volume_dirty(v1, true);
    let dirty_chapters: Vec<usize> = store.dirty_chapters().iter().map(|c| c.id).collect();
    assert_eq!(dirty_chapters, vec![c1, c3]);
    let dirty_volumes: Vec<String> =
        store.dirty_volumes().iter().map(|v| v.name.clone()).collect();
    assert_eq!(dirty_volumes, vec!["Volume 1".to_string(), "Volume 2".to_string()]);
}

#[test]
fn chapters_by_volume_keeps_insertion_order() {
    let (store, v1, v2, c1, c2, c3) = two_volume_store();
    let of_v1: Vec<usize> = store.get_chapters_by_volume(v1).iter().map(|c| c.id).collect();
    assert_eq!(of_v1, vec![c1, c2]);
    let of_v2: Vec<usize> = store.get_chapters_by_volume(v2).iter().map(|c| c.id).collect();
    assert_eq!(of_v2, vec![c3]);
}

#[test]
fn remove_chapter_deletes_row_and_content() {
    let (mut store, v1, _v2, c1, c2, _c3) = two_volume_store();
    store.write_chapter_content(c1, "body".to_string());
    store.remove_chapter(c1);
    assert_eq!(store.chapter_count(), 2);
    assert!(store.get_chapter(c1).is_none());
    assert_eq!(store.get_chapter_data(c1), None);
    let of_v1: Vec<usize> = store.get_chapters_by_volume(v1).iter().map(|c| c.id).collect();
    assert_eq!(of_v1, vec![c2]);
}

#[test]
fn all_chapters_lists_every_row_in_order() {
    let (mut store, _v1, _v2, c1, c2, c3) = two_volume_store();
    store.write_chapter_content(c2, "body".to_string());
    let all: Vec<usize> = store.all_chapters().iter().map(|c| c.id).collect();
    assert_eq!(all, vec![c1, c2, c3]);
}

#[test]
fn removed_chapter_id_is_not_reused() {
    let mut store = Store::new();
    let v = store.upsert_volume("Volume 1".to_string());
    let a = store.upsert_chapter("1.00".to_string(), "u1".to_string(), v);
    store.remove_chapter(a);
    let b = store.upsert_chapter("1.00".to_string(), "u1".to_string(), v);
    assert_ne!(a, b);
}
