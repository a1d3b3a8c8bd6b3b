use wandering_inn_scraper::fetch::build_document;
use wandering_inn_scraper::fetch::process_chapter;
use wandering_inn_scraper::fetch::title_is_gated;
use wandering_inn_scraper::fetch::FetchOutcome;
use wandering_inn_scraper::store::Store;

fn document_header() -> &'static str {
    "<!DOCTYPE html PUBLIC \"-//W3C//DTD XHTML 1.1//EN\" \"http://www.w3.org/TR/xhtml11    /DTD/xhtml11.dtd\">
<html xmlns=\"http://www.w3.org/1999/xhtml\">
<head>
<meta http-equiv=\"Content-Type\" content=\"text/html; charset=UTF-8\" />
<meta name=\"author\" content=\"pirate aba\"/>
<meta name=\"description\" content=\"The Wandering Inn\"/>
<meta name=\"classification\" content=\"Fantasy\" />
<title>The Wandering Inn</title>
<link rel=\"stylesheet\" href=\"style.css\" type = \"text/css\" />
</head>
<body>"
}

fn expected_document(title: &str, stripped_body: &str) -> String {
    format!(
        "{}\n<h1>{}</h1>\n{}\n</body></html>\n",
        document_header(),
        title,
        stripped_body
    )
}

fn store_with_chapter() -> (Store, usize, usize) {
    let mut store = Store::new();
    let v = store.upsert_volume("Volume 1".to_string());
    let c = store.upsert_chapter("1.00".to_string(), "u1".to_string(), v);
    (store, v, c)
}

#[test]
fn gate_marker_is_detected_case_insensitively() {
    assert!(title_is_gated("Patron Early Access 9.00"));
    assert!(title_is_gated("pATRON eARLY aCCESS"));
    assert!(!title_is_gated("1.00"));
    assert!(!title_is_gated("Early Access"));
}

#[test]
fn build_document_wraps_title_and_strips_anchors() {
    let doc = build_document(
        "1.00",
        "<p>Hello</p><a href=\"next\">Next</a><p>Bye</p>",
    )
    .unwrap();
    assert_eq!(doc, expected_document("1.00", "<p>Hello</p><p>Bye</p>"));
}

#[test]
fn build_document_keeps_plain_body() {
    let doc = build_document("T", "<p>x</p>").unwrap();
    assert_eq!(doc, expected_document("T", "<p>x</p>"));
}

#[test]
fn gated_chapter_is_removed_when_excluded() {
    let (mut store, _v, c) = store_with_chapter();
    let outcome = process_chapter(&mut store, c, "Patron Early Access 1.00", "<p>x</p>", false);
    assert!(matches!(outcome, FetchOutcome::Removed));
    assert!(store.get_chapter(c).is_none());
    assert_eq!(store.chapter_count(), 0);
}

#[test]
fn gated_chapter_is_stored_when_included() {
    let (mut store, v, c) = store_with_chapter();
    let outcome = process_chapter(&mut store, c, "Patron Early Access 1.00", "<p>x</p>", true);
    assert!(matches!(outcome, FetchOutcome::Stored { changed: true }));
    assert!(store.get_chapter(c).unwrap().dirty);
    assert!(store.get_volume(v).unwrap().dirty);
}

#[test]
fn first_fetch_stores_document_and_marks_dirty() {
    let (mut store, v, c) = store_with_chapter();
    let outcome = process_chapter(&mut store, c, "1.00", "<p>x</p>", false);
    assert!(matches!(outcome, FetchOutcome::Stored { changed: true }));
    assert_eq!(
        store.get_chapter_data(c).unwrap(),
        expected_document("1.00", "<p>x</p>")
    );
    assert!(store.get_chapter(c).unwrap().dirty);
    assert!(store.get_volume(v).unwrap().dirty);
}

#[test]
fn refetch_of_identical_page_reports_no_change() {
    let (mut store, v, c) = store_with_chapter();
    process_chapter(&mut store, c, "1.00", "<p>x</p>", false);
    store.set_chapter_dirty(c, false);
    store.set_volume_dirty(v, false);
    let outcome = process_chapter(&mut store, c, "1.00", "<p>x</p>", false);
    assert!(matches!(outcome, FetchOutcome::Stored { changed: false }));
    assert!(!store.get_chapter(c).unwrap().dirty);
    assert!(!store.get_volume(v).unwrap().dirty);
}

#[test]
fn refetch_of_modified_page_marks_dirty_again() {
    let (mut store, v, c) = store_with_chapter();
    process_chapter(&mut store, c, "1.00", "<p>x</p>", false);
    store.set_chapter_dirty(c, false);
    store.set_volume_dirty(v, false);
    let outcome = process_chapter(&mut store, c, "1.00", "<p>y</p>", false);
    assert!(matches!(outcome, FetchOutcome::Stored { changed: true }));
    assert!(store.get_chapter(c).unwrap().dirty);
    assert!(store.get_volume(v).unwrap().dirty);
}

#[test]
fn interrupted_fetch_resumes_with_remaining_chapters() {
    let mut store = Store::new();
    let v = store.upsert_volume("Volume 1".to_string());
    let c1 = store.upsert_chapter("1.00".to_string(), "u1".to_string(), v);
    let c2 = store.upsert_chapter("1.01".to_string(), "u2".to_string(), v);
    let c3 = store.upsert_chapter("1.02".to_string(), "u3".to_string(), v);

    let selected: Vec<usize> = store
        .chapters_missing_content()
        .iter()
        .map(|c| c.id)
        .collect();
    assert_eq!(selected, vec![c1, c2, c3]);

    process_chapter(&mut store, c1, "1.00", "<p>a</p>", false);
    process_chapter(&mut store, c2, "1.01", "<p>b</p>", false);
    let doc1 = store.get_chapter_data(c1).unwrap();
    let doc2 = store.get_chapter_data(c2).unwrap();

    let remaining: Vec<usize> = store
        .chapters_missing_content()
        .iter()
        .map(|c| c.id)
        .collect();
    assert_eq!(remaining, vec![c3]);

    process_chapter(&mut store, c3, "1.02", "<p>c</p>", false);
    assert_eq!(store.get_chapter_data(c1).unwrap(), doc1);
    assert_eq!(store.get_chapter_data(c2).unwrap(), doc2);
    assert!(store.chapters_missing_content().is_empty());
}

#[test]
fn fetch_order_does_not_change_volume_order() {
    let mut store = Store::new();
    let v = store.upsert_volume("Volume 1".to_string());
    let c1 = store.upsert_chapter("1.00".to_string(), "u1".to_string(), v);
    let c2 = store.upsert_chapter("1.01".to_string(), "u2".to_string(), v);
    process_chapter(&mut store, c2, "1.01", "<p>b</p>", false);
    process_chapter(&mut store, c1, "1.00", "<p>a</p>", false);
    let order: Vec<usize> = store.get_chapters_by_volume(v).iter().map(|c| c.id).collect();
    assert_eq!(order, vec![c1, c2]);
}
