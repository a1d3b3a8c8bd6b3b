use wandering_inn_scraper::config::UserConfig;
use wandering_inn_scraper::mail::select_attachments;
use wandering_inn_scraper::mail::Attachment;

fn attachment(name: &str) -> Attachment {
    Attachment {
        filename: name.to_string(),
        mime: "application/epub+zip".to_string(),
        bytes: name.as_bytes().to_vec(),
    }
}

fn recipient(strip: bool, volumes: bool, individual: bool) -> UserConfig {
    UserConfig {
        name: "n".to_string(),
        email: "e".to_string(),
        strip_colour: strip,
        send_full_volumes: volumes,
        send_combined_chapters: false,
        send_individual_chapters: individual,
    }
}

fn names(selected: &[Attachment]) -> Vec<String> {
    selected.iter().map(|a| a.filename.clone()).collect()
}

#[test]
fn default_attachment_is_an_empty_epub() {
    let a = Attachment::default();
    assert_eq!(a.filename, "");
    assert_eq!(a.mime, "application/epub+zip");
    assert!(a.bytes.is_empty());
}

#[test]
fn volumes_only_recipient_gets_plain_volumes() {
    let sel = select_attachments(
        &recipient(false, true, false),
        &vec![attachment("v1"), attachment("v2")],
        &vec![attachment("v1s")],
        &vec![attachment("c1")],
        &vec![attachment("c1s")],
    );
    assert_eq!(names(&sel), vec!["v1".to_string(), "v2".to_string()]);
}

#[test]
fn strip_colour_recipient_gets_stripped_variants_after_plain() {
    let sel = select_attachments(
        &recipient(true, true, true),
        &vec![attachment("v1")],
        &vec![attachment("v1s")],
        &vec![attachment("c1")],
        &vec![attachment("c1s")],
    );
    assert_eq!(
        names(&sel),
        vec!["v1".to_string(), "v1s".to_string(), "c1".to_string(), "c1s".to_string()]
    );
}

#[test]
fn indifferent_recipient_gets_nothing() {
    let sel = select_attachments(
        &recipient(true, false, false),
        &vec![attachment("v1")],
        &vec![attachment("v1s")],
        &vec![attachment("c1")],
        &vec![attachment("c1s")],
    );
    assert!(sel.is_empty());
    let bytes_kept = select_attachments(
        &recipient(false, true, false),
        &vec![attachment("v1")],
        &vec![],
        &vec![],
        &vec![],
    );
    assert_eq!(bytes_kept[0].bytes, b"v1".to_vec());
}
