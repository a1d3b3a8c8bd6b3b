use wandering_inn_scraper::config::Config;
use wandering_inn_scraper::config::EpubGenConfig;
use wandering_inn_scraper::config::MailConfig;
use wandering_inn_scraper::config::UserConfig;

#[test]
fn defaults_match_documented_values() {
    let c = Config::default();
    assert_eq!(c.toc_url, "https://wanderinginn.com/table-of-contents/");
    assert_eq!(c.request_delay, 1000);
    assert!(!c.patreon_prompt);
    assert_eq!(c.mail.smtp_hostname, "smtp.gmail.com");
    assert_eq!(c.mail.smtp_port, 587);
    assert!(c.mail.destinations.is_empty());
    assert!(c.epub_gen.volumes);
    assert!(c.epub_gen.chapters);
    assert!(!c.epub_gen.strip_colour);

    let u = UserConfig::default();
    assert!(u.send_full_volumes);
    assert!(!u.send_combined_chapters);
    assert!(!u.send_individual_chapters);
    assert!(!u.strip_colour);
}

fn recipient(strip: bool, volumes: bool, combined: bool, individual: bool) -> UserConfig {
    UserConfig {
        name: "n".to_string(),
        email: "e".to_string(),
        strip_colour: strip,
        send_full_volumes: volumes,
        send_combined_chapters: combined,
        send_individual_chapters: individual,
    }
}

#[test]
fn preferences_turn_generation_options_on() {
    let mut c = Config {
        epub_gen: EpubGenConfig { volumes: false, chapters: false, strip_colour: false },
        mail: MailConfig {
            destinations: vec![
                recipient(false, false, true, false),
                recipient(true, false, false, false),
            ],
            ..MailConfig::default()
        },
        ..Config::default()
    };
    c.apply_destination_preferences();
    assert!(c.epub_gen.chapters);
    assert!(c.epub_gen.strip_colour);
    assert!(!c.epub_gen.volumes);
}

#[test]
fn preferences_never_turn_options_off() {
    let mut c = Config {
        epub_gen: EpubGenConfig { volumes: true, chapters: true, strip_colour: true },
        mail: MailConfig {
            destinations: vec![recipient(false, false, false, false)],
            ..MailConfig::default()
        },
        ..Config::default()
    };
    c.apply_destination_preferences();
    assert!(c.epub_gen.volumes);
    assert!(c.epub_gen.chapters);
    assert!(c.epub_gen.strip_colour);
}

#[test]
fn no_recipients_leave_options_unchanged() {
    let mut c = Config {
        epub_gen: EpubGenConfig { volumes: false, chapters: false, strip_colour: false },
        ..Config::default()
    };
    c.apply_destination_preferences();
    assert!(!c.epub_gen.volumes);
    assert!(!c.epub_gen.chapters);
    assert!(!c.epub_gen.strip_colour);
}
