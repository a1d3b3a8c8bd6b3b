//! Run configuration.
//!
//! The configuration is read from disk and parsed by the surrounding
//! program; this module holds the plain configuration values, their
//! defaults, and the one piece of logic the configuration carries:
//! folding each recipient's declared preferences into the generation
//! options, so that every artifact kind some recipient asks for is
//! generated.

use vstd::prelude::*;

verus! {

/// One recipient: address and declared preferences for which artifact
/// kinds to receive and in which markup style.
pub struct UserConfig {
    pub name: String,
    pub email: String,
    pub strip_colour: bool,
    pub send_full_volumes: bool,
    pub send_combined_chapters: bool,
    pub send_individual_chapters: bool,
}

impl Default for UserConfig {
    /// A recipient with no address who receives full volumes only.
    fn default() -> (r: Self)
        ensures
            r.name@ == Seq::<char>::empty(),
            r.email@ == Seq::<char>::empty(),
            !r.strip_colour,
            r.send_full_volumes,
            !r.send_combined_chapters,
            !r.send_individual_chapters,
    {
        UserConfig {
            name: String::new(),
            email: String::new(),
            strip_colour: false,
            send_full_volumes: true,
            send_combined_chapters: false,
            send_individual_chapters: false,
        }
    }
}

impl Clone for UserConfig {
    fn clone(&self) -> (r: Self)
        ensures
            r == *self,
    {
        UserConfig {
            name: self.name.clone(),
            email: self.email.clone(),
            strip_colour: self.strip_colour,
            send_full_volumes: self.send_full_volumes,
            send_combined_chapters: self.send_combined_chapters,
            send_individual_chapters: self.send_individual_chapters,
        }
    }
}

/// Mail transport settings and the recipients.
pub struct MailConfig {
    pub name: String,
    pub address: String,
    pub password: String,
    pub smtp_hostname: String,
    pub smtp_port: u16,
    pub destinations: Vec<UserConfig>,
}

impl Default for MailConfig {
    /// No sender yet, the usual submission endpoint, no recipients.
    fn default() -> (r: Self)
        ensures
            r.name@ == Seq::<char>::empty(),
            r.address@ == Seq::<char>::empty(),
            r.password@ == Seq::<char>::empty(),
            r.smtp_hostname@ == "smtp.gmail.com"@,
            r.smtp_port == 587,
            r.destinations@ == Seq::<UserConfig>::empty(),
    {
        MailConfig {
            name: String::new(),
            address: String::new(),
            password: String::new(),
            smtp_hostname: "smtp.gmail.com".to_owned(),
            smtp_port: 587,
            destinations: Vec::new(),
        }
    }
}

/// Which artifact kinds the run generates, and whether a
/// stripped-colour variant is produced besides the plain one.
pub struct EpubGenConfig {
    pub volumes: bool,
    pub chapters: bool,
    pub strip_colour: bool,
}

impl Default for EpubGenConfig {
    /// Generate both kinds, plain markup only.
    fn default() -> (r: Self)
        ensures
            r.volumes,
            r.chapters,
            !r.strip_colour,
    {
        EpubGenConfig { volumes: true, chapters: true, strip_colour: false }
    }
}

/// The whole run configuration.
pub struct Config {
    pub mail: MailConfig,
    pub epub_gen: EpubGenConfig,
    pub toc_url: String,
    /// Milliseconds to wait between requests to the source, so the
    /// run is not blocked for hammering it.
    pub request_delay: u64,
    /// Whether to prompt for the password that unlocks access-gated
    /// chapters and include them in the run.
    pub patreon_prompt: bool,
}

impl Default for Config {
    /// The published table of contents, one request a second, gated
    /// content excluded.
    fn default() -> (r: Self)
        ensures
            r.mail.name@ == Seq::<char>::empty(),
            r.mail.address@ == Seq::<char>::empty(),
            r.mail.password@ == Seq::<char>::empty(),
            r.mail.smtp_hostname@ == "smtp.gmail.com"@,
            r.mail.smtp_port == 587,
            r.mail.destinations@ == Seq::<UserConfig>::empty(),
            r.epub_gen.volumes,
            r.epub_gen.chapters,
            !r.epub_gen.strip_colour,
            r.toc_url@ == "https://wanderinginn.com/table-of-contents/"@,
            r.request_delay == 1000,
            !r.patreon_prompt,
    {
        Config {
            mail: MailConfig::default(),
            epub_gen: EpubGenConfig::default(),
            toc_url: "https://wanderinginn.com/table-of-contents/".to_owned(),
            request_delay: 1000,
            patreon_prompt: false,
        }
    }
}

impl Config {
    /// Fold each recipient's preferences into the generation options:
    /// a recipient asking for stripped colour, for full volumes, or
    /// for any chapter artifact turns the corresponding option on.
    /// Nothing else of the configuration moves.
    pub fn apply_destination_preferences(&mut self)
        ensures
            final(self).epub_gen.strip_colour == (old(self).epub_gen.strip_colour || exists|i: int|
                0 <= i < old(self).mail.destinations@.len() && (#[trigger] old(
                    self,
                ).mail.destinations@[i]).strip_colour),
            final(self).epub_gen.volumes == (old(self).epub_gen.volumes || exists|i: int|
                0 <= i < old(self).mail.destinations@.len() && (#[trigger] old(
                    self,
                ).mail.destinations@[i]).send_full_volumes),
            final(self).epub_gen.chapters == (old(self).epub_gen.chapters || exists|i: int|
                0 <= i < old(self).mail.destinations@.len() && ((#[trigger] old(
                    self,
                ).mail.destinations@[i]).send_combined_chapters
                    || old(self).mail.destinations@[i].send_individual_chapters)),
            final(self).mail == old(self).mail,
            final(self).toc_url == old(self).toc_url,
            final(self).request_delay == old(self).request_delay,
            final(self).patreon_prompt == old(self).patreon_prompt,
    {
        let ghost orig = *self;
        let n = self.mail.destinations.len();
        let mut i: usize = 0;
        while i < n
            invariant
                *self == (Config { epub_gen: self.epub_gen, ..orig }),
                n == orig.mail.destinations@.len(),
                i <= n,
                self.epub_gen.strip_colour == (orig.epub_gen.strip_colour || exists|j: int|
                    0 <= j < i && (#[trigger] orig.mail.destinations@[j]).strip_colour),
                self.epub_gen.volumes == (orig.epub_gen.volumes || exists|j: int|
                    0 <= j < i && (#[trigger] orig.mail.destinations@[j]).send_full_volumes),
                self.epub_gen.chapters == (orig.epub_gen.chapters || exists|j: int|
                    0 <= j < i && ((#[trigger] orig.mail.destinations@[j]).send_combined_chapters
                        || orig.mail.destinations@[j].send_individual_chapters)),
            decreases n - i,
        {
            let dest = &self.mail.destinations[i];
            let dest_strip = dest.strip_colour;
            let dest_vols = dest.send_full_volumes;
            let dest_chaps = dest.send_combined_chapters || dest.send_individual_chapters;
            if dest_strip {
                self.epub_gen.strip_colour = true;
            }
            if dest_vols {
                self.epub_gen.volumes = true;
            }
            if dest_chaps {
                self.epub_gen.chapters = true;
            }
            i += 1;
        }
    }
}

} // verus!
