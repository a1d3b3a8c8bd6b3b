//! Delivery selection.
//!
//! Sending mail is the transport collaborator's work; this module
//! holds the generated artifacts as plain values and the one decision
//! delivery needs: which artifacts each recipient receives, in which
//! order, per the recipient's declared preferences.

use vstd::prelude::*;

use crate::config::UserConfig;

verus! {

/// Model of one generated artifact.
#[verifier::ext_equal]
pub struct AttachmentView {
    pub filename: Seq<char>,
    pub mime: Seq<char>,
    pub bytes: Seq<u8>,
}

/// One generated artifact, ready for delivery.
pub struct Attachment {
    pub filename: String,
    pub mime: String,
    pub bytes: Vec<u8>,
}

impl View for Attachment {
    type V = AttachmentView;

    open spec fn view(&self) -> AttachmentView {
        AttachmentView { filename: self.filename@, mime: self.mime@, bytes: self.bytes@ }
    }
}

impl Default for Attachment {
    /// An unnamed, empty e-book attachment.
    fn default() -> (r: Self)
        ensures
            r.filename@ == Seq::<char>::empty(),
            r.mime@ == "application/epub+zip"@,
            r.bytes@ == Seq::<u8>::empty(),
    {
        Attachment {
            filename: String::new(),
            mime: "application/epub+zip".to_owned(),
            bytes: Vec::new(),
        }
    }
}

/// An element-by-element copy of a byte buffer.
fn copy_bytes(v: &Vec<u8>) -> (r: Vec<u8>)
    ensures
        r@ == v@,
{
    let n = v.len();
    let mut out: Vec<u8> = Vec::new();
    let mut i: usize = 0;
    while i < n
        invariant
            n == v@.len(),
            i <= n,
            out@ == v@.subrange(0, i as int),
        decreases n - i,
    {
        out.push(v[i]);
        proof {
            assert(out@ =~= v@.subrange(0, i as int + 1));
        }
        i += 1;
    }
    proof {
        assert(v@.subrange(0, n as int) =~= v@);
    }
    out
}

impl Clone for Attachment {
    fn clone(&self) -> (r: Self)
        ensures
            r@ == self@,
    {
        Attachment {
            filename: self.filename.clone(),
            mime: self.mime.clone(),
            bytes: copy_bytes(&self.bytes),
        }
    }
}

/// Append a copy of every artifact of `src` to `dst`, in order.
fn append_attachments(dst: &mut Vec<Attachment>, src: &Vec<Attachment>)
    ensures
        final(dst)@.map_values(|a: Attachment| a@) == old(dst)@.map_values(|a: Attachment| a@)
            + src@.map_values(|a: Attachment| a@),
{
    let ghost f = |a: Attachment| a@;
    let ghost d0 = dst@;
    let n = src.len();
    let mut i: usize = 0;
    proof {
        assert(dst@.map_values(f) =~= d0.map_values(f) + src@.subrange(0, 0).map_values(f));
    }
    while i < n
        invariant
            f == (|a: Attachment| a@),
            n == src@.len(),
            i <= n,
            dst@.map_values(f) == d0.map_values(f) + src@.subrange(0, i as int).map_values(f),
        decreases n - i,
    {
        let cl = src[i].clone();
        let ghost dpre = dst@;
        let ghost clg = cl;
        dst.push(cl);
        proof {
            crate::catalog::lemma_map_values_push(dpre, clg, f);
            assert(src@.subrange(0, i as int + 1) =~= src@.subrange(0, i as int).push(
                src@[i as int],
            ));
            crate::catalog::lemma_map_values_push(
                src@.subrange(0, i as int),
                src@[i as int],
                f,
            );
            assert(dst@.map_values(f) =~= d0.map_values(f) + src@.subrange(
                0,
                i as int + 1,
            ).map_values(f));
        }
        i += 1;
    }
    proof {
        assert(src@.subrange(0, n as int) =~= src@);
        assert(dst@.map_values(|a: Attachment| a@) =~= dst@.map_values(f));
        assert(d0.map_values(|a: Attachment| a@) =~= d0.map_values(f));
        assert(src@.map_values(|a: Attachment| a@) =~= src@.map_values(f));
    }
}

/// The artifact sequence one recipient receives, per preferences.
pub open spec fn selected_for(
    dest: UserConfig,
    volumes: Seq<AttachmentView>,
    volumes_stripped: Seq<AttachmentView>,
    chapters: Seq<AttachmentView>,
    chapters_stripped: Seq<AttachmentView>,
) -> Seq<AttachmentView> {
    (if dest.send_full_volumes {
        volumes + (if dest.strip_colour {
            volumes_stripped
        } else {
            Seq::empty()
        })
    } else {
        Seq::empty()
    }) + (if dest.send_individual_chapters {
        chapters + (if dest.strip_colour {
            chapters_stripped
        } else {
            Seq::empty()
        })
    } else {
        Seq::empty()
    })
}

/// Which artifacts this recipient receives, in sending order: full
/// volumes first, their stripped-colour variants after when asked
/// for, then individual chapters, their stripped variants last.
pub fn select_attachments(
    dest: &UserConfig,
    volumes: &Vec<Attachment>,
    volumes_stripped: &Vec<Attachment>,
    chapters: &Vec<Attachment>,
    chapters_stripped: &Vec<Attachment>,
) -> (r: Vec<Attachment>)
    ensures
        r@.map_values(|a: Attachment| a@) == selected_for(
            *dest,
            volumes@.map_values(|a: Attachment| a@),
            volumes_stripped@.map_values(|a: Attachment| a@),
            chapters@.map_values(|a: Attachment| a@),
            chapters_stripped@.map_values(|a: Attachment| a@),
        ),
{
    let mut out: Vec<Attachment> = Vec::new();
    if dest.send_full_volumes {
        append_attachments(&mut out, volumes);
        if dest.strip_colour {
            append_attachments(&mut out, volumes_stripped);
        }
    }
    if dest.send_individual_chapters {
        append_attachments(&mut out, chapters);
        if dest.strip_colour {
            append_attachments(&mut out, chapters_stripped);
        }
    }
    proof {
        assert(out@.map_values(|a: Attachment| a@) =~= selected_for(
            *dest,
            volumes@.map_values(|a: Attachment| a@),
            volumes_stripped@.map_values(|a: Attachment| a@),
            chapters@.map_values(|a: Attachment| a@),
            chapters_stripped@.map_values(|a: Attachment| a@),
        ));
    }
    out
}

} // verus!
