//! Content fetcher decisions.
//!
//! The network retrieval and markup extraction of a chapter page are a
//! collaborator's work; this module holds what the fetcher decides
//! once a page's extracted title and main content are in hand: the
//! access gate, the canonical stored representation, the change
//! detection against the stored value, and the dirty-flag propagation
//! that the change drives.  Pattern matching over the page text is
//! done by the `regex` crate through the trusted wrappers below.

use vstd::prelude::*;
use vstd::string::StringExecFns;

use crate::catalog::chapter_row_unchanged;
use crate::catalog::CatalogView;
use crate::catalog::ChapterView;
use crate::store::Store;
use crate::sync::lemma_toc_of_update;
use crate::sync::toc_of;

verus! {

/// Name for what `regex::Regex::new` decides: whether the pattern
/// text is a valid regular expression.
pub uninterp spec fn regex_is_valid(pat: Seq<char>) -> bool;

/// Name for what `regex::Regex::is_match` returns: whether the
/// pattern matches somewhere in the text.
pub uninterp spec fn regex_match(pat: Seq<char>, text: Seq<char>) -> bool;

/// Name for what `regex::Regex::replace_all` returns: the text with
/// every non-overlapping match of the pattern replaced.
pub uninterp spec fn regex_replaced(pat: Seq<char>, text: Seq<char>, rep: Seq<char>) -> Seq<char>;

/// Relies on regex::Regex::new and regex::Regex::is_match: whether a
/// pattern compiles depends on the pattern text alone, and whether it
/// matches depends on the pattern and the searched text alone.
#[verifier::external_body]
fn regex_is_match(pat: &str, text: &str) -> (r: Option<bool>)
    ensures
        r is Some <==> regex_is_valid(pat@),
        r matches Some(b) ==> b == regex_match(pat@, text@),
{
    match regex::Regex::new(pat) {
        Ok(re) => Some(re.is_match(text)),
        Err(_) => None,
    }
}

/// Relies on regex::Regex::new and regex::Regex::replace_all: the text
/// with every match replaced depends on the pattern, the text and the
/// replacement alone.
#[verifier::external_body]
fn regex_replace_all(pat: &str, text: &str, rep: &str) -> (r: Option<String>)
    ensures
        r is Some <==> regex_is_valid(pat@),
        r matches Some(s) ==> s@ == regex_replaced(pat@, text@, rep@),
{
    match regex::Regex::new(pat) {
        Ok(re) => Some(re.replace_all(text, rep).into_owned()),
        Err(_) => None,
    }
}

/// The pattern that marks access-gated chapter titles.
pub open spec fn gate_pattern() -> Seq<char> {
    "(?i)Patron Early Access"@
}

/// The pattern for the navigational anchor tags that are stripped
/// from a stored chapter body.
pub open spec fn anchor_pattern() -> Seq<char> {
    "<a.*?</a>"@
}

/// Whether a page with this extracted title is access-gated.
pub open spec fn page_gated(title: Seq<char>) -> bool {
    regex_is_valid(gate_pattern()) && regex_match(gate_pattern(), title)
}

/// Evaluate the access gate on an extracted chapter title.
pub fn title_is_gated(title: &str) -> (r: bool)
    ensures
        r == page_gated(title@),
{
    match regex_is_match("(?i)Patron Early Access", title) {
        Some(b) => b,
        None => false,
    }
}

/// The canonical stored representation of a fetched page: the fixed
/// document wrapper, the title heading, and the extracted body with
/// navigational anchor tags stripped.
pub open spec fn canonical_document(title: Seq<char>, body: Seq<char>) -> Seq<char> {
    "<!DOCTYPE html PUBLIC \"-//W3C//DTD XHTML 1.1//EN\" \"http://www.w3.org/TR/xhtml11    /DTD/xhtml11.dtd\">
<html xmlns=\"http://www.w3.org/1999/xhtml\">
<head>
<meta http-equiv=\"Content-Type\" content=\"text/html; charset=UTF-8\" />
<meta name=\"author\" content=\"pirate aba\"/>
<meta name=\"description\" content=\"The Wandering Inn\"/>
<meta name=\"classification\" content=\"Fantasy\" />
<title>The Wandering Inn</title>
<link rel=\"stylesheet\" href=\"style.css\" type = \"text/css\" />
</head>
<body>"@ + "\n<h1>"@ + title + "</h1>\n"@ + regex_replaced(anchor_pattern(), body, ""@)
        + "\n"@ + "</body></html>"@ + "\n"@
}

/// Assemble the canonical document for a page.  `None` only when the
/// anchor-stripping pattern fails to compile, in which case nothing
/// can be stored for the page.
pub fn build_document(title: &str, body: &str) -> (r: Option<String>)
    ensures
        r is Some <==> regex_is_valid(anchor_pattern()),
        r matches Some(s) ==> s@ == canonical_document(title@, body@),
{
    let stripped = match regex_replace_all("<a.*?</a>", body, "") {
        Some(s) => s,
        None => {
            return None;
        },
    };
    let mut doc =
        "<!DOCTYPE html PUBLIC \"-//W3C//DTD XHTML 1.1//EN\" \"http://www.w3.org/TR/xhtml11    /DTD/xhtml11.dtd\">
<html xmlns=\"http://www.w3.org/1999/xhtml\">
<head>
<meta http-equiv=\"Content-Type\" content=\"text/html; charset=UTF-8\" />
<meta name=\"author\" content=\"pirate aba\"/>
<meta name=\"description\" content=\"The Wandering Inn\"/>
<meta name=\"classification\" content=\"Fantasy\" />
<title>The Wandering Inn</title>
<link rel=\"stylesheet\" href=\"style.css\" type = \"text/css\" />
</head>
<body>".to_owned();
    doc.append("\n<h1>");
    doc.append(title);
    doc.append("</h1>\n");
    doc.append(stripped.as_str());
    doc.append("\n");
    doc.append("</body></html>");
    doc.append("\n");
    Some(doc)
}

/// Model of the fetcher's store update for eligible content: write
/// the text, and on an actual change mark the chapter — and through
/// it the owning volume — dirty.
pub open spec fn record_content_m(c: CatalogView, id: int, text: Seq<char>) -> CatalogView {
    if c.content_changed(id, text) {
        c.write_content(id, text).set_chapter_dirty(id, true)
    } else {
        c.write_content(id, text)
    }
}

/// Store a chapter's canonical document and derive dirty state from
/// actual change: the flags move exactly when the write changed the
/// stored value.
pub fn record_chapter_content(store: &mut Store, chapter_id: usize, text: String) -> (changed:
    bool)
    requires
        old(store)@.wf(),
        old(store)@.has_chapter_id(chapter_id as int),
    ensures
        changed == old(store)@.content_changed(chapter_id as int, text@),
        final(store)@ == record_content_m(old(store)@, chapter_id as int, text@),
        final(store)@.wf(),
{
    let ghost c0 = store@;
    proof {
        c0.lemma_write_content_facts(chapter_id as int, text@);
    }
    let changed = store.write_chapter_content(chapter_id, text);
    if changed {
        store.set_chapter_dirty(chapter_id, true);
    }
    changed
}

/// What the fetcher decided for one retrieved chapter page.
#[derive(Clone, Copy, PartialEq, Eq, Structural, Debug)]
pub enum FetchOutcome {
    /// The canonical document was stored; `changed` reports whether it
    /// differed byte for byte from the stored value.
    Stored { changed: bool },
    /// The page was access-gated and the run excludes gated content:
    /// the chapter was removed from the catalog entirely.
    Removed,
    /// The anchor-stripping pattern failed to compile; the catalog is
    /// untouched and the chapter stays selected for the next run.
    Skipped,
}

/// Model of the fetcher's whole decision for one page.
pub open spec fn process_page_m(
    c: CatalogView,
    id: int,
    title: Seq<char>,
    body: Seq<char>,
    include_gated: bool,
) -> CatalogView {
    if page_gated(title) && !include_gated {
        c.remove_chapter(id)
    } else if regex_is_valid(anchor_pattern()) {
        record_content_m(c, id, canonical_document(title, body))
    } else {
        c
    }
}

/// Process one retrieved chapter page: evaluate the access gate on the
/// extracted title, and either remove the gated chapter, or store its
/// canonical document and propagate dirty state on change.
pub fn process_chapter(
    store: &mut Store,
    chapter_id: usize,
    title: &str,
    body: &str,
    include_gated: bool,
) -> (r: FetchOutcome)
    requires
        old(store)@.wf(),
        old(store)@.has_chapter_id(chapter_id as int),
    ensures
        final(store)@ == process_page_m(
            old(store)@,
            chapter_id as int,
            title@,
            body@,
            include_gated,
        ),
        final(store)@.wf(),
        r is Removed <==> page_gated(title@) && !include_gated,
        (r matches FetchOutcome::Stored { changed } ==> changed == old(store)@.content_changed(
            chapter_id as int,
            canonical_document(title@, body@),
        )),
        r is Stored <==> !(page_gated(title@) && !include_gated) && regex_is_valid(
            anchor_pattern(),
        ),
{
    if title_is_gated(title) && !include_gated {
        store.remove_chapter(chapter_id);
        FetchOutcome::Removed
    } else {
        match build_document(title, body) {
            Some(doc) => {
                let changed = record_chapter_content(store, chapter_id, doc);
                FetchOutcome::Stored { changed }
            },
            None => FetchOutcome::Skipped,
        }
    }
}

/// A chapter still needs fetching: it exists and has no stored
/// content.  This is the fetcher's default selection.
pub open spec fn needs_fetch(c: CatalogView, id: int) -> bool {
    c.has_chapter_id(id) && c.content_of(id) is None
}

/// Law: a chapter with no prior content reports a change on its first
/// write, whatever the text — the absent baseline differs from every
/// text, the empty one included — so first-ever content is marked as
/// requiring regeneration.
pub proof fn lemma_first_write_changed(c: CatalogView, id: int, text: Seq<char>)
    requires
        c.wf(),
        c.has_chapter_id(id),
        c.content_of(id) is None,
    ensures
        c.content_changed(id, text),
        record_content_m(c, id, text).chapter_rec(id).dirty,
{
    c.lemma_write_content_facts(id, text);
    c.write_content(id, text).lemma_set_chapter_dirty_facts(id, true);
}

/// Law: recording byte-identical text a second time reports no change
/// and leaves the whole catalog — dirty flags included — exactly as
/// the first recording left it.
pub proof fn lemma_record_idempotent(c: CatalogView, id: int, text: Seq<char>)
    requires
        c.wf(),
        c.has_chapter_id(id),
    ensures
        !record_content_m(c, id, text).content_changed(id, text),
        record_content_m(record_content_m(c, id, text), id, text) == record_content_m(c, id, text),
{
    c.lemma_write_content_facts(id, text);
    let cw = c.write_content(id, text);
    let c1 = record_content_m(c, id, text);
    if c.content_changed(id, text) {
        cw.lemma_set_chapter_dirty_facts(id, true);
    }
    assert(c1.content_of(id) == Some(text));
    c1.lemma_write_content_facts(id, text);
    let c2 = c1.write_content(id, text);
    let k = c1.chapter_index_of(id);
    assert(c2.chapters[k] == c1.chapters[k]);
    assert(c2.chapters =~= c1.chapters);
    assert(c2 =~= c1);
}

/// Law: recording text that differs from the stored value marks the
/// chapter dirty and propagates the flag to its owning volume.
pub proof fn lemma_changed_write_marks_dirty(c: CatalogView, id: int, text: Seq<char>)
    requires
        c.wf(),
        c.has_chapter_id(id),
        c.content_changed(id, text),
    ensures
        ({
            let c2 = record_content_m(c, id, text);
            &&& c2.chapter_rec(id).dirty
            &&& c2.volumes[c2.chapter_rec(id).volumeid].dirty
        }),
{
    c.lemma_write_content_facts(id, text);
    c.write_content(id, text).lemma_set_chapter_dirty_facts(id, true);
}

/// Law (resumability): recording fetched content for one chapter
/// removes exactly that chapter from the missing-content selection —
/// so a restarted run completes the remaining chapters — and alters
/// no other chapter row, so the chapters already committed keep their
/// content and flags.
pub proof fn lemma_record_resumable(c: CatalogView, id: int, text: Seq<char>, id2: int)
    requires
        c.wf(),
        c.has_chapter_id(id),
    ensures
        !needs_fetch(record_content_m(c, id, text), id),
        id2 != id ==> chapter_row_unchanged(c, record_content_m(c, id, text), id2),
        id2 != id ==> needs_fetch(record_content_m(c, id, text), id2) == needs_fetch(c, id2),
{
    c.lemma_write_content_facts(id, text);
    let cw = c.write_content(id, text);
    let c2 = record_content_m(c, id, text);
    if c.content_changed(id, text) {
        cw.lemma_set_chapter_dirty_facts(id, true);
    }
    if id2 != id {
        assert(chapter_row_unchanged(c, cw, id2));
        if c.content_changed(id, text) {
            assert(chapter_row_unchanged(cw, c2, id2));
        }
        assert(chapter_row_unchanged(c, c2, id2));
    }
}

/// Law: fetching never reorders a volume's table of contents.
/// Recording content — with whatever flag movement it drives — leaves
/// every volume's (title, locator) sequence exactly as it was, so the
/// order of the generated output is independent of fetch order.
pub proof fn lemma_record_preserves_toc(c: CatalogView, id: int, text: Seq<char>, vid: int)
    requires
        c.wf(),
        c.has_chapter_id(id),
    ensures
        toc_of(record_content_m(c, id, text).chapters, vid) == toc_of(c.chapters, vid),
{
    let k = c.chapter_index_of(id);
    c.lemma_chapter_index_unique(id, k);
    c.lemma_write_content_facts(id, text);
    let cw = c.write_content(id, text);
    lemma_toc_of_update(
        c.chapters,
        k,
        ChapterView { content: Some(text), ..c.chapters[k] },
        vid,
    );
    if c.content_changed(id, text) {
        cw.lemma_set_chapter_dirty_facts(id, true);
        let k2 = cw.chapter_index_of(id);
        lemma_toc_of_update(cw.chapters, k2, ChapterView { dirty: true, ..cw.chapters[k2] }, vid);
    }
}

} // verus!
