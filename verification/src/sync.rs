//! Index synchronizer.
//!
//! Brings the catalog's set of volumes and chapters into agreement
//! with a freshly fetched table-of-contents listing, without touching
//! existing dirty or content state.  For each listed volume the store
//! upserts the volume, then upserts its chapters in listing order; no
//! chapter is ever removed here.  Running the synchronizer twice with
//! an unchanged listing leaves the catalog exactly as one run does —
//! the idempotence law proved at the end of this module.

use vstd::prelude::*;

use crate::catalog::CatalogView;
use crate::catalog::ChapterView;
use crate::store::Store;

verus! {

/// One chapter entry of the listing: display title and source locator.
pub struct ChapterListing {
    pub title: String,
    pub uri: String,
}

/// Model of one chapter entry.
#[verifier::ext_equal]
pub struct ChapterListingView {
    pub title: Seq<char>,
    pub uri: Seq<char>,
}

impl View for ChapterListing {
    type V = ChapterListingView;

    open spec fn view(&self) -> ChapterListingView {
        ChapterListingView { title: self.title@, uri: self.uri@ }
    }
}

/// One volume entry of the listing: display title and its chapters in
/// source order.
pub struct VolumeListing {
    pub title: String,
    pub chapters: Vec<ChapterListing>,
}

/// Model of one volume entry.
#[verifier::ext_equal]
pub struct VolumeListingView {
    pub title: Seq<char>,
    pub chapters: Seq<ChapterListingView>,
}

impl View for VolumeListing {
    type V = VolumeListingView;

    open spec fn view(&self) -> VolumeListingView {
        VolumeListingView {
            title: self.title@,
            chapters: self.chapters@.map_values(|c: ChapterListing| c@),
        }
    }
}

/// The model of a whole listing.
pub open spec fn listing_view(l: Seq<VolumeListing>) -> Seq<VolumeListingView> {
    l.map_values(|v: VolumeListing| v@)
}

/// Catalog after upserting, in order, the chapters of one volume.
pub open spec fn sync_chapters_m(
    c: CatalogView,
    vid: int,
    chs: Seq<ChapterListingView>,
) -> CatalogView
    decreases chs.len(),
{
    if chs.len() == 0 {
        c
    } else {
        sync_chapters_m(c.upsert_chapter(chs[0].title, chs[0].uri, vid), vid, chs.drop_first())
    }
}

/// Catalog after reconciling one listed volume: the volume itself,
/// then its chapters in listing order.
pub open spec fn sync_volume_m(c: CatalogView, v: VolumeListingView) -> CatalogView {
    sync_chapters_m(c.upsert_volume(v.title), c.upsert_volume_id(v.title), v.chapters)
}

/// Catalog after reconciling a whole listing, volume by volume in
/// listing order.
pub open spec fn sync_m(c: CatalogView, l: Seq<VolumeListingView>) -> CatalogView
    decreases l.len(),
{
    if l.len() == 0 {
        c
    } else {
        sync_m(sync_volume_m(c, l[0]), l.drop_first())
    }
}

/// How many chapter entries the listing holds in total.
pub open spec fn listing_chapter_count(l: Seq<VolumeListingView>) -> int
    decreases l.len(),
{
    if l.len() <= 0 {
        0
    } else {
        l[0].chapters.len() + listing_chapter_count(l.drop_first())
    }
}

proof fn lemma_listing_chapter_count_nonneg(l: Seq<VolumeListingView>)
    ensures
        listing_chapter_count(l) >= 0,
    decreases l.len(),
{
    if l.len() > 0 {
        lemma_listing_chapter_count_nonneg(l.drop_first());
    }
}

/// Reconcile the store against one listed volume: upsert the volume,
/// then its chapters in listing order.
fn sync_volume(store: &mut Store, vol: &VolumeListing)
    requires
        old(store)@.wf(),
        old(store)@.next_chapter_id + vol@.chapters.len() <= usize::MAX,
    ensures
        final(store)@ == sync_volume_m(old(store)@, vol@),
        final(store)@.wf(),
        final(store)@.next_chapter_id <= old(store)@.next_chapter_id + vol@.chapters.len(),
{
    let ghost c0 = store@;
    let vid = store.upsert_volume(vol.title.clone());
    proof {
        c0.lemma_upsert_volume_facts(vol.title@);
        assert(vol@.chapters.skip(0) =~= vol@.chapters);
    }
    let n = vol.chapters.len();
    let mut i: usize = 0;
    while i < n
        invariant
            store@.wf(),
            n == vol@.chapters.len(),
            i <= n,
            store@.has_volume_id(vid as int),
            store@.next_chapter_id <= c0.next_chapter_id + i,
            c0.next_chapter_id + n <= usize::MAX,
            sync_volume_m(c0, vol@) == sync_chapters_m(store@, vid as int, vol@.chapters.skip(i as int)),
        decreases n - i,
    {
        let ghost pre = store@;
        let entry = &vol.chapters[i];
        proof {
            assert(vol@.chapters[i as int] == entry@);
            assert(vol@.chapters.skip(i as int)[0] == vol@.chapters[i as int]);
            assert(vol@.chapters.skip(i as int).drop_first() =~= vol@.chapters.skip(i as int + 1));
        }
        store.upsert_chapter(entry.title.clone(), entry.uri.clone(), vid);
        proof {
            pre.lemma_upsert_chapter_facts(entry.title@, entry.uri@, vid as int);
            assert(sync_chapters_m(pre, vid as int, vol@.chapters.skip(i as int))
                == sync_chapters_m(store@, vid as int, vol@.chapters.skip(i as int + 1)));
        }
        i += 1;
    }
    proof {
        assert(vol@.chapters.skip(n as int) =~= Seq::<ChapterListingView>::empty());
    }
}

/// Reconcile the whole catalog against a freshly fetched listing.
/// Existing rows — their dirty flags and content included — are never
/// touched; new volumes and chapters are appended in listing order.
pub fn sync(store: &mut Store, listing: &Vec<VolumeListing>)
    requires
        old(store)@.wf(),
        old(store)@.next_chapter_id + listing_chapter_count(listing_view(listing@))
            <= usize::MAX,
    ensures
        final(store)@ == sync_m(old(store)@, listing_view(listing@)),
        final(store)@.wf(),
{
    let ghost c0 = store@;
    let ghost lv = listing_view(listing@);
    let n = listing.len();
    let mut i: usize = 0;
    proof {
        lemma_listing_chapter_count_nonneg(lv);
        assert(lv.skip(0) =~= lv);
    }
    while i < n
        invariant
            store@.wf(),
            n == listing@.len(),
            i <= n,
            lv == listing_view(listing@),
            store@.next_chapter_id + listing_chapter_count(lv.skip(i as int)) <= usize::MAX,
            sync_m(c0, lv) == sync_m(store@, lv.skip(i as int)),
        decreases n - i,
    {
        let ghost pre = store@;
        let vol = &listing[i];
        proof {
            assert(lv[i as int] == vol@);
            assert(lv.skip(i as int)[0] == lv[i as int]);
            assert(lv.skip(i as int).drop_first() =~= lv.skip(i as int + 1));
            lemma_listing_chapter_count_nonneg(lv.skip(i as int + 1));
        }
        sync_volume(store, vol);
        proof {
            assert(sync_m(pre, lv.skip(i as int)) == sync_m(store@, lv.skip(i as int + 1)));
        }
        i += 1;
    }
    proof {
        assert(lv.skip(n as int) =~= Seq::<VolumeListingView>::empty());
    }
}

/// One catalog extends another when every existing row is kept
/// unchanged at its position and new rows are only appended after
/// them.  This is how the synchronizer leaves prior dirty flags,
/// content and ordering untouched.
pub open spec fn catalog_extends(base: CatalogView, ext: CatalogView) -> bool {
    &&& base.volumes.len() <= ext.volumes.len()
    &&& forall|i: int| 0 <= i < base.volumes.len() ==> #[trigger] ext.volumes[i] == base.volumes[i]
    &&& base.chapters.len() <= ext.chapters.len()
    &&& forall|i: int|
        0 <= i < base.chapters.len() ==> #[trigger] ext.chapters[i] == base.chapters[i]
}

/// A volume entry of the listing is reflected in the catalog: the
/// volume exists, and each listed chapter exists under it.
pub open spec fn volume_synced(c: CatalogView, v: VolumeListingView) -> bool {
    &&& c.has_volume_named(v.title)
    &&& forall|j: int|
        0 <= j < v.chapters.len() ==> c.has_chapter_triple(
            (#[trigger] v.chapters[j]).title,
            v.chapters[j].uri,
            c.volume_id_of(v.title),
        )
}

/// A whole listing is reflected in the catalog.
pub open spec fn listing_synced(c: CatalogView, l: Seq<VolumeListingView>) -> bool {
    forall|i: int| 0 <= i < l.len() ==> volume_synced(c, #[trigger] l[i])
}

proof fn lemma_extends_trans(a: CatalogView, b: CatalogView, c: CatalogView)
    requires
        catalog_extends(a, b),
        catalog_extends(b, c),
    ensures
        catalog_extends(a, c),
{
}

proof fn lemma_sync_chapters_extends_wf(c: CatalogView, vid: int, chs: Seq<ChapterListingView>)
    requires
        c.wf(),
        c.has_volume_id(vid),
    ensures
        sync_chapters_m(c, vid, chs).wf(),
        catalog_extends(c, sync_chapters_m(c, vid, chs)),
        sync_chapters_m(c, vid, chs).volumes == c.volumes,
    decreases chs.len(),
{
    if chs.len() > 0 {
        let c1 = c.upsert_chapter(chs[0].title, chs[0].uri, vid);
        c.lemma_upsert_chapter_facts(chs[0].title, chs[0].uri, vid);
        lemma_sync_chapters_extends_wf(c1, vid, chs.drop_first());
        lemma_extends_trans(c, c1, sync_chapters_m(c1, vid, chs.drop_first()));
    }
}

proof fn lemma_sync_volume_extends_wf(c: CatalogView, v: VolumeListingView)
    requires
        c.wf(),
    ensures
        sync_volume_m(c, v).wf(),
        catalog_extends(c, sync_volume_m(c, v)),
    decreases v.chapters.len(),
{
    let cu = c.upsert_volume(v.title);
    c.lemma_upsert_volume_facts(v.title);
    lemma_sync_chapters_extends_wf(cu, c.upsert_volume_id(v.title), v.chapters);
    lemma_extends_trans(c, cu, sync_volume_m(c, v));
}

proof fn lemma_sync_extends_wf(c: CatalogView, l: Seq<VolumeListingView>)
    requires
        c.wf(),
    ensures
        sync_m(c, l).wf(),
        catalog_extends(c, sync_m(c, l)),
    decreases l.len(),
{
    if l.len() > 0 {
        let c1 = sync_volume_m(c, l[0]);
        lemma_sync_volume_extends_wf(c, l[0]);
        lemma_sync_extends_wf(c1, l.drop_first());
        lemma_extends_trans(c, c1, sync_m(c1, l.drop_first()));
    }
}

proof fn lemma_extends_preserves_volume(base: CatalogView, ext: CatalogView, name: Seq<char>)
    requires
        base.wf(),
        ext.wf(),
        catalog_extends(base, ext),
        base.has_volume_named(name),
    ensures
        ext.has_volume_named(name),
        ext.volume_id_of(name) == base.volume_id_of(name),
{
    let w = base.volume_id_of(name);
    assert(0 <= w < base.volumes.len() && base.volumes[w].name == name);
    assert(ext.volumes[w].name == name);
    assert(ext.has_volume_named(name));
    let w2 = ext.volume_id_of(name);
    if w2 != w {
        assert(ext.volumes[w2].name == ext.volumes[w].name);
    }
}

proof fn lemma_extends_preserves_chapter(
    base: CatalogView,
    ext: CatalogView,
    name: Seq<char>,
    uri: Seq<char>,
    vid: int,
)
    requires
        catalog_extends(base, ext),
        base.has_chapter_triple(name, uri, vid),
    ensures
        ext.has_chapter_triple(name, uri, vid),
{
    let w = base.chapter_triple_index(name, uri, vid);
    assert(crate::catalog::chapter_matches(base.chapters[w], name, uri, vid));
    assert(crate::catalog::chapter_matches(ext.chapters[w], name, uri, vid));
}

proof fn lemma_extends_preserves_volume_synced(
    base: CatalogView,
    ext: CatalogView,
    v: VolumeListingView,
)
    requires
        base.wf(),
        ext.wf(),
        catalog_extends(base, ext),
        volume_synced(base, v),
    ensures
        volume_synced(ext, v),
{
    lemma_extends_preserves_volume(base, ext, v.title);
    assert forall|j: int| 0 <= j < v.chapters.len() implies ext.has_chapter_triple(
        (#[trigger] v.chapters[j]).title,
        v.chapters[j].uri,
        ext.volume_id_of(v.title),
    ) by {
        lemma_extends_preserves_chapter(
            base,
            ext,
            v.chapters[j].title,
            v.chapters[j].uri,
            base.volume_id_of(v.title),
        );
    }
}

proof fn lemma_sync_chapters_achieves(c: CatalogView, vid: int, chs: Seq<ChapterListingView>)
    requires
        c.wf(),
        c.has_volume_id(vid),
    ensures
        forall|j: int|
            0 <= j < chs.len() ==> sync_chapters_m(c, vid, chs).has_chapter_triple(
                (#[trigger] chs[j]).title,
                chs[j].uri,
                vid,
            ),
    decreases chs.len(),
{
    if chs.len() > 0 {
        let c1 = c.upsert_chapter(chs[0].title, chs[0].uri, vid);
        c.lemma_upsert_chapter_facts(chs[0].title, chs[0].uri, vid);
        if !c.has_chapter_triple(chs[0].title, chs[0].uri, vid) {
            assert(crate::catalog::chapter_matches(
                c1.chapters[c1.chapters.len() - 1],
                chs[0].title,
                chs[0].uri,
                vid,
            ));
        }
        assert(c1.has_chapter_triple(chs[0].title, chs[0].uri, vid));
        let r = sync_chapters_m(c1, vid, chs.drop_first());
        lemma_sync_chapters_achieves(c1, vid, chs.drop_first());
        lemma_sync_chapters_extends_wf(c1, vid, chs.drop_first());
        lemma_extends_preserves_chapter(c1, r, chs[0].title, chs[0].uri, vid);
        assert forall|j: int| 0 <= j < chs.len() implies r.has_chapter_triple(
            (#[trigger] chs[j]).title,
            chs[j].uri,
            vid,
        ) by {
            if j > 0 {
                assert(chs.drop_first()[j - 1] == chs[j]);
            }
        }
    }
}

proof fn lemma_sync_volume_achieves(c: CatalogView, v: VolumeListingView)
    requires
        c.wf(),
    ensures
        sync_volume_m(c, v).wf(),
        catalog_extends(c, sync_volume_m(c, v)),
        volume_synced(sync_volume_m(c, v), v),
{
    let cu = c.upsert_volume(v.title);
    let vid = c.upsert_volume_id(v.title);
    c.lemma_upsert_volume_facts(v.title);
    lemma_sync_volume_extends_wf(c, v);
    lemma_sync_chapters_extends_wf(cu, vid, v.chapters);
    lemma_sync_chapters_achieves(cu, vid, v.chapters);
    let r = sync_volume_m(c, v);
    if !c.has_volume_named(v.title) {
        assert(cu.volumes[vid].name == v.title);
        assert(cu.has_volume_named(v.title));
    }
    assert(cu.has_volume_named(v.title));
    if cu.volume_id_of(v.title) != vid {
        assert(cu.volumes[cu.volume_id_of(v.title)].name == cu.volumes[vid].name);
    }
    lemma_extends_preserves_volume(cu, r, v.title);
}

proof fn lemma_sync_achieves(c: CatalogView, l: Seq<VolumeListingView>)
    requires
        c.wf(),
    ensures
        sync_m(c, l).wf(),
        listing_synced(sync_m(c, l), l),
    decreases l.len(),
{
    lemma_sync_extends_wf(c, l);
    if l.len() > 0 {
        let c1 = sync_volume_m(c, l[0]);
        let r = sync_m(c, l);
        lemma_sync_volume_achieves(c, l[0]);
        lemma_sync_achieves(c1, l.drop_first());
        lemma_sync_extends_wf(c1, l.drop_first());
        lemma_extends_preserves_volume_synced(c1, r, l[0]);
        assert forall|i: int| 0 <= i < l.len() implies volume_synced(r, #[trigger] l[i]) by {
            if i > 0 {
                assert(l.drop_first()[i - 1] == l[i]);
            }
        }
    }
}

proof fn lemma_sync_chapters_noop(c: CatalogView, vid: int, chs: Seq<ChapterListingView>)
    requires
        c.wf(),
        forall|j: int|
            0 <= j < chs.len() ==> c.has_chapter_triple(
                (#[trigger] chs[j]).title,
                chs[j].uri,
                vid,
            ),
    ensures
        sync_chapters_m(c, vid, chs) == c,
    decreases chs.len(),
{
    if chs.len() > 0 {
        assert(c.has_chapter_triple(chs[0].title, chs[0].uri, vid));
        assert(c.upsert_chapter(chs[0].title, chs[0].uri, vid) == c);
        assert forall|j: int| 0 <= j < chs.drop_first().len() implies c.has_chapter_triple(
            (#[trigger] chs.drop_first()[j]).title,
            chs.drop_first()[j].uri,
            vid,
        ) by {
            assert(chs.drop_first()[j] == chs[j + 1]);
        }
        lemma_sync_chapters_noop(c, vid, chs.drop_first());
    }
}

proof fn lemma_sync_volume_noop(c: CatalogView, v: VolumeListingView)
    requires
        c.wf(),
        volume_synced(c, v),
    ensures
        sync_volume_m(c, v) == c,
{
    assert(c.upsert_volume(v.title) == c);
    lemma_sync_chapters_noop(c, c.volume_id_of(v.title), v.chapters);
}

proof fn lemma_sync_noop(c: CatalogView, l: Seq<VolumeListingView>)
    requires
        c.wf(),
        listing_synced(c, l),
    ensures
        sync_m(c, l) == c,
    decreases l.len(),
{
    if l.len() > 0 {
        assert(volume_synced(c, l[0]));
        lemma_sync_volume_noop(c, l[0]);
        assert forall|i: int| 0 <= i < l.drop_first().len() implies volume_synced(
            c,
            #[trigger] l.drop_first()[i],
        ) by {
            assert(l.drop_first()[i] == l[i + 1]);
        }
        lemma_sync_noop(c, l.drop_first());
    }
}

/// Law: synchronizing a catalog against the same listing twice yields
/// exactly the catalog that one synchronization yields.  A re-run with
/// an unchanged listing performs nothing beyond idempotent upserts: no
/// flag changes, no duplicate rows, no reordering.
pub proof fn lemma_sync_idempotent(c: CatalogView, l: Seq<VolumeListingView>)
    requires
        c.wf(),
    ensures
        sync_m(sync_m(c, l), l) == sync_m(c, l),
{
    lemma_sync_achieves(c, l);
    lemma_sync_noop(sync_m(c, l), l);
}

/// Law: synchronization never touches rows that already exist.  Every
/// prior volume and chapter row — dirty flag, content reference and
/// position included — stands unchanged in the synchronized catalog,
/// and new rows are only appended after them.
pub proof fn lemma_sync_preserves_existing_rows(c: CatalogView, l: Seq<VolumeListingView>)
    requires
        c.wf(),
    ensures
        catalog_extends(c, sync_m(c, l)),
        sync_m(c, l).wf(),
{
    lemma_sync_extends_wf(c, l);
}

/// The (title, locator) sequence of one volume's chapters, in the
/// order the catalog keeps them — the table of contents that the
/// generated output follows.
pub open spec fn toc_of(s: Seq<ChapterView>, vid: int) -> Seq<ChapterListingView>
    decreases s.len(),
{
    if s.len() == 0 {
        Seq::empty()
    } else {
        let rest = toc_of(s.drop_last(), vid);
        if s.last().volumeid == vid {
            rest.push(ChapterListingView { title: s.last().name, uri: s.last().uri })
        } else {
            rest
        }
    }
}

/// `toc_of` is the (title, locator) projection of the volume's
/// chapters as the store lists them.
pub proof fn lemma_toc_of_is_projection(s: Seq<ChapterView>, vid: int)
    ensures
        toc_of(s, vid) == s.filter(|ch: ChapterView| ch.volumeid == vid).map_values(
            |ch: ChapterView| ChapterListingView { title: ch.name, uri: ch.uri },
        ),
    decreases s.len(),
{
    reveal(Seq::filter);
    let pred = |ch: ChapterView| ch.volumeid == vid;
    let proj = |ch: ChapterView| ChapterListingView { title: ch.name, uri: ch.uri };
    if s.len() == 0 {
        assert(s.filter(pred).map_values(proj) =~= Seq::<ChapterListingView>::empty());
    } else {
        lemma_toc_of_is_projection(s.drop_last(), vid);
        if pred(s.last()) {
            crate::catalog::lemma_map_values_push(s.drop_last().filter(pred), s.last(), proj);
        }
    }
}

proof fn lemma_toc_of_push(s: Seq<ChapterView>, x: ChapterView, vid: int)
    ensures
        toc_of(s.push(x), vid) == (if x.volumeid == vid {
            toc_of(s, vid).push(ChapterListingView { title: x.name, uri: x.uri })
        } else {
            toc_of(s, vid)
        }),
{
    assert(s.push(x).drop_last() =~= s);
    assert(s.push(x).last() == x);
}

pub(crate) proof fn lemma_toc_of_update(s: Seq<ChapterView>, k: int, x: ChapterView, vid: int)
    requires
        0 <= k < s.len(),
        x.name == s[k].name,
        x.uri == s[k].uri,
        x.volumeid == s[k].volumeid,
    ensures
        toc_of(s.update(k, x), vid) == toc_of(s, vid),
    decreases s.len(),
{
    let s2 = s.update(k, x);
    if k == s.len() - 1 {
        assert(s2.drop_last() =~= s.drop_last());
        assert(s2.last() == x);
    } else {
        assert(s2.drop_last() =~= s.drop_last().update(k, x));
        lemma_toc_of_update(s.drop_last(), k, x, vid);
        assert(s2.last() == s.last());
    }
}

proof fn lemma_toc_of_absent(s: Seq<ChapterView>, vid: int)
    requires
        forall|i: int| 0 <= i < s.len() ==> (#[trigger] s[i]).volumeid != vid,
    ensures
        toc_of(s, vid) == Seq::<ChapterListingView>::empty(),
    decreases s.len(),
{
    if s.len() > 0 {
        assert(forall|i: int|
            0 <= i < s.drop_last().len() ==> (#[trigger] s.drop_last()[i]).volumeid != vid);
        lemma_toc_of_absent(s.drop_last(), vid);
        assert(s.last().volumeid != vid);
    }
}

/// No two chapter entries of a volume listing share (title, locator).
pub open spec fn volume_listing_distinct(v: VolumeListingView) -> bool {
    forall|i: int, j: int|
        0 <= i < j < v.chapters.len() ==> !((#[trigger] v.chapters[i]).title == (
        #[trigger] v.chapters[j]).title && v.chapters[i].uri == v.chapters[j].uri)
}

/// All volume titles of a listing are distinct.
pub open spec fn listing_titles_distinct(l: Seq<VolumeListingView>) -> bool {
    forall|i: int, j: int|
        0 <= i < j < l.len() ==> (#[trigger] l[i]).title != (#[trigger] l[j]).title
}

proof fn lemma_sync_chapters_order(c: CatalogView, vid: int, chs: Seq<ChapterListingView>)
    requires
        c.wf(),
        c.has_volume_id(vid),
        forall|j: int|
            0 <= j < chs.len() ==> !c.has_chapter_triple(
                (#[trigger] chs[j]).title,
                chs[j].uri,
                vid,
            ),
        forall|i: int, j: int|
            0 <= i < j < chs.len() ==> !((#[trigger] chs[i]).title == (#[trigger] chs[j]).title
                && chs[i].uri == chs[j].uri),
    ensures
        toc_of(sync_chapters_m(c, vid, chs).chapters, vid) == toc_of(c.chapters, vid) + chs,
    decreases chs.len(),
{
    if chs.len() == 0 {
        assert(toc_of(c.chapters, vid) + chs =~= toc_of(c.chapters, vid));
    } else {
        assert(!c.has_chapter_triple(chs[0].title, chs[0].uri, vid));
        let c1 = c.upsert_chapter(chs[0].title, chs[0].uri, vid);
        let row = ChapterView {
            id: c.next_chapter_id,
            name: chs[0].title,
            uri: chs[0].uri,
            volumeid: vid,
            content: None,
            dirty: false,
        };
        assert(c1.chapters == c.chapters.push(row));
        c.lemma_upsert_chapter_facts(chs[0].title, chs[0].uri, vid);
        lemma_toc_of_push(c.chapters, row, vid);
        assert(ChapterListingView { title: row.name, uri: row.uri } =~= chs[0]);
        assert(toc_of(c1.chapters, vid) == toc_of(c.chapters, vid).push(chs[0]));
        assert forall|j: int|
            0 <= j < chs.drop_first().len() implies !c1.has_chapter_triple(
            (#[trigger] chs.drop_first()[j]).title,
            chs.drop_first()[j].uri,
            vid,
        ) by {
            assert(chs.drop_first()[j] == chs[j + 1]);
            if c1.has_chapter_triple(chs[j + 1].title, chs[j + 1].uri, vid) {
                let w = c1.chapter_triple_index(chs[j + 1].title, chs[j + 1].uri, vid);
                if w < c.chapters.len() {
                    assert(crate::catalog::chapter_matches(
                        c.chapters[w],
                        chs[j + 1].title,
                        chs[j + 1].uri,
                        vid,
                    ));
                } else {
                    assert(c1.chapters[w] == row);
                }
            }
        }
        assert forall|i: int, j: int|
            0 <= i < j < chs.drop_first().len() implies !((#[trigger] chs.drop_first()[i]).title
                == (#[trigger] chs.drop_first()[j]).title && chs.drop_first()[i].uri
                == chs.drop_first()[j].uri) by {
            assert(chs.drop_first()[i] == chs[i + 1]);
            assert(chs.drop_first()[j] == chs[j + 1]);
        }
        lemma_sync_chapters_order(c1, vid, chs.drop_first());
        assert(toc_of(c.chapters, vid).push(chs[0]) + chs.drop_first() =~= toc_of(
            c.chapters,
            vid,
        ) + chs);
    }
}

proof fn lemma_sync_volume_order(c: CatalogView, v: VolumeListingView)
    requires
        c.wf(),
        !c.has_volume_named(v.title),
        volume_listing_distinct(v),
    ensures
        ({
            let r = sync_volume_m(c, v);
            let vid = c.volumes.len() as int;
            &&& r.wf()
            &&& r.has_volume_named(v.title)
            &&& r.volume_id_of(v.title) == vid
            &&& toc_of(r.chapters, vid) == v.chapters
        }),
{
    let cu = c.upsert_volume(v.title);
    let vid = c.volumes.len() as int;
    let r = sync_volume_m(c, v);
    c.lemma_upsert_volume_facts(v.title);
    assert(cu.volumes[vid].name == v.title);
    assert(cu.has_volume_named(v.title));
    if cu.volume_id_of(v.title) != vid {
        assert(cu.volumes[cu.volume_id_of(v.title)].name == cu.volumes[vid].name);
    }
    assert(forall|i: int| 0 <= i < cu.chapters.len() ==> (#[trigger] cu.chapters[i]).volumeid
        != vid);
    lemma_toc_of_absent(cu.chapters, vid);
    assert forall|j: int|
        0 <= j < v.chapters.len() implies !cu.has_chapter_triple(
        (#[trigger] v.chapters[j]).title,
        v.chapters[j].uri,
        vid,
    ) by {
        if cu.has_chapter_triple(v.chapters[j].title, v.chapters[j].uri, vid) {
            let w = cu.chapter_triple_index(v.chapters[j].title, v.chapters[j].uri, vid);
            assert(cu.chapters[w].volumeid == vid);
        }
    }
    lemma_sync_chapters_order(cu, vid, v.chapters);
    assert(toc_of(r.chapters, vid) =~= v.chapters);
    lemma_sync_chapters_extends_wf(cu, vid, v.chapters);
    lemma_extends_preserves_volume(cu, r, v.title);
}

proof fn lemma_sync_chapters_preserves_toc(
    c: CatalogView,
    vid2: int,
    chs: Seq<ChapterListingView>,
    vid: int,
)
    requires
        c.wf(),
        c.has_volume_id(vid2),
        vid2 != vid,
    ensures
        toc_of(sync_chapters_m(c, vid2, chs).chapters, vid) == toc_of(c.chapters, vid),
    decreases chs.len(),
{
    if chs.len() > 0 {
        let c1 = c.upsert_chapter(chs[0].title, chs[0].uri, vid2);
        c.lemma_upsert_chapter_facts(chs[0].title, chs[0].uri, vid2);
        if !c.has_chapter_triple(chs[0].title, chs[0].uri, vid2) {
            let row = ChapterView {
                id: c.next_chapter_id,
                name: chs[0].title,
                uri: chs[0].uri,
                volumeid: vid2,
                content: None,
                dirty: false,
            };
            assert(c1.chapters == c.chapters.push(row));
            lemma_toc_of_push(c.chapters, row, vid);
        }
        lemma_sync_chapters_preserves_toc(c1, vid2, chs.drop_first(), vid);
    }
}

proof fn lemma_sync_preserves_toc(c: CatalogView, l: Seq<VolumeListingView>, vid: int)
    requires
        c.wf(),
        c.has_volume_id(vid),
        forall|i: int| 0 <= i < l.len() ==> (#[trigger] l[i]).title != c.volumes[vid].name,
    ensures
        toc_of(sync_m(c, l).chapters, vid) == toc_of(c.chapters, vid),
    decreases l.len(),
{
    if l.len() > 0 {
        let cu = c.upsert_volume(l[0].title);
        let vid0 = c.upsert_volume_id(l[0].title);
        let c1 = sync_volume_m(c, l[0]);
        c.lemma_upsert_volume_facts(l[0].title);
        assert(l[0].title != c.volumes[vid].name);
        if c.has_volume_named(l[0].title) {
            assert(cu == c);
            assert(c.volumes[vid0].name == l[0].title);
            assert(vid0 != vid);
        } else {
            assert(vid0 == c.volumes.len());
            assert(vid0 != vid);
            assert(toc_of(cu.chapters, vid) == toc_of(c.chapters, vid));
        }
        lemma_sync_chapters_preserves_toc(cu, vid0, l[0].chapters, vid);
        lemma_sync_chapters_extends_wf(cu, vid0, l[0].chapters);
        assert(c1.volumes[vid].name == c.volumes[vid].name);
        assert forall|i: int|
            0 <= i < l.drop_first().len() implies (#[trigger] l.drop_first()[i]).title
            != c1.volumes[vid].name by {
            assert(l.drop_first()[i] == l[i + 1]);
        }
        lemma_sync_preserves_toc(c1, l.drop_first(), vid);
    }
}

/// Law: synchronizing new chapter entries of a volume already in the
/// catalog appends them after the volume's present chapters, in
/// listing order — a grown listing never reorders what stands.
pub proof fn lemma_sync_volume_appends(c: CatalogView, v: VolumeListingView)
    requires
        c.wf(),
        c.has_volume_named(v.title),
        volume_listing_distinct(v),
        forall|j: int|
            0 <= j < v.chapters.len() ==> !c.has_chapter_triple(
                (#[trigger] v.chapters[j]).title,
                v.chapters[j].uri,
                c.volume_id_of(v.title),
            ),
    ensures
        toc_of(sync_volume_m(c, v).chapters, c.volume_id_of(v.title)) == toc_of(
            c.chapters,
            c.volume_id_of(v.title),
        ) + v.chapters,
{
    let vid = c.volume_id_of(v.title);
    assert(0 <= vid < c.volumes.len());
    lemma_sync_chapters_order(c, vid, v.chapters);
}

/// Law: chapter order within a volume equals the order in which the
/// source table of contents listed the chapters.  Synchronizing a
/// listing of volumes not yet in the catalog gives each volume
/// exactly its listed (title, locator) sequence, in listing order.
pub proof fn lemma_sync_order(c: CatalogView, l: Seq<VolumeListingView>, i: int)
    requires
        c.wf(),
        listing_titles_distinct(l),
        forall|j: int| 0 <= j < l.len() ==> volume_listing_distinct(#[trigger] l[j]),
        forall|j: int| 0 <= j < l.len() ==> !c.has_volume_named((#[trigger] l[j]).title),
        0 <= i < l.len(),
    ensures
        sync_m(c, l).has_volume_named(l[i].title),
        toc_of(sync_m(c, l).chapters, sync_m(c, l).volume_id_of(l[i].title)) == l[i].chapters,
    decreases l.len(),
{
    let c1 = sync_volume_m(c, l[0]);
    let r = sync_m(c, l);
    let vid0 = c.volumes.len() as int;
    lemma_sync_volume_order(c, l[0]);
    lemma_sync_volume_extends_wf(c, l[0]);
    lemma_sync_extends_wf(c1, l.drop_first());
    assert(r == sync_m(c1, l.drop_first()));
    if i == 0 {
        assert forall|j: int|
            0 <= j < l.drop_first().len() implies (#[trigger] l.drop_first()[j]).title
            != c1.volumes[vid0].name by {
            assert(l.drop_first()[j] == l[j + 1]);
        }
        lemma_sync_preserves_toc(c1, l.drop_first(), vid0);
        lemma_extends_preserves_volume(c1, r, l[0].title);
    } else {
        let cu = c.upsert_volume(l[0].title);
        c.lemma_upsert_volume_facts(l[0].title);
        lemma_sync_chapters_extends_wf(cu, vid0, l[0].chapters);
        assert(c1.volumes == cu.volumes);
        assert forall|j: int|
            0 <= j < l.drop_first().len() implies !c1.has_volume_named(
            (#[trigger] l.drop_first()[j]).title,
        ) by {
            assert(l.drop_first()[j] == l[j + 1]);
            if c1.has_volume_named(l[j + 1].title) {
                let w = c1.volume_id_of(l[j + 1].title);
                if w < c.volumes.len() {
                    assert(c.volumes[w].name == l[j + 1].title);
                } else {
                    assert(c1.volumes[w].name == l[0].title);
                }
            }
        }
        assert forall|a: int, b: int|
            0 <= a < b < l.drop_first().len() implies (#[trigger] l.drop_first()[a]).title != (
        #[trigger] l.drop_first()[b]).title by {
            assert(l.drop_first()[a] == l[a + 1]);
            assert(l.drop_first()[b] == l[b + 1]);
        }
        assert forall|j: int|
            0 <= j < l.drop_first().len() implies volume_listing_distinct(
            #[trigger] l.drop_first()[j],
        ) by {
            assert(l.drop_first()[j] == l[j + 1]);
        }
        assert(l.drop_first()[i - 1] == l[i]);
        lemma_sync_order(c1, l.drop_first(), i - 1);
    }
}

} // verus!
