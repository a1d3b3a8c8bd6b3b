//! Mathematical model of the catalog.
//!
//! A catalog holds volumes and chapters, each with a dirty flag that
//! marks a stale generated artifact, and at most one stored content
//! text per chapter.  Every operation of the executable store is
//! specified as a function on this model, so that the pipeline laws
//! (idempotent synchronization, change detection, resumability, stable
//! chapter order) can be stated and proved over plain sequences.

use vstd::prelude::*;

verus! {

/// Model of one volume row: stable identity, unique display name, and
/// the flag that marks its artifact as awaiting regeneration.
#[verifier::ext_equal]
pub struct VolumeView {
    pub id: int,
    pub name: Seq<char>,
    pub dirty: bool,
}

/// Model of one chapter row: stable identity, display name, source
/// locator, owning volume, optional stored content, and the flag that
/// marks its artifact as awaiting regeneration.
#[verifier::ext_equal]
pub struct ChapterView {
    pub id: int,
    pub name: Seq<char>,
    pub uri: Seq<char>,
    pub volumeid: int,
    pub content: Option<Seq<char>>,
    pub dirty: bool,
}

/// Model of the whole catalog.  Chapters appear in insertion order,
/// which is the order observed in the source table of contents.
#[verifier::ext_equal]
pub struct CatalogView {
    pub volumes: Seq<VolumeView>,
    pub chapters: Seq<ChapterView>,
    pub next_chapter_id: int,
}

/// Extending a filtered prefix by one element: the element joins the
/// filtered sequence exactly when it satisfies the predicate.
pub proof fn lemma_filter_step<A>(s: Seq<A>, i: int, pred: spec_fn(A) -> bool)
    requires
        0 <= i < s.len(),
    ensures
        s.subrange(0, i + 1).filter(pred) == (if pred(s[i]) {
            s.subrange(0, i).filter(pred).push(s[i])
        } else {
            s.subrange(0, i).filter(pred)
        }),
{
    let pre = s.subrange(0, i);
    let sing = seq![s[i]];
    assert(s.subrange(0, i + 1) =~= pre + sing);
    Seq::<A>::filter_distributes_over_add(pre, sing, pred);
    reveal_with_fuel(Seq::filter, 2);
    assert(sing.drop_last() =~= Seq::<A>::empty());
    if pred(s[i]) {
        assert(pre.filter(pred) + sing.filter(pred) =~= pre.filter(pred).push(s[i]));
    } else {
        assert(pre.filter(pred) + sing.filter(pred) =~= pre.filter(pred));
    }
}

/// Mapping a function over a sequence commutes with appending one
/// element.
pub proof fn lemma_map_values_push<A, B>(s: Seq<A>, x: A, f: spec_fn(A) -> B)
    ensures
        s.push(x).map_values(f) == s.map_values(f).push(f(x)),
{
    assert(s.push(x).map_values(f) =~= s.map_values(f).push(f(x)));
}

/// The two catalogs agree on the chapter row with this id: present in
/// one exactly when present in the other, and equal where present.
pub open spec fn chapter_row_unchanged(c1: CatalogView, c2: CatalogView, id: int) -> bool {
    &&& c1.has_chapter_id(id) == c2.has_chapter_id(id)
    &&& (c1.has_chapter_id(id) ==> c1.chapter_rec(id) == c2.chapter_rec(id))
}

/// True when the chapter row carries exactly this identifying triple.
pub open spec fn chapter_matches(ch: ChapterView, name: Seq<char>, uri: Seq<char>, vid: int) -> bool {
    ch.name == name && ch.uri == uri && ch.volumeid == vid
}

impl CatalogView {
    /// The catalog of a fresh store: no volumes, no chapters.
    pub open spec fn empty() -> CatalogView {
        CatalogView { volumes: Seq::empty(), chapters: Seq::empty(), next_chapter_id: 0 }
    }

    /// Well-formedness: volume ids equal their position and names are
    /// unique; chapter ids strictly increase along insertion order and
    /// stay below the id counter; every chapter belongs to an existing
    /// volume; no two chapters share an identifying triple.
    pub open spec fn wf(self) -> bool {
        &&& forall|i: int| 0 <= i < self.volumes.len() ==> (#[trigger] self.volumes[i]).id == i
        &&& forall|i: int, j: int|
            0 <= i < j < self.volumes.len() ==> (#[trigger] self.volumes[i]).name != (
            #[trigger] self.volumes[j]).name
        &&& forall|i: int, j: int|
            0 <= i < j < self.chapters.len() ==> (#[trigger] self.chapters[i]).id < (
            #[trigger] self.chapters[j]).id
        &&& forall|i: int| 0 <= i < self.chapters.len() ==> (#[trigger] self.chapters[i]).id
            < self.next_chapter_id
        &&& forall|i: int|
            0 <= i < self.chapters.len() ==> 0 <= (#[trigger] self.chapters[i]).volumeid
                < self.volumes.len()
        &&& forall|i: int, j: int|
            0 <= i < j < self.chapters.len() ==> !chapter_matches(
                #[trigger] self.chapters[i],
                (#[trigger] self.chapters[j]).name,
                self.chapters[j].uri,
                self.chapters[j].volumeid,
            )
        &&& 0 <= self.next_chapter_id
    }

    /// Whether some volume carries this name.
    pub open spec fn has_volume_named(self, name: Seq<char>) -> bool {
        exists|i: int| 0 <= i < self.volumes.len() && (#[trigger] self.volumes[i]).name == name
    }

    /// The id of the volume carrying this name (unique under `wf`).
    pub open spec fn volume_id_of(self, name: Seq<char>) -> int {
        choose|i: int| 0 <= i < self.volumes.len() && (#[trigger] self.volumes[i]).name == name
    }

    /// Whether a volume with this id exists.
    pub open spec fn has_volume_id(self, vid: int) -> bool {
        0 <= vid < self.volumes.len()
    }

    /// Whether some chapter carries this identifying triple.
    pub open spec fn has_chapter_triple(self, name: Seq<char>, uri: Seq<char>, vid: int) -> bool {
        exists|i: int|
            0 <= i < self.chapters.len() && chapter_matches(#[trigger] self.chapters[i], name, uri, vid)
    }

    /// Position of the chapter carrying this triple (unique under `wf`).
    pub open spec fn chapter_triple_index(self, name: Seq<char>, uri: Seq<char>, vid: int) -> int {
        choose|i: int|
            0 <= i < self.chapters.len() && chapter_matches(#[trigger] self.chapters[i], name, uri, vid)
    }

    /// Whether some chapter carries this id.
    pub open spec fn has_chapter_id(self, id: int) -> bool {
        exists|i: int| 0 <= i < self.chapters.len() && (#[trigger] self.chapters[i]).id == id
    }

    /// Position of the chapter carrying this id (unique under `wf`).
    pub open spec fn chapter_index_of(self, id: int) -> int {
        choose|i: int| 0 <= i < self.chapters.len() && (#[trigger] self.chapters[i]).id == id
    }

    /// The chapter row carrying this id.
    pub open spec fn chapter_rec(self, id: int) -> ChapterView {
        self.chapters[self.chapter_index_of(id)]
    }

    /// The stored content of the chapter with this id, if any.
    pub open spec fn content_of(self, id: int) -> Option<Seq<char>> {
        self.chapter_rec(id).content
    }

    /// Insert a volume with this name unless one exists; an existing
    /// volume is left untouched, its dirty flag included.
    pub open spec fn upsert_volume(self, name: Seq<char>) -> CatalogView {
        if self.has_volume_named(name) {
            self
        } else {
            CatalogView {
                volumes: self.volumes.push(
                    VolumeView { id: self.volumes.len() as int, name, dirty: false },
                ),
                ..self
            }
        }
    }

    /// The id that `upsert_volume` reports: the existing id, or the
    /// position the new volume is pushed to.
    pub open spec fn upsert_volume_id(self, name: Seq<char>) -> int {
        if self.has_volume_named(name) {
            self.volume_id_of(name)
        } else {
            self.volumes.len() as int
        }
    }

    /// Insert a chapter with this triple unless one exists; a new
    /// chapter starts with no content and dirty unset, and is appended
    /// after all chapters seen so far.
    pub open spec fn upsert_chapter(self, name: Seq<char>, uri: Seq<char>, vid: int) -> CatalogView {
        if self.has_chapter_triple(name, uri, vid) {
            self
        } else {
            CatalogView {
                chapters: self.chapters.push(
                    ChapterView {
                        id: self.next_chapter_id,
                        name,
                        uri,
                        volumeid: vid,
                        content: None,
                        dirty: false,
                    },
                ),
                next_chapter_id: self.next_chapter_id + 1,
                ..self
            }
        }
    }

    /// The id that `upsert_chapter` reports: the existing chapter's id,
    /// or the id a new chapter is created with.
    pub open spec fn upsert_chapter_id(self, name: Seq<char>, uri: Seq<char>, vid: int) -> int {
        if self.has_chapter_triple(name, uri, vid) {
            self.chapters[self.chapter_triple_index(name, uri, vid)].id
        } else {
            self.next_chapter_id
        }
    }

    /// Whether storing this text for this chapter is a change: true
    /// exactly when the prior state, absent content included, differs
    /// from the text.  Absent content differs from every text, the
    /// empty one included.
    pub open spec fn content_changed(self, id: int, text: Seq<char>) -> bool {
        self.content_of(id) != Some(text)
    }

    /// Replace the chapter's stored content wholesale.  Flags are not
    /// touched: propagation is the caller's step.
    pub open spec fn write_content(self, id: int, text: Seq<char>) -> CatalogView {
        let k = self.chapter_index_of(id);
        CatalogView {
            chapters: self.chapters.update(
                k,
                ChapterView { content: Some(text), ..self.chapters[k] },
            ),
            ..self
        }
    }

    /// Set a volume's dirty flag.
    pub open spec fn set_volume_dirty(self, vid: int, dirty: bool) -> CatalogView {
        CatalogView {
            volumes: self.volumes.update(vid, VolumeView { dirty, ..self.volumes[vid] }),
            ..self
        }
    }

    /// Set a chapter's dirty flag; marking a chapter dirty also marks
    /// its owning volume dirty (propagation is one level, chapter to
    /// volume, never the reverse).
    pub open spec fn set_chapter_dirty(self, id: int, dirty: bool) -> CatalogView {
        let k = self.chapter_index_of(id);
        let c1 = CatalogView {
            chapters: self.chapters.update(k, ChapterView { dirty, ..self.chapters[k] }),
            ..self
        };
        if dirty {
            c1.set_volume_dirty(self.chapters[k].volumeid, true)
        } else {
            c1
        }
    }

    /// Delete a chapter together with its content.
    pub open spec fn remove_chapter(self, id: int) -> CatalogView {
        CatalogView { chapters: self.chapters.remove(self.chapter_index_of(id)), ..self }
    }

    /// The chapters whose content is still unset, in catalog order.
    pub open spec fn missing_content(self) -> Seq<ChapterView> {
        self.chapters.filter(|ch: ChapterView| ch.content is None)
    }

    /// The chapters awaiting regeneration, in catalog order.
    pub open spec fn dirty_chapters(self) -> Seq<ChapterView> {
        self.chapters.filter(|ch: ChapterView| ch.dirty)
    }

    /// The volumes awaiting regeneration, in catalog order.
    pub open spec fn dirty_volumes(self) -> Seq<VolumeView> {
        self.volumes.filter(|v: VolumeView| v.dirty)
    }

    /// The chapters of one volume, in catalog order.
    pub open spec fn chapters_of_volume(self, vid: int) -> Seq<ChapterView> {
        self.chapters.filter(|ch: ChapterView| ch.volumeid == vid)
    }

    /// Upserting a volume preserves well-formedness.
    pub proof fn lemma_upsert_volume_wf(self, name: Seq<char>)
        requires
            self.wf(),
        ensures
            self.upsert_volume(name).wf(),
    {
        if !self.has_volume_named(name) {
            let c2 = self.upsert_volume(name);
            assert forall|i: int, j: int|
                0 <= i < j < c2.volumes.len() implies (#[trigger] c2.volumes[i]).name != (
            #[trigger] c2.volumes[j]).name by {
                if j == c2.volumes.len() - 1 {
                    assert(c2.volumes[i] == self.volumes[i]);
                    assert(self.volumes[i].name != name);
                }
            }
        }
    }

    /// Upserting a chapter of an existing volume preserves
    /// well-formedness.
    pub proof fn lemma_upsert_chapter_wf(self, name: Seq<char>, uri: Seq<char>, vid: int)
        requires
            self.wf(),
            self.has_volume_id(vid),
        ensures
            self.upsert_chapter(name, uri, vid).wf(),
    {
        if !self.has_chapter_triple(name, uri, vid) {
            let c2 = self.upsert_chapter(name, uri, vid);
            assert forall|i: int, j: int|
                0 <= i < j < c2.chapters.len() implies !chapter_matches(
                #[trigger] c2.chapters[i],
                (#[trigger] c2.chapters[j]).name,
                c2.chapters[j].uri,
                c2.chapters[j].volumeid,
            ) by {
                if j == c2.chapters.len() - 1 {
                    assert(c2.chapters[i] == self.chapters[i]);
                    assert(!chapter_matches(self.chapters[i], name, uri, vid));
                }
            }
        }
    }

    /// After `upsert_volume` the reported id names an existing volume,
    /// while chapters and the chapter id counter are untouched.
    pub proof fn lemma_upsert_volume_facts(self, name: Seq<char>)
        requires
            self.wf(),
        ensures
            self.upsert_volume(name).wf(),
            self.upsert_volume(name).has_volume_id(self.upsert_volume_id(name)),
            self.upsert_volume(name).chapters == self.chapters,
            self.upsert_volume(name).next_chapter_id == self.next_chapter_id,
            self.upsert_volume(name).volumes.len() >= self.volumes.len(),
    {
        self.lemma_upsert_volume_wf(name);
    }

    /// After `upsert_chapter` the id counter grows by at most one and
    /// volumes are untouched.
    pub proof fn lemma_upsert_chapter_facts(self, name: Seq<char>, uri: Seq<char>, vid: int)
        requires
            self.wf(),
            self.has_volume_id(vid),
        ensures
            self.upsert_chapter(name, uri, vid).wf(),
            self.upsert_chapter(name, uri, vid).volumes == self.volumes,
            self.next_chapter_id <= self.upsert_chapter(name, uri, vid).next_chapter_id
                <= self.next_chapter_id + 1,
    {
        self.lemma_upsert_chapter_wf(name, uri, vid);
    }

    /// Replacing a chapter's content preserves well-formedness.
    pub proof fn lemma_write_content_wf(self, id: int, text: Seq<char>)
        requires
            self.wf(),
            self.has_chapter_id(id),
        ensures
            self.write_content(id, text).wf(),
    {
        let k = self.chapter_index_of(id);
        assert(0 <= k < self.chapters.len());
    }

    /// Setting a volume's dirty flag preserves well-formedness.
    pub proof fn lemma_set_volume_dirty_wf(self, vid: int, dirty: bool)
        requires
            self.wf(),
            self.has_volume_id(vid),
        ensures
            self.set_volume_dirty(vid, dirty).wf(),
    {
    }

    /// Setting a chapter's dirty flag preserves well-formedness.
    pub proof fn lemma_set_chapter_dirty_wf(self, id: int, dirty: bool)
        requires
            self.wf(),
            self.has_chapter_id(id),
        ensures
            self.set_chapter_dirty(id, dirty).wf(),
    {
        let k = self.chapter_index_of(id);
        assert(0 <= k < self.chapters.len());
    }

    /// Removing a chapter preserves well-formedness.
    pub proof fn lemma_remove_chapter_wf(self, id: int)
        requires
            self.wf(),
            self.has_chapter_id(id),
        ensures
            self.remove_chapter(id).wf(),
    {
        let k = self.chapter_index_of(id);
        assert(0 <= k < self.chapters.len());
    }

    /// Under `wf` a chapter id occurs at exactly one position.
    pub proof fn lemma_chapter_index_unique(self, id: int, j: int)
        requires
            self.wf(),
            0 <= j < self.chapters.len(),
            self.chapters[j].id == id,
        ensures
            self.has_chapter_id(id),
            self.chapter_index_of(id) == j,
    {
        assert(self.has_chapter_id(id));
        let w = self.chapter_index_of(id);
        if w < j {
            assert(self.chapters[w].id < self.chapters[j].id);
        } else if j < w {
            assert(self.chapters[j].id < self.chapters[w].id);
        }
    }

    /// What replacing a chapter's content does, row by row: the
    /// addressed row gets the text, every other row stands unchanged.
    pub proof fn lemma_write_content_facts(self, id: int, text: Seq<char>)
        requires
            self.wf(),
            self.has_chapter_id(id),
        ensures
            ({
                let c2 = self.write_content(id, text);
                &&& c2.wf()
                &&& c2.volumes == self.volumes
                &&& c2.next_chapter_id == self.next_chapter_id
                &&& c2.chapters.len() == self.chapters.len()
                &&& c2.has_chapter_id(id)
                &&& c2.chapter_rec(id) == (ChapterView {
                    content: Some(text),
                    ..self.chapter_rec(id)
                })
                &&& forall|id2: int| id2 != id ==> chapter_row_unchanged(self, c2, id2)
            }),
    {
        self.lemma_write_content_wf(id, text);
        let c2 = self.write_content(id, text);
        let k = self.chapter_index_of(id);
        self.lemma_chapter_index_unique(id, k);
        c2.lemma_chapter_index_unique(id, k);
        assert forall|id2: int| id2 != id implies chapter_row_unchanged(self, c2, id2) by {
            if self.has_chapter_id(id2) {
                let j = self.chapter_index_of(id2);
                self.lemma_chapter_index_unique(id2, j);
                assert(c2.chapters[j] == self.chapters[j]);
                c2.lemma_chapter_index_unique(id2, j);
            }
            if c2.has_chapter_id(id2) {
                let j = c2.chapter_index_of(id2);
                c2.lemma_chapter_index_unique(id2, j);
                assert(self.chapters[j].id == id2);
                self.lemma_chapter_index_unique(id2, j);
            }
        }
    }

    /// What setting a chapter's dirty flag does, row by row: the
    /// addressed chapter gets the flag, every other chapter row stands
    /// unchanged; when the flag is set, the owning volume's flag is
    /// set too, and no other volume row moves.
    pub proof fn lemma_set_chapter_dirty_facts(self, id: int, dirty: bool)
        requires
            self.wf(),
            self.has_chapter_id(id),
        ensures
            ({
                let c2 = self.set_chapter_dirty(id, dirty);
                &&& c2.wf()
                &&& c2.next_chapter_id == self.next_chapter_id
                &&& c2.chapters.len() == self.chapters.len()
                &&& c2.volumes.len() == self.volumes.len()
                &&& c2.has_chapter_id(id)
                &&& c2.chapter_rec(id) == (ChapterView { dirty, ..self.chapter_rec(id) })
                &&& forall|id2: int| id2 != id ==> chapter_row_unchanged(self, c2, id2)
                &&& (dirty ==> c2.volumes == self.volumes.update(
                    self.chapter_rec(id).volumeid,
                    VolumeView {
                        dirty: true,
                        ..self.volumes[self.chapter_rec(id).volumeid]
                    },
                ))
                &&& (!dirty ==> c2.volumes == self.volumes)
            }),
    {
        self.lemma_set_chapter_dirty_wf(id, dirty);
        let c2 = self.set_chapter_dirty(id, dirty);
        let k = self.chapter_index_of(id);
        self.lemma_chapter_index_unique(id, k);
        c2.lemma_chapter_index_unique(id, k);
        assert forall|id2: int| id2 != id implies chapter_row_unchanged(self, c2, id2) by {
            if self.has_chapter_id(id2) {
                let j = self.chapter_index_of(id2);
                self.lemma_chapter_index_unique(id2, j);
                assert(c2.chapters[j] == self.chapters[j]);
                c2.lemma_chapter_index_unique(id2, j);
            }
            if c2.has_chapter_id(id2) {
                let j = c2.chapter_index_of(id2);
                c2.lemma_chapter_index_unique(id2, j);
                assert(self.chapters[j].id == id2);
                self.lemma_chapter_index_unique(id2, j);
            }
        }
    }

    /// What removing a chapter does, row by row: the addressed row is
    /// gone, every other chapter row and every volume row stands
    /// unchanged.
    pub proof fn lemma_remove_chapter_facts(self, id: int)
        requires
            self.wf(),
            self.has_chapter_id(id),
        ensures
            ({
                let c2 = self.remove_chapter(id);
                &&& c2.wf()
                &&& c2.volumes == self.volumes
                &&& c2.next_chapter_id == self.next_chapter_id
                &&& c2.chapters.len() == self.chapters.len() - 1
                &&& !c2.has_chapter_id(id)
                &&& forall|id2: int| id2 != id ==> chapter_row_unchanged(self, c2, id2)
            }),
    {
        self.lemma_remove_chapter_wf(id);
        let c2 = self.remove_chapter(id);
        let k = self.chapter_index_of(id);
        self.lemma_chapter_index_unique(id, k);
        self.chapters.remove_ensures(k);
        if c2.has_chapter_id(id) {
            let j = c2.chapter_index_of(id);
            assert(c2.chapters[j].id == id);
            if j < k {
                assert(c2.chapters[j] == self.chapters[j]);
                self.lemma_chapter_index_unique(id, j);
            } else {
                assert(c2.chapters[j] == self.chapters[j + 1]);
                self.lemma_chapter_index_unique(id, j + 1);
            }
        }
        assert forall|id2: int| id2 != id implies chapter_row_unchanged(self, c2, id2) by {
            if self.has_chapter_id(id2) {
                let j = self.chapter_index_of(id2);
                self.lemma_chapter_index_unique(id2, j);
                if j < k {
                    assert(c2.chapters[j] == self.chapters[j]);
                    c2.lemma_chapter_index_unique(id2, j);
                } else {
                    assert(j > k);
                    assert(c2.chapters[j - 1] == self.chapters[j]);
                    c2.lemma_chapter_index_unique(id2, j - 1);
                }
            }
            if c2.has_chapter_id(id2) {
                let j = c2.chapter_index_of(id2);
                c2.lemma_chapter_index_unique(id2, j);
                if j < k {
                    assert(self.chapters[j].id == id2);
                    self.lemma_chapter_index_unique(id2, j);
                } else {
                    assert(self.chapters[j + 1].id == id2);
                    self.lemma_chapter_index_unique(id2, j + 1);
                }
            }
        }
    }
}

} // verus!
