//! Durable catalog of volumes, chapters and per-chapter content.
//!
//! The store is the single source of truth for the pipeline.  All
//! mutation is expressed as idempotent operations that are safe to
//! repeat, and every operation is specified against the catalog model
//! of [`crate::catalog`].  Persistence to an external storage engine
//! is a collaborator's concern; the logic here is the catalog itself.

use vstd::prelude::*;

use crate::catalog::CatalogView;
use crate::catalog::ChapterView;
use crate::catalog::VolumeView;

verus! {

/// One volume row: stable id, unique display name, and the flag that
/// marks its generated artifact as stale.
pub struct Volume {
    pub id: usize,
    pub name: String,
    pub dirty: bool,
}

impl View for Volume {
    type V = VolumeView;

    open spec fn view(&self) -> VolumeView {
        VolumeView { id: self.id as int, name: self.name@, dirty: self.dirty }
    }
}

impl Clone for Volume {
    fn clone(&self) -> (res: Self)
        ensures
            res == *self,
    {
        Volume { id: self.id, name: self.name.clone(), dirty: self.dirty }
    }
}

/// One chapter row: stable id, display name, source locator, owning
/// volume, the optionally stored content text, and the flag that marks
/// its generated artifact as stale.
pub struct Chapter {
    pub id: usize,
    pub name: String,
    pub uri: String,
    pub volumeid: usize,
    pub content: Option<String>,
    pub dirty: bool,
}

impl View for Chapter {
    type V = ChapterView;

    open spec fn view(&self) -> ChapterView {
        ChapterView {
            id: self.id as int,
            name: self.name@,
            uri: self.uri@,
            volumeid: self.volumeid as int,
            content: match self.content {
                Some(s) => Some(s@),
                None => None,
            },
            dirty: self.dirty,
        }
    }
}

impl Clone for Chapter {
    fn clone(&self) -> (res: Self)
        ensures
            res == *self,
    {
        Chapter {
            id: self.id,
            name: self.name.clone(),
            uri: self.uri.clone(),
            volumeid: self.volumeid,
            content: match &self.content {
                Some(s) => Some(s.clone()),
                None => None,
            },
            dirty: self.dirty,
        }
    }
}

/// The catalog store.  Rows are kept in insertion order; chapter ids
/// come from a counter and are never reused, so the order of the rows
/// equals the order in which the source listed them.
pub struct Store {
    volumes: Vec<Volume>,
    chapters: Vec<Chapter>,
    next_chapter_id: usize,
}

impl View for Store {
    type V = CatalogView;

    closed spec fn view(&self) -> CatalogView {
        CatalogView {
            volumes: self.volumes@.map_values(|v: Volume| v@),
            chapters: self.chapters@.map_values(|c: Chapter| c@),
            next_chapter_id: self.next_chapter_id as int,
        }
    }
}

impl Store {
    /// Open a fresh, empty catalog.
    pub fn new() -> (s: Store)
        ensures
            s@ == CatalogView::empty(),
            s@.wf(),
    {
        let s = Store { volumes: Vec::new(), chapters: Vec::new(), next_chapter_id: 0 };
        proof {
            assert(s@ =~= CatalogView::empty());
        }
        s
    }

    /// Position of the volume carrying this name, if any.
    fn find_volume(&self, name: &String) -> (r: Option<usize>)
        requires
            self@.wf(),
        ensures
            match r {
                Some(i) => {
                    &&& i < self@.volumes.len()
                    &&& self@.volumes[i as int].name == name@
                    &&& self@.has_volume_named(name@)
                    &&& self@.volume_id_of(name@) == i as int
                },
                None => !self@.has_volume_named(name@),
            },
    {
        let n = self.volumes.len();
        let mut i: usize = 0;
        while i < n
            invariant
                n == self@.volumes.len(),
                i <= n,
                self@.wf(),
                forall|j: int| 0 <= j < i ==> (#[trigger] self@.volumes[j]).name != name@,
            decreases n - i,
        {
            if self.volumes[i].name == *name {
                proof {
                    let w = self@.volume_id_of(name@);
                    if w != i as int {
                        assert(self@.volumes[w].name == self@.volumes[i as int].name);
                    }
                }
                return Some(i);
            }
            i += 1;
        }
        None
    }

    /// Insert a volume with this name if absent, otherwise return the
    /// existing id; an existing volume is never touched, its dirty
    /// flag included.
    pub fn upsert_volume(&mut self, name: String) -> (id: usize)
        requires
            old(self)@.wf(),
        ensures
            final(self)@ == old(self)@.upsert_volume(name@),
            id as int == old(self)@.upsert_volume_id(name@),
            final(self)@.wf(),
    {
        proof {
            old(self)@.lemma_upsert_volume_wf(name@);
        }
        match self.find_volume(&name) {
            Some(i) => {
                proof {
                    assert(self@ =~= old(self)@.upsert_volume(name@));
                }
                self.volumes[i].id
            },
            None => {
                let id = self.volumes.len();
                self.volumes.push(Volume { id, name, dirty: false });
                proof {
                    assert(self@.volumes =~= old(self)@.upsert_volume(name@).volumes);
                    assert(self@ =~= old(self)@.upsert_volume(name@));
                }
                id
            },
        }
    }

    /// Position of the chapter carrying this identifying triple, if
    /// any.
    fn find_chapter_by_triple(&self, name: &String, uri: &String, volumeid: usize) -> (r: Option<
        usize,
    >)
        requires
            self@.wf(),
        ensures
            match r {
                Some(i) => {
                    &&& i < self@.chapters.len()
                    &&& crate::catalog::chapter_matches(
                        self@.chapters[i as int],
                        name@,
                        uri@,
                        volumeid as int,
                    )
                    &&& self@.has_chapter_triple(name@, uri@, volumeid as int)
                    &&& self@.chapter_triple_index(name@, uri@, volumeid as int) == i as int
                },
                None => !self@.has_chapter_triple(name@, uri@, volumeid as int),
            },
    {
        let n = self.chapters.len();
        let mut i: usize = 0;
        while i < n
            invariant
                n == self@.chapters.len(),
                i <= n,
                self@.wf(),
                forall|j: int|
                    0 <= j < i ==> !crate::catalog::chapter_matches(
                        #[trigger] self@.chapters[j],
                        name@,
                        uri@,
                        volumeid as int,
                    ),
            decreases n - i,
    {
            let ch = &self.chapters[i];
            if ch.name == *name && ch.uri == *uri && ch.volumeid == volumeid {
                proof {
                    let w = self@.chapter_triple_index(name@, uri@, volumeid as int);
                    if w != i as int {
                        assert(crate::catalog::chapter_matches(
                            self@.chapters[w],
                            self@.chapters[i as int].name,
                            self@.chapters[i as int].uri,
                            self@.chapters[i as int].volumeid,
                        ));
                    }
                }
                return Some(i);
            }
            i += 1;
        }
        None
    }

    /// Position of the chapter carrying this id, if any.
    fn find_chapter_by_id(&self, chapter_id: usize) -> (r: Option<usize>)
        requires
            self@.wf(),
        ensures
            match r {
                Some(i) => {
                    &&& i < self@.chapters.len()
                    &&& self@.chapters[i as int].id == chapter_id as int
                    &&& self@.has_chapter_id(chapter_id as int)
                    &&& self@.chapter_index_of(chapter_id as int) == i as int
                },
                None => !self@.has_chapter_id(chapter_id as int),
            },
    {
        let n = self.chapters.len();
        let mut i: usize = 0;
        while i < n
            invariant
                n == self@.chapters.len(),
                i <= n,
                self@.wf(),
                forall|j: int| 0 <= j < i ==> (#[trigger] self@.chapters[j]).id != chapter_id as int,
            decreases n - i,
        {
            if self.chapters[i].id == chapter_id {
                proof {
                    let w = self@.chapter_index_of(chapter_id as int);
                    if w != i as int {
                        assert(self@.chapters[w].id == self@.chapters[i as int].id);
                    }
                }
                return Some(i);
            }
            i += 1;
        }
        None
    }

    /// Insert a chapter with this identifying triple if absent; a
    /// repeat call is a no-op returning the existing id.  A new
    /// chapter starts with no content and dirty unset, appended after
    /// every chapter seen so far.
    pub fn upsert_chapter(&mut self, name: String, uri: String, volumeid: usize) -> (id: usize)
        requires
            old(self)@.wf(),
            old(self)@.has_volume_id(volumeid as int),
            old(self)@.next_chapter_id < usize::MAX,
        ensures
            final(self)@ == old(self)@.upsert_chapter(name@, uri@, volumeid as int),
            id as int == old(self)@.upsert_chapter_id(name@, uri@, volumeid as int),
            final(self)@.wf(),
    {
        proof {
            old(self)@.lemma_upsert_chapter_wf(name@, uri@, volumeid as int);
        }
        match self.find_chapter_by_triple(&name, &uri, volumeid) {
            Some(i) => {
                proof {
                    assert(self@ =~= old(self)@.upsert_chapter(name@, uri@, volumeid as int));
                }
                self.chapters[i].id
            },
            None => {
                let id = self.next_chapter_id;
                self.next_chapter_id = id + 1;
                self.chapters.push(
                    Chapter { id, name, uri, volumeid, content: None, dirty: false },
                );
                proof {
                    assert(self@.chapters =~= old(self)@.upsert_chapter(
                        name@,
                        uri@,
                        volumeid as int,
                    ).chapters);
                    assert(self@ =~= old(self)@.upsert_chapter(name@, uri@, volumeid as int));
                }
                id
            },
        }
    }

    /// Replace the chapter's stored content wholesale, reporting
    /// whether the new text differs from the prior state.  Absent
    /// content counts as different from every text, the empty one
    /// included, so a first write always reports a change.  Flags are
    /// not touched: propagation is the caller's responsibility.
    pub fn write_chapter_content(&mut self, chapter_id: usize, text: String) -> (changed: bool)
        requires
            old(self)@.wf(),
            old(self)@.has_chapter_id(chapter_id as int),
        ensures
            changed == old(self)@.content_changed(chapter_id as int, text@),
            final(self)@ == old(self)@.write_content(chapter_id as int, text@),
            final(self)@.wf(),
    {
        proof {
            old(self)@.lemma_write_content_wf(chapter_id as int, text@);
        }
        let k = match self.find_chapter_by_id(chapter_id) {
            Some(k) => k,
            None => {
                proof {
                    assert(false);
                }
                0
            },
        };
        let changed = match &self.chapters[k].content {
            Some(prior) => !(*prior == text),
            None => true,
        };
        self.chapters[k].content = Some(text);
        proof {
            assert(self@.chapters =~= old(self)@.write_content(chapter_id as int, text@).chapters);
            assert(self@ =~= old(self)@.write_content(chapter_id as int, text@));
        }
        changed
    }

    /// Set a volume's dirty flag.  Clearing it is the planner's
    /// acknowledgement of a successfully regenerated artifact.
    pub fn set_volume_dirty(&mut self, volume_id: usize, dirty: bool)
        requires
            old(self)@.wf(),
            old(self)@.has_volume_id(volume_id as int),
        ensures
            final(self)@ == old(self)@.set_volume_dirty(volume_id as int, dirty),
            final(self)@.wf(),
    {
        proof {
            old(self)@.lemma_set_volume_dirty_wf(volume_id as int, dirty);
        }
        self.volumes[volume_id].dirty = dirty;
        proof {
            assert(self@.volumes =~= old(self)@.set_volume_dirty(volume_id as int, dirty).volumes);
            assert(self@ =~= old(self)@.set_volume_dirty(volume_id as int, dirty));
        }
    }

    /// Set a chapter's dirty flag.  Marking a chapter dirty also marks
    /// its owning volume dirty; propagation is one level, chapter to
    /// volume, never the reverse.
    pub fn set_chapter_dirty(&mut self, chapter_id: usize, dirty: bool)
        requires
            old(self)@.wf(),
            old(self)@.has_chapter_id(chapter_id as int),
        ensures
            final(self)@ == old(self)@.set_chapter_dirty(chapter_id as int, dirty),
            final(self)@.wf(),
    {
        proof {
            old(self)@.lemma_set_chapter_dirty_wf(chapter_id as int, dirty);
        }
        let k = match self.find_chapter_by_id(chapter_id) {
            Some(k) => k,
            None => {
                proof {
                    assert(false);
                }
                0
            },
        };
        self.chapters[k].dirty = dirty;
        if dirty {
            let vid = self.chapters[k].volumeid;
            self.volumes[vid].dirty = true;
        }
        proof {
            let target = old(self)@.set_chapter_dirty(chapter_id as int, dirty);
            assert(self@.chapters =~= target.chapters);
            assert(self@.volumes =~= target.volumes);
            assert(self@ =~= target);
        }
    }

    /// Delete a chapter together with its content, for content that
    /// turned out ineligible for storage.
    pub fn remove_chapter(&mut self, chapter_id: usize)
        requires
            old(self)@.wf(),
            old(self)@.has_chapter_id(chapter_id as int),
        ensures
            final(self)@ == old(self)@.remove_chapter(chapter_id as int),
            final(self)@.wf(),
    {
        proof {
            old(self)@.lemma_remove_chapter_wf(chapter_id as int);
        }
        let k = match self.find_chapter_by_id(chapter_id) {
            Some(k) => k,
            None => {
                proof {
                    assert(false);
                }
                0
            },
        };
        self.chapters.remove(k);
        proof {
            assert(self@.chapters =~= old(self)@.remove_chapter(chapter_id as int).chapters);
            assert(self@ =~= old(self)@.remove_chapter(chapter_id as int));
        }
    }

    /// The stored content of this chapter, if the chapter exists and
    /// has content.
    pub fn get_chapter_data(&self, chapter_id: usize) -> (r: Option<String>)
        requires
            self@.wf(),
        ensures
            match r {
                Some(s) => self@.has_chapter_id(chapter_id as int) && self@.content_of(
                    chapter_id as int,
                ) == Some(s@),
                None => !self@.has_chapter_id(chapter_id as int) || self@.content_of(
                    chapter_id as int,
                ) is None,
            },
    {
        match self.find_chapter_by_id(chapter_id) {
            Some(k) => match &self.chapters[k].content {
                Some(s) => Some(s.clone()),
                None => None,
            },
            None => None,
        }
    }

    /// The chapters whose content is still unset, in catalog order:
    /// the fetcher's default selection, so an interrupted run resumes
    /// exactly where it stopped.
    pub fn chapters_missing_content(&self) -> (r: Vec<Chapter>)
        requires
            self@.wf(),
        ensures
            r@.map_values(|c: Chapter| c@) == self@.missing_content(),
    {
        let ghost f = |c: Chapter| c@;
        let ghost pred = |ch: ChapterView| ch.content is None;
        let n = self.chapters.len();
        let mut out: Vec<Chapter> = Vec::new();
        let mut i: usize = 0;
        proof {
            assert(out@.map_values(f) =~= self@.chapters.subrange(0, 0).filter(pred));
        }
        while i < n
            invariant
                f == (|c: Chapter| c@),
                pred == (|ch: ChapterView| ch.content is None),
                n == self@.chapters.len(),
                i <= n,
                out@.map_values(f) == self@.chapters.subrange(0, i as int).filter(pred),
            decreases n - i,
        {
            proof {
                crate::catalog::lemma_filter_step(self@.chapters, i as int, pred);
            }
            let ch = &self.chapters[i];
            if ch.content.is_none() {
                let cl = ch.clone();
                let ghost out0 = out@;
                let ghost clg = cl;
                out.push(cl);
                proof {
                    crate::catalog::lemma_map_values_push(out0, clg, f);
                    assert(clg@ == self@.chapters[i as int]);
                }
            }
            i += 1;
        }
        proof {
            assert(self@.chapters.subrange(0, n as int) =~= self@.chapters);
            assert(out@.map_values(|c: Chapter| c@) =~= out@.map_values(f));
        }
        out
    }

    /// The chapters awaiting regeneration, in catalog order.
    pub fn dirty_chapters(&self) -> (r: Vec<Chapter>)
        requires
            self@.wf(),
        ensures
            r@.map_values(|c: Chapter| c@) == self@.dirty_chapters(),
    {
        let ghost f = |c: Chapter| c@;
        let ghost pred = |ch: ChapterView| ch.dirty;
        let n = self.chapters.len();
        let mut out: Vec<Chapter> = Vec::new();
        let mut i: usize = 0;
        proof {
            assert(out@.map_values(f) =~= self@.chapters.subrange(0, 0).filter(pred));
        }
        while i < n
            invariant
                f == (|c: Chapter| c@),
                pred == (|ch: ChapterView| ch.dirty),
                n == self@.chapters.len(),
                i <= n,
                out@.map_values(f) == self@.chapters.subrange(0, i as int).filter(pred),
            decreases n - i,
        {
            proof {
                crate::catalog::lemma_filter_step(self@.chapters, i as int, pred);
            }
            let ch = &self.chapters[i];
            if ch.dirty {
                let cl = ch.clone();
                let ghost out0 = out@;
                let ghost clg = cl;
                out.push(cl);
                proof {
                    crate::catalog::lemma_map_values_push(out0, clg, f);
                    assert(clg@ == self@.chapters[i as int]);
                }
            }
            i += 1;
        }
        proof {
            assert(self@.chapters.subrange(0, n as int) =~= self@.chapters);
            assert(out@.map_values(|c: Chapter| c@) =~= out@.map_values(f));
        }
        out
    }

    /// The volumes awaiting regeneration, in catalog order.
    pub fn dirty_volumes(&self) -> (r: Vec<Volume>)
        requires
            self@.wf(),
        ensures
            r@.map_values(|v: Volume| v@) == self@.dirty_volumes(),
    {
        let ghost f = |c: Volume| c@;
        let ghost pred = |v: VolumeView| v.dirty;
        let n = self.volumes.len();
        let mut out: Vec<Volume> = Vec::new();
        let mut i: usize = 0;
        proof {
            assert(out@.map_values(f) =~= self@.volumes.subrange(0, 0).filter(pred));
        }
        while i < n
            invariant
                f == (|c: Volume| c@),
                pred == (|v: VolumeView| v.dirty),
                n == self@.volumes.len(),
                i <= n,
                out@.map_values(f) == self@.volumes.subrange(0, i as int).filter(pred),
            decreases n - i,
        {
            proof {
                crate::catalog::lemma_filter_step(self@.volumes, i as int, pred);
            }
            let ch = &self.volumes[i];
            if ch.dirty {
                let cl = ch.clone();
                let ghost out0 = out@;
                let ghost clg = cl;
                out.push(cl);
                proof {
                    crate::catalog::lemma_map_values_push(out0, clg, f);
                    assert(clg@ == self@.volumes[i as int]);
                }
            }
            i += 1;
        }
        proof {
            assert(self@.volumes.subrange(0, n as int) =~= self@.volumes);
            assert(out@.map_values(|c: Volume| c@) =~= out@.map_values(f));
        }
        out
    }

    /// The chapters of one volume, in catalog order — the order the
    /// source table of contents listed them, which defines the order
    /// of the generated output.
    pub fn get_chapters_by_volume(&self, volume_id: usize) -> (r: Vec<Chapter>)
        requires
            self@.wf(),
        ensures
            r@.map_values(|c: Chapter| c@) == self@.chapters_of_volume(volume_id as int),
    {
        let ghost f = |c: Chapter| c@;
        let ghost pred = |ch: ChapterView| ch.volumeid == volume_id as int;
        let n = self.chapters.len();
        let mut out: Vec<Chapter> = Vec::new();
        let mut i: usize = 0;
        proof {
            assert(out@.map_values(f) =~= self@.chapters.subrange(0, 0).filter(pred));
        }
        while i < n
            invariant
                f == (|c: Chapter| c@),
                pred == (|ch: ChapterView| ch.volumeid == volume_id as int),
                n == self@.chapters.len(),
                i <= n,
                out@.map_values(f) == self@.chapters.subrange(0, i as int).filter(pred),
            decreases n - i,
        {
            proof {
                crate::catalog::lemma_filter_step(self@.chapters, i as int, pred);
            }
            let ch = &self.chapters[i];
            if ch.volumeid == volume_id {
                let cl = ch.clone();
                let ghost out0 = out@;
                let ghost clg = cl;
                out.push(cl);
                proof {
                    crate::catalog::lemma_map_values_push(out0, clg, f);
                    assert(clg@ == self@.chapters[i as int]);
                }
            }
            i += 1;
        }
        proof {
            assert(self@.chapters.subrange(0, n as int) =~= self@.chapters);
            assert(out@.map_values(|c: Chapter| c@) =~= out@.map_values(f));
        }
        out
    }

    /// Every chapter row, in catalog order: the selection of a full
    /// refresh, which revisits content that is already present.
    pub fn all_chapters(&self) -> (r: Vec<Chapter>)
        requires
            self@.wf(),
        ensures
            r@.map_values(|c: Chapter| c@) == self@.chapters,
    {
        let ghost f = |c: Chapter| c@;
        let n = self.chapters.len();
        let mut out: Vec<Chapter> = Vec::new();
        let mut i: usize = 0;
        proof {
            assert(out@.map_values(f) =~= self@.chapters.subrange(0, 0));
        }
        while i < n
            invariant
                f == (|c: Chapter| c@),
                n == self@.chapters.len(),
                i <= n,
                out@.map_values(f) == self@.chapters.subrange(0, i as int),
            decreases n - i,
        {
            let cl = self.chapters[i].clone();
            let ghost out0 = out@;
            let ghost clg = cl;
            out.push(cl);
            proof {
                crate::catalog::lemma_map_values_push(out0, clg, f);
                assert(clg@ == self@.chapters[i as int]);
                assert(out@.map_values(f) =~= self@.chapters.subrange(0, i as int + 1));
            }
            i += 1;
        }
        proof {
            assert(self@.chapters.subrange(0, n as int) =~= self@.chapters);
            assert(out@.map_values(|c: Chapter| c@) =~= out@.map_values(f));
        }
        out
    }

    /// A copy of the volume row with this id, if it exists.
    pub fn get_volume(&self, volume_id: usize) -> (r: Option<Volume>)
        requires
            self@.wf(),
        ensures
            match r {
                Some(v) => self@.has_volume_id(volume_id as int) && v@ == self@.volumes[volume_id as int],
                None => !self@.has_volume_id(volume_id as int),
            },
    {
        if volume_id < self.volumes.len() {
            Some(self.volumes[volume_id].clone())
        } else {
            None
        }
    }

    /// A copy of the chapter row with this id, if it exists.
    pub fn get_chapter(&self, chapter_id: usize) -> (r: Option<Chapter>)
        requires
            self@.wf(),
        ensures
            match r {
                Some(c) => self@.has_chapter_id(chapter_id as int) && c@ == self@.chapter_rec(
                    chapter_id as int,
                ),
                None => !self@.has_chapter_id(chapter_id as int),
            },
    {
        match self.find_chapter_by_id(chapter_id) {
            Some(k) => Some(self.chapters[k].clone()),
            None => None,
        }
    }

    /// How many volumes the catalog holds.
    pub fn volume_count(&self) -> (n: usize)
        ensures
            n == self@.volumes.len(),
    {
        self.volumes.len()
    }

    /// How many chapters the catalog holds.
    pub fn chapter_count(&self) -> (n: usize)
        ensures
            n == self@.chapters.len(),
    {
        self.chapters.len()
    }
}

} // verus!
