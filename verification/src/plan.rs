//! Regeneration planner.
//!
//! The planner bridges dirty state to the external artifact-generation
//! collaborator and closes the loop: it reads the dirty listings from
//! the store, the collaborator is invoked with each entity's
//! identifier and content, and the reported outcome decides whether
//! the entity's flag is cleared or left set for a retry on the next
//! run.  Volumes and chapters are independent regeneration units: a
//! failure on one never blocks the other from being cleared.

use vstd::prelude::*;

use crate::store::Store;

verus! {

/// Close the loop for one volume artifact: on reported success clear
/// the volume's dirty flag; on reported failure leave the catalog
/// untouched, so the volume is retried on the next run.
pub fn record_volume_generation(store: &mut Store, volume_id: usize, success: bool)
    requires
        old(store)@.wf(),
        old(store)@.has_volume_id(volume_id as int),
    ensures
        success ==> final(store)@ == old(store)@.set_volume_dirty(volume_id as int, false),
        !success ==> final(store)@ == old(store)@,
        final(store)@.wf(),
{
    if success {
        store.set_volume_dirty(volume_id, false);
    }
}

/// Close the loop for one chapter artifact: on reported success clear
/// the chapter's dirty flag — the owning volume's flag is not touched,
/// since propagation runs only from chapter to volume and only when a
/// flag is set; on reported failure leave the catalog untouched.
pub fn record_chapter_generation(store: &mut Store, chapter_id: usize, success: bool)
    requires
        old(store)@.wf(),
        old(store)@.has_chapter_id(chapter_id as int),
    ensures
        success ==> final(store)@ == old(store)@.set_chapter_dirty(chapter_id as int, false),
        !success ==> final(store)@ == old(store)@,
        final(store)@.wf(),
{
    if success {
        store.set_chapter_dirty(chapter_id, false);
    }
}

} // verus!
