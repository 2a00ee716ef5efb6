//! The metadata catalog: one record per identifier, with last-writer-wins
//! saves and cascading deletion of a container's children.
//!
//! The catalog is a sequence of entries whose identifiers are pairwise
//! distinct.  Saving under an existing identifier replaces the record;
//! deleting a container record also deletes every record whose parent
//! reference names it.

use vstd::prelude::*;

use crate::media::{is_container, matches_kind, EntryView, StorageTrack, TrackEntry, TrackView};

verus! {

/// The mathematical value of a catalog: its entries in scan order.
pub open spec fn catalog_view(tracks: Seq<TrackEntry>) -> Seq<EntryView> {
    tracks.map_values(|e: TrackEntry| e@)
}

/// No two entries share an identifier.
pub open spec fn unique_ids(s: Seq<EntryView>) -> bool {
    forall|i: int, j: int| #![trigger s[i], s[j]] 0 <= i < j < s.len() ==> s[i].id != s[j].id
}

/// Some entry carries the given identifier.
pub open spec fn contains_id(s: Seq<EntryView>, id: Seq<char>) -> bool {
    exists|i: int| 0 <= i < s.len() && (#[trigger] s[i]).id == id
}

/// The entry carrying the given identifier, where one exists.
pub open spec fn entry_at(s: Seq<EntryView>, id: Seq<char>) -> EntryView {
    s[choose|i: int| 0 <= i < s.len() && (#[trigger] s[i]).id == id]
}

/// The entries that do not carry the given identifier, in order.
pub open spec fn filter_out(s: Seq<EntryView>, id: Seq<char>) -> Seq<EntryView> {
    s.filter(|e: EntryView| e.id != id)
}

/// The catalog after saving a record: any previous entry under the
/// identifier is gone, and the new entry stands at the end.
pub open spec fn upsert(s: Seq<EntryView>, id: Seq<char>, t: TrackView) -> Seq<EntryView> {
    filter_out(s, id).push(EntryView { id: id, track: t })
}

/// Whether deleting the given identifier cascades: it does exactly when the
/// catalog holds a record under it whose kind is `container`.
pub open spec fn cascade_applies(s: Seq<EntryView>, id: Seq<char>) -> bool {
    contains_id(s, id) && is_container(entry_at(s, id).track)
}

/// Whether one entry is deleted by a removal of the given identifier.
pub open spec fn doomed(e: EntryView, id: Seq<char>, cascade: bool) -> bool {
    e.id == id || (cascade && (e.track.container_id matches Some(c) && c == id))
}

/// The catalog after removing an identifier (and, for a container, its
/// children).
pub open spec fn remove_result(s: Seq<EntryView>, id: Seq<char>) -> Seq<EntryView> {
    s.filter(|e: EntryView| !doomed(e, id, cascade_applies(s, id)))
}

/// The identifiers removed by a removal, in scan order.
pub open spec fn removed_ids(s: Seq<EntryView>, id: Seq<char>) -> Seq<Seq<char>> {
    s.filter(|e: EntryView| doomed(e, id, cascade_applies(s, id))).map_values(
        |e: EntryView| e.id,
    )
}

/// The catalog view of a sequence with one entry appended.
proof fn lemma_view_push(t: Seq<TrackEntry>, e: TrackEntry)
    ensures
        catalog_view(t.push(e)) == catalog_view(t).push(e@),
{
    assert(catalog_view(t.push(e)) =~= catalog_view(t).push(e@));
}

/// The catalog view of a sequence with its first entry removed.
proof fn lemma_view_remove_front(t: Seq<TrackEntry>)
    requires
        t.len() > 0,
    ensures
        catalog_view(t.remove(0)) == catalog_view(t).remove(0),
{
    assert(catalog_view(t.remove(0)) =~= catalog_view(t).remove(0));
}

/// Filtering distributes over appending one element.
pub(crate) proof fn lemma_filter_push<A>(s: Seq<A>, pred: spec_fn(A) -> bool, x: A)
    ensures
        s.push(x).filter(pred) == if pred(x) {
            s.filter(pred).push(x)
        } else {
            s.filter(pred)
        },
{
    assert(s.push(x).drop_last() =~= s);
    reveal_with_fuel(Seq::filter, 2);
}

/// Every element of a filtered sequence is an element of the original.
proof fn lemma_filter_sub<A>(s: Seq<A>, pred: spec_fn(A) -> bool)
    ensures
        forall|i: int|
            0 <= i < s.filter(pred).len() ==> s.contains(#[trigger] s.filter(pred)[i]),
    decreases s.len(),
{
    reveal_with_fuel(Seq::filter, 2);
    if s.len() != 0 {
        lemma_filter_sub(s.drop_last(), pred);
        assert(forall|i: int|
            0 <= i < s.drop_last().len() ==> s.contains(#[trigger] s.drop_last()[i]));
        lemma_filter_push(s.drop_last(), pred, s.last());
        assert(s.drop_last().push(s.last()) =~= s);
    }
}

/// Filtering twice with one predicate filters once.
proof fn lemma_filter_idempotent<A>(s: Seq<A>, pred: spec_fn(A) -> bool)
    ensures
        s.filter(pred).filter(pred) == s.filter(pred),
    decreases s.len(),
{
    reveal_with_fuel(Seq::filter, 2);
    if s.len() != 0 {
        lemma_filter_idempotent(s.drop_last(), pred);
        if pred(s.last()) {
            lemma_filter_push(s.drop_last().filter(pred), pred, s.last());
        }
    }
}

/// Filtering keeps identifiers pairwise distinct.
proof fn lemma_filter_unique(s: Seq<EntryView>, pred: spec_fn(EntryView) -> bool)
    requires
        unique_ids(s),
    ensures
        unique_ids(s.filter(pred)),
    decreases s.len(),
{
    reveal_with_fuel(Seq::filter, 2);
    if s.len() != 0 {
        let dl = s.drop_last();
        assert(unique_ids(dl)) by {
            assert(forall|i: int, j: int|
                #![trigger dl[i], dl[j]]
                0 <= i < j < dl.len() ==> s[i].id != s[j].id);
        }
        lemma_filter_unique(dl, pred);
        if pred(s.last()) {
            lemma_filter_sub(dl, pred);
            assert forall|i: int, j: int|
                #![trigger dl.filter(pred).push(s.last())[i], dl.filter(pred).push(s.last())[j]]
                0 <= i < j < dl.filter(pred).push(s.last()).len() implies dl.filter(pred).push(
                s.last(),
            )[i].id != dl.filter(pred).push(s.last())[j].id by {
                if j == dl.filter(pred).len() {
                    let fi = dl.filter(pred)[i];
                    assert(dl.contains(fi));
                    let wi = choose|w: int| 0 <= w < dl.len() && dl[w] == fi;
                    assert(s[wi] == fi);
                    assert(s[wi].id != s.last().id);
                }
            }
        }
    }
}

/// The metadata catalog: every persisted record, keyed by identifier.
pub struct StorageMetadata {
    tracks: Vec<TrackEntry>,
}

impl StorageMetadata {
    /// The catalog's entries in scan order.
    pub closed spec fn entries(self) -> Seq<EntryView> {
        catalog_view(self.tracks@)
    }

    /// Well-formedness: identifiers are pairwise distinct.
    pub open spec fn wf(self) -> bool {
        unique_ids(self.entries())
    }

    /// An empty catalog, as on first access with no persisted document.
    pub fn new() -> (r: StorageMetadata)
        ensures
            r.entries() == Seq::<EntryView>::empty(),
            r.wf(),
    {
        let r = StorageMetadata { tracks: Vec::new() };
        proof {
            assert(r.entries() =~= Seq::<EntryView>::empty());
        }
        r
    }

    /// The catalog's entries in scan order, for queries and persistence.
    pub fn entry_list(&self) -> (r: &Vec<TrackEntry>)
        ensures
            catalog_view(r@) == self.entries(),
    {
        &self.tracks
    }

    /// How many records the catalog holds.
    pub fn track_count(&self) -> (r: usize)
        ensures
            r == self.entries().len(),
    {
        self.tracks.len()
    }

    /// The record stored under an identifier, if any.
    pub fn get_track(&self, id: &String) -> (r: Option<&StorageTrack>)
        requires
            self.wf(),
        ensures
            r is Some <==> contains_id(self.entries(), id@),
            r matches Some(t) ==> t@ == entry_at(self.entries(), id@).track,
    {
        let n = self.tracks.len();
        let mut i: usize = 0;
        while i < n
            invariant
                self.wf(),
                n == self.tracks.len(),
                i <= n,
                forall|k: int| 0 <= k < i ==> (#[trigger] self.entries()[k]).id != id@,
            decreases n - i,
        {
            if self.tracks[i].id == *id {
                proof {
                    assert(self.entries()[i as int].id == id@);
                    let w = choose|w: int|
                        0 <= w < self.entries().len() && (#[trigger] self.entries()[w]).id == id@;
                    assert(w == i);
                }
                return Some(&self.tracks[i].track);
            }
            i += 1;
        }
        None
    }

    /// Whether a record is stored under an identifier.
    pub fn has_track(&self, id: &String) -> (r: bool)
        requires
            self.wf(),
        ensures
            r == contains_id(self.entries(), id@),
    {
        self.get_track(id).is_some()
    }

    /// Saves a record under an identifier, last writer wins: any previous
    /// record under the identifier is replaced, never duplicated.
    pub fn insert_track(&mut self, id: String, track: StorageTrack)
        requires
            old(self).wf(),
        ensures
            final(self).entries() == upsert(old(self).entries(), id@, track@),
            final(self).wf(),
    {
        let ghost orig = self.entries();
        let mut source: Vec<TrackEntry> = Vec::new();
        core::mem::swap(&mut self.tracks, &mut source);
        let ghost pred = |e: EntryView| e.id != id@;
        proof {
            assert(orig.take(0) =~= Seq::<EntryView>::empty());
            reveal_with_fuel(Seq::filter, 2);
            assert(self.entries() =~= Seq::<EntryView>::empty());
        }
        let ghost total = orig.len() as int;
        let n0: usize = source.len();
        proof {
            assert(total == n0 as int);
        }
        let mut j: usize = 0;
        while source.len() > 0
            invariant
                j + source.len() == total,
                0 <= total <= usize::MAX,
                catalog_view(source@) =~= orig.skip(j as int),
                self.entries() =~= orig.take(j as int).filter(pred),
                pred == (|e: EntryView| e.id != id@),
                orig.len() == total,
            decreases source.len(),
        {
            let ghost pre = source@;
            let ghost held = self.tracks@;
            let e = source.remove(0);
            proof {
                assert(e@ == catalog_view(pre)[0]);
                assert(e@ == orig[j as int]);
                lemma_view_remove_front(pre);
                assert(catalog_view(source@) =~= orig.skip(j as int + 1));
                assert(orig.take(j as int + 1) =~= orig.take(j as int).push(orig[j as int]));
                lemma_filter_push(orig.take(j as int), pred, orig[j as int]);
            }
            if !(e.id == id) {
                self.tracks.push(e);
                proof {
                    lemma_view_push(held, e);
                }
            }
            j += 1;
            proof {
                assert(self.entries() =~= orig.take(j as int).filter(pred));
            }
        }
        proof {
            assert(orig.take(total) =~= orig);
        }
        self.tracks.push(TrackEntry { id, track });
        proof {
            assert(self.entries() =~= upsert(orig, id@, track@));
            lemma_filter_unique(orig, pred);
            assert(self.wf()) by {
                broadcast use vstd::seq_lib::group_filter_ensures;

                assert(forall|i: int, j2: int|
                    #![trigger self.entries()[i], self.entries()[j2]]
                    0 <= i < j2 < self.entries().len() ==> self.entries()[i].id
                        != self.entries()[j2].id);
            }
        }
    }

    /// Removes the record under an identifier; when that record is a
    /// container, also removes every record whose parent reference names it.
    /// Returns the removed identifiers in scan order, so that the caller can
    /// delete the files that belong to them.
    pub fn remove_track(&mut self, id: &String) -> (removed: Vec<String>)
        requires
            old(self).wf(),
        ensures
            final(self).entries() == remove_result(old(self).entries(), id@),
            removed@.map_values(|s: String| s@) == removed_ids(old(self).entries(), id@),
            final(self).wf(),
    {
        let ghost orig = self.entries();
        let cascade = match self.get_track(id) {
            Some(t) => {
                let container_kw = String::from_str("container");
                t.track_type == container_kw
            },
            None => false,
        };
        proof {
            assert(cascade == cascade_applies(orig, id@));
        }
        let ghost keep_pred = |e: EntryView| !doomed(e, id@, cascade_applies(orig, id@));
        let ghost gone_pred = |e: EntryView| doomed(e, id@, cascade_applies(orig, id@));

        let mut removed: Vec<String> = Vec::new();
        let mut source: Vec<TrackEntry> = Vec::new();
        core::mem::swap(&mut self.tracks, &mut source);
        proof {
            assert(orig.take(0) =~= Seq::<EntryView>::empty());
            reveal_with_fuel(Seq::filter, 2);
            assert(self.entries() =~= Seq::<EntryView>::empty());
            assert(removed@.map_values(|s: String| s@) =~= orig.take(0).filter(
                gone_pred,
            ).map_values(|e: EntryView| e.id));
        }
        let ghost total = orig.len() as int;
        let n0: usize = source.len();
        proof {
            assert(total == n0 as int);
        }
        let mut j: usize = 0;
        while source.len() > 0
            invariant
                j + source.len() == total,
                0 <= total <= usize::MAX,
                cascade == cascade_applies(orig, id@),
                catalog_view(source@) =~= orig.skip(j as int),
                self.entries() =~= orig.take(j as int).filter(keep_pred),
                removed@.map_values(|s: String| s@) =~= orig.take(j as int).filter(
                    gone_pred,
                ).map_values(|e: EntryView| e.id),
                keep_pred == (|e: EntryView| !doomed(e, id@, cascade_applies(orig, id@))),
                gone_pred == (|e: EntryView| doomed(e, id@, cascade_applies(orig, id@))),
                orig.len() == total,
            decreases source.len(),
        {
            let ghost pre = source@;
            let ghost held = self.tracks@;
            let ghost held_removed = removed@;
            let e = source.remove(0);
            proof {
                assert(e@ == catalog_view(pre)[0]);
                assert(e@ == orig[j as int]);
                lemma_view_remove_front(pre);
                assert(catalog_view(source@) =~= orig.skip(j as int + 1));
                assert(orig.take(j as int + 1) =~= orig.take(j as int).push(orig[j as int]));
                lemma_filter_push(orig.take(j as int), keep_pred, orig[j as int]);
                lemma_filter_push(orig.take(j as int), gone_pred, orig[j as int]);
            }
            let is_doomed = if e.id == *id {
                true
            } else if cascade {
                match &e.track.container_id {
                    Some(c) => *c == *id,
                    None => false,
                }
            } else {
                false
            };
            proof {
                assert(is_doomed == doomed(e@, id@, cascade_applies(orig, id@)));
            }
            if is_doomed {
                removed.push(e.id);
                proof {
                    assert(removed@ == held_removed.push(e.id));
                    assert(removed@.map_values(|s: String| s@) =~= held_removed.map_values(
                        |s: String| s@,
                    ).push(e.id@));
                }
            } else {
                self.tracks.push(e);
                proof {
                    lemma_view_push(held, e);
                }
            }
            j += 1;
            proof {
                assert(self.entries() =~= orig.take(j as int).filter(keep_pred));
                assert(removed@.map_values(|s: String| s@) =~= orig.take(j as int).filter(
                    gone_pred,
                ).map_values(|e: EntryView| e.id));
            }
        }
        proof {
            assert(orig.take(total) =~= orig);
            lemma_filter_unique(orig, keep_pred);
        }
        removed
    }

    /// How many records carry the given reserved `Type` value.
    pub fn count_by_type(&self, kind: &String) -> (r: usize)
        ensures
            r == self.entries().filter(|e: EntryView| matches_kind(e.track, kind@)).len(),
    {
        let ghost pred = |e: EntryView| matches_kind(e.track, kind@);
        let n = self.tracks.len();
        let mut count: usize = 0;
        let mut i: usize = 0;
        proof {
            assert(self.entries().take(0) =~= Seq::<EntryView>::empty());
            reveal_with_fuel(Seq::filter, 2);
        }
        while i < n
            invariant
                n == self.tracks.len(),
                i <= n,
                count == self.entries().take(i as int).filter(pred).len(),
                count <= i,
                pred == (|e: EntryView| matches_kind(e.track, kind@)),
            decreases n - i,
        {
            proof {
                assert(self.entries().take(i as int + 1) =~= self.entries().take(i as int).push(
                    self.entries()[i as int],
                ));
                lemma_filter_push(self.entries().take(i as int), pred, self.entries()[i as int]);
            }
            let matched = match &self.tracks[i].track.media_item.item_type {
                Some(t) => *t == *kind,
                None => false,
            };
            if matched {
                count += 1;
            }
            i += 1;
        }
        proof {
            assert(self.entries().take(n as int) =~= self.entries());
        }
        count
    }
}

/// Law: saving the same identifier twice keeps only the later record.  The
/// catalog state after two saves under one identifier equals the state after
/// the second save alone, so every query reflects only the latest version.
pub proof fn lemma_resave_overwrites(s: Seq<EntryView>, id: Seq<char>, a: TrackView, b: TrackView)
    ensures
        upsert(upsert(s, id, a), id, b) == upsert(s, id, b),
{
    let pred = |e: EntryView| e.id != id;
    lemma_filter_push(filter_out(s, id), pred, EntryView { id: id, track: a });
    lemma_filter_idempotent(s, pred);
}

/// Law: removal deletes exactly the doomed entries.  After removing an
/// identifier, no entry carries it; when the removed record was a container,
/// no surviving entry names it as parent; and every entry that was neither
/// the record itself nor (under a container) one of its children survives
/// unchanged, in order.
pub proof fn lemma_cascading_delete(s: Seq<EntryView>, id: Seq<char>)
    ensures
        !contains_id(remove_result(s, id), id),
        cascade_applies(s, id) ==> forall|i: int|
            0 <= i < remove_result(s, id).len() ==> !((#[trigger] remove_result(s, id)[i]).track.container_id matches Some(c)
                && c == id),
        remove_result(s, id) == s.filter(
            |e: EntryView| !doomed(e, id, cascade_applies(s, id)),
        ),
{
    let pred = |e: EntryView| !doomed(e, id, cascade_applies(s, id));
    broadcast use vstd::seq_lib::group_filter_ensures;

    assert forall|i: int| 0 <= i < remove_result(s, id).len() implies (
    #[trigger] remove_result(s, id)[i]).id != id by {
        assert(pred(s.filter(pred)[i]));
    }
    if cascade_applies(s, id) {
        assert forall|i: int| 0 <= i < remove_result(s, id).len() implies !((
        #[trigger] remove_result(s, id)[i]).track.container_id matches Some(c) && c == id) by {
            assert(pred(s.filter(pred)[i]));
        }
    }
}

} // verus!
