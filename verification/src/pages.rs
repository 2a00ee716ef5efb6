//! Paginated read access: filter by kind, order by timestamp newest first,
//! and slice one page.
//!
//! The ordering is a stable insertion sort, written out as a spec function,
//! so the page a query returns is pinned exactly: records of the requested
//! kind, newest first, records of equal age in scan order, cut to the
//! requested page.  An out-of-range page is empty, never an error.

use vstd::prelude::*;

use crate::catalog::{catalog_view, StorageMetadata};
use crate::media::{
    descriptor_of, matches_kind, Descriptor, DescriptorView, EntryView, TrackEntry,
};

verus! {

/// Where one entry lands among already-ordered entries: after every entry
/// at least as new, before the first strictly older one.
pub open spec fn insert_desc(e: EntryView, s: Seq<EntryView>) -> Seq<EntryView>
    decreases s.len(),
{
    if s.len() == 0 {
        seq![e]
    } else if s[0].track.timestamp >= e.track.timestamp {
        seq![s[0]] + insert_desc(e, s.drop_first())
    } else {
        seq![e] + s
    }
}

/// The entries ordered by timestamp, newest first; entries of equal
/// timestamp keep their scan order.
pub open spec fn sort_desc(s: Seq<EntryView>) -> Seq<EntryView>
    decreases s.len(),
{
    if s.len() == 0 {
        Seq::<EntryView>::empty()
    } else {
        insert_desc(s.last(), sort_desc(s.drop_last()))
    }
}

/// Timestamps never increase along the sequence.
pub open spec fn sorted_desc(s: Seq<EntryView>) -> bool {
    forall|i: int, j: int|
        #![trigger s[i], s[j]]
        0 <= i <= j < s.len() ==> s[i].track.timestamp >= s[j].track.timestamp
}

/// Whether an identifier is among the listed thumbnail owners.
pub open spec fn thumb_listed(ts: Seq<Seq<char>>, id: Seq<char>) -> bool {
    exists|i: int| 0 <= i < ts.len() && ts[i] == id
}

/// The identifiers a vector of strings lists.
pub open spec fn id_views(ids: Seq<String>) -> Seq<Seq<char>> {
    ids.map_values(|s: String| s@)
}

/// The entries of one page: filter by kind, order newest first, slice.
pub open spec fn page_of(
    s: Seq<EntryView>,
    kind: Seq<char>,
    page_index: int,
    page_size: int,
) -> Seq<EntryView> {
    let sorted = sort_desc(s.filter(|e: EntryView| matches_kind(e.track, kind)));
    let start = page_index * page_size;
    if start >= sorted.len() {
        Seq::<EntryView>::empty()
    } else if start + page_size >= sorted.len() {
        sorted.subrange(start, sorted.len() as int)
    } else {
        sorted.subrange(start, start + page_size)
    }
}

/// The caller-facing projection of a run of entries, with each entry's
/// thumbnail flag drawn from the listed thumbnail owners.
pub open spec fn augmented(s: Seq<EntryView>, ts: Seq<Seq<char>>) -> Seq<DescriptorView> {
    s.map_values(|e: EntryView| descriptor_of(e, thumb_listed(ts, e.id)))
}

/// Placing an entry at the position its timestamp selects realises
/// [`insert_desc`].
proof fn lemma_insert_desc_at(e: EntryView, s: Seq<EntryView>, j: int)
    requires
        0 <= j <= s.len(),
        forall|k: int| 0 <= k < j ==> (#[trigger] s[k]).track.timestamp >= e.track.timestamp,
        j < s.len() ==> s[j].track.timestamp < e.track.timestamp,
    ensures
        insert_desc(e, s) == s.take(j) + seq![e] + s.skip(j),
    decreases j,
{
    if j == 0 {
        if s.len() == 0 {
            assert(insert_desc(e, s) =~= s.take(0) + seq![e] + s.skip(0));
        } else {
            assert(s.take(0) + seq![e] + s.skip(0) =~= seq![e] + s);
        }
    } else {
        let d = s.drop_first();
        assert(forall|k: int|
            0 <= k < j - 1 ==> (#[trigger] d[k]).track.timestamp >= e.track.timestamp);
        lemma_insert_desc_at(e, d, j - 1);
        assert(seq![s[0]] + (d.take(j - 1) + seq![e] + d.skip(j - 1)) =~= s.take(j) + seq![e]
            + s.skip(j));
    }
}

/// The contents of a sequence with one element put in front.
proof fn lemma_cons_multiset(x: EntryView, t: Seq<EntryView>)
    ensures
        (seq![x] + t).to_multiset() == t.to_multiset().insert(x),
{
    broadcast use vstd::seq_lib::group_to_multiset_ensures;

    let s = seq![x] + t;
    assert(s.remove(0) =~= t);
    assert(s[0] == x);
    assert(s.to_multiset().remove(x) =~= t.to_multiset());
    assert(s.contains(x));
    assert(s.to_multiset().count(x) > 0);
    assert(s.to_multiset() =~= t.to_multiset().insert(x));
}

/// Placing an entry keeps the contents: one more of the entry, the rest
/// unchanged.
proof fn lemma_insert_desc_multiset(e: EntryView, s: Seq<EntryView>)
    ensures
        insert_desc(e, s).to_multiset() == s.to_multiset().insert(e),
    decreases s.len(),
{
    broadcast use vstd::seq_lib::group_to_multiset_ensures;

    if s.len() == 0 {
        assert(seq![e] =~= Seq::<EntryView>::empty().push(e));
    } else if s[0].track.timestamp >= e.track.timestamp {
        let d = s.drop_first();
        lemma_insert_desc_multiset(e, d);
        lemma_cons_multiset(s[0], insert_desc(e, d));
        lemma_cons_multiset(s[0], d);
        assert(s =~= seq![s[0]] + d);
        assert(d.to_multiset().insert(e).insert(s[0]) =~= d.to_multiset().insert(s[0]).insert(e));
    } else {
        lemma_cons_multiset(e, s);
    }
}

/// Placing an entry among ordered entries keeps them ordered.
proof fn lemma_insert_desc_sorted(e: EntryView, s: Seq<EntryView>)
    requires
        sorted_desc(s),
    ensures
        sorted_desc(insert_desc(e, s)),
    decreases s.len(),
{
    broadcast use vstd::seq_lib::group_to_multiset_ensures;

    if s.len() == 0 {
    } else if s[0].track.timestamp >= e.track.timestamp {
        let d = s.drop_first();
        assert(sorted_desc(d)) by {
            assert(forall|i: int, j: int|
                #![trigger d[i], d[j]]
                0 <= i <= j < d.len() ==> s[i + 1].track.timestamp >= s[j + 1].track.timestamp);
        }
        lemma_insert_desc_sorted(e, d);
        lemma_insert_desc_multiset(e, d);
        let ins = insert_desc(e, d);
        let r = seq![s[0]] + ins;
        assert forall|i: int, j: int|
            #![trigger r[i], r[j]]
            0 <= i <= j < r.len() implies r[i].track.timestamp >= r[j].track.timestamp by {
            if i == 0 && j > 0 {
                assert(r[j] == ins[j - 1]);
                assert(ins.contains(ins[j - 1]));
                assert(ins.to_multiset().count(ins[j - 1]) > 0);
                if ins[j - 1] == e {
                    assert(r[i].track.timestamp >= r[j].track.timestamp);
                } else {
                    assert(d.to_multiset().count(ins[j - 1]) > 0);
                    assert(d.contains(ins[j - 1]));
                    let w = choose|w: int| 0 <= w < d.len() && d[w] == ins[j - 1];
                    assert(s[w + 1] == ins[j - 1]);
                    assert(s[0].track.timestamp >= s[w + 1].track.timestamp);
                }
            } else if i > 0 {
                assert(r[i] == ins[i - 1] && r[j] == ins[j - 1]);
                assert(ins[i - 1].track.timestamp >= ins[j - 1].track.timestamp);
            }
        }
    } else {
        let r = seq![e] + s;
        assert forall|i: int, j: int|
            #![trigger r[i], r[j]]
            0 <= i <= j < r.len() implies r[i].track.timestamp >= r[j].track.timestamp by {
            if i == 0 && j > 0 {
                assert(r[j] == s[j - 1]);
                assert(s[0].track.timestamp >= s[j - 1].track.timestamp);
            } else if i > 0 {
                assert(r[i] == s[i - 1] && r[j] == s[j - 1]);
            }
        }
    }
}

/// Law: the page ordering is a true ordering.  What [`sort_desc`] returns
/// is ordered by timestamp, newest first, and holds exactly the entries it
/// was given, each as often as it was given.
pub proof fn lemma_sort_desc_law(s: Seq<EntryView>)
    ensures
        sorted_desc(sort_desc(s)),
        sort_desc(s).to_multiset() == s.to_multiset(),
    decreases s.len(),
{
    broadcast use vstd::seq_lib::group_to_multiset_ensures;

    if s.len() == 0 {
    } else {
        let dl = s.drop_last();
        lemma_sort_desc_law(dl);
        lemma_insert_desc_sorted(s.last(), sort_desc(dl));
        lemma_insert_desc_multiset(s.last(), sort_desc(dl));
        assert(dl.push(s.last()) =~= s);
        assert(dl.push(s.last()).to_multiset() =~= dl.to_multiset().insert(s.last()));
    }
}

/// Checks whether an identifier stands in a list of identifiers.
pub(crate) fn id_listed(ids: &Vec<String>, id: &String) -> (r: bool)
    ensures
        r == thumb_listed(id_views(ids@), id@),
{
    let n = ids.len();
    let mut i: usize = 0;
    while i < n
        invariant
            n == ids.len(),
            i <= n,
            forall|k: int| 0 <= k < i ==> id_views(ids@)[k] != id@,
        decreases n - i,
    {
        if ids[i] == *id {
            proof {
                assert(id_views(ids@)[i as int] == id@);
            }
            return true;
        }
        i += 1;
    }
    false
}

/// Orders entries by timestamp, newest first, entries of equal timestamp
/// keeping their order.
fn sort_entries_desc(mut v: Vec<TrackEntry>) -> (r: Vec<TrackEntry>)
    ensures
        catalog_view(r@) == sort_desc(catalog_view(v@)),
{
    let ghost orig = catalog_view(v@);
    let mut out: Vec<TrackEntry> = Vec::new();
    proof {
        assert(catalog_view(out@) =~= Seq::<EntryView>::empty());
        assert(orig.take(0) =~= Seq::<EntryView>::empty());
        assert(sort_desc(orig.take(0)) =~= Seq::<EntryView>::empty());
    }
    let n = v.len();
    let mut i: usize = 0;
    while i < n
        invariant
            n == v.len(),
            i <= n,
            orig == catalog_view(v@),
            catalog_view(out@) =~= sort_desc(orig.take(i as int)),
            out.len() == i,
        decreases n - i,
    {
        let ghost outv = catalog_view(out@);
        let e = v[i].duplicate();
        proof {
            assert(e@ == orig[i as int]);
        }
        let m = out.len();
        let mut j: usize = 0;
        while j < m && out[j].track.timestamp >= e.track.timestamp
            invariant
                m == out.len(),
                j <= m,
                outv == catalog_view(out@),
                forall|k: int|
                    0 <= k < j ==> (#[trigger] outv[k]).track.timestamp >= e@.track.timestamp,
            decreases m - j,
        {
            proof {
                assert(outv[j as int].track.timestamp >= e@.track.timestamp);
            }
            j += 1;
        }
        proof {
            lemma_insert_desc_at(e@, outv, j as int);
        }
        out.insert(j, e);
        proof {
            assert(catalog_view(out@) =~= outv.take(j as int) + seq![e@] + outv.skip(j as int));
            assert(orig.take(i as int + 1).drop_last() =~= orig.take(i as int));
            assert(orig.take(i as int + 1).last() == orig[i as int]);
            assert(catalog_view(out@) =~= sort_desc(orig.take(i as int + 1)));
        }
        i += 1;
    }
    proof {
        assert(orig.take(n as int) =~= orig);
    }
    out
}

impl StorageMetadata {
    /// One page of records of a kind: ordered newest first (equal ages in
    /// scan order), sliced to the requested page, each record projected to
    /// its descriptor with the thumbnail flag drawn from `thumb_ids`, the
    /// identifiers whose thumbnail file exists.  An out-of-range page is
    /// empty, never an error — a page whose start is beyond any
    /// representable index included.
    pub fn get_page(
        &self,
        kind: &String,
        page_index: usize,
        page_size: usize,
        thumb_ids: &Vec<String>,
    ) -> (r: Vec<Descriptor>)
        ensures
            r@.map_values(|d: Descriptor| d@) == augmented(
                page_of(self.entries(), kind@, page_index as int, page_size as int),
                id_views(thumb_ids@),
            ),
    {
        let ghost pred = |e: EntryView| matches_kind(e.track, kind@);
        let source = self.entry_list();
        let n = source.len();
        let mut filtered: Vec<TrackEntry> = Vec::new();
        proof {
            assert(catalog_view(filtered@) =~= Seq::<EntryView>::empty());
            assert(self.entries().take(0) =~= Seq::<EntryView>::empty());
            reveal_with_fuel(Seq::filter, 2);
        }
        let mut i: usize = 0;
        while i < n
            invariant
                n == source.len(),
                i <= n,
                catalog_view(source@) == self.entries(),
                catalog_view(filtered@) =~= self.entries().take(i as int).filter(pred),
                pred == (|e: EntryView| matches_kind(e.track, kind@)),
            decreases n - i,
        {
            let ghost held = filtered@;
            proof {
                assert(self.entries().take(i as int + 1) =~= self.entries().take(i as int).push(
                    self.entries()[i as int],
                ));
                crate::catalog::lemma_filter_push(
                    self.entries().take(i as int),
                    pred,
                    self.entries()[i as int],
                );
            }
            let matched = match &source[i].track.media_item.item_type {
                Some(t) => *t == *kind,
                None => false,
            };
            if matched {
                filtered.push(source[i].duplicate());
                proof {
                    assert(catalog_view(filtered@) =~= catalog_view(held).push(
                        self.entries()[i as int],
                    ));
                }
            }
            i += 1;
        }
        proof {
            assert(self.entries().take(n as int) =~= self.entries());
        }
        let sorted = sort_entries_desc(filtered);
        let ghost sortedv = sort_desc(self.entries().filter(pred));

        let len = sorted.len();
        let mut out: Vec<Descriptor> = Vec::new();
        let start = match page_index.checked_mul(page_size) {
            Some(s) => s,
            None => {
                // the slice start exceeds every representable index, so the
                // page lies past the end of any catalog
                proof {
                    assert(page_index * page_size > usize::MAX >= sortedv.len());
                    assert(out@.map_values(|d: Descriptor| d@) =~= augmented(
                        page_of(self.entries(), kind@, page_index as int, page_size as int),
                        id_views(thumb_ids@),
                    ));
                }
                return out;
            },
        };
        if start >= len {
            proof {
                assert(out@.map_values(|d: Descriptor| d@) =~= augmented(
                    page_of(self.entries(), kind@, page_index as int, page_size as int),
                    id_views(thumb_ids@),
                ));
            }
            return out;
        }
        let stop = if len - start < page_size {
            len
        } else {
            start + page_size
        };
        let ghost pagev = page_of(self.entries(), kind@, page_index as int, page_size as int);
        proof {
            assert(pagev =~= sortedv.subrange(start as int, stop as int));
        }
        let mut k = start;
        while k < stop
            invariant
                start <= k <= stop <= sorted.len(),
                catalog_view(sorted@) == sortedv,
                pagev == sortedv.subrange(start as int, stop as int),
                out@.map_values(|d: Descriptor| d@) =~= augmented(
                    sortedv.subrange(start as int, k as int),
                    id_views(thumb_ids@),
                ),
            decreases stop - k,
        {
            let ghost heldout = out@;
            let has_thumb = id_listed(thumb_ids, &sorted[k].id);
            let d = Descriptor::from_entry(&sorted[k], has_thumb);
            out.push(d);
            proof {
                assert(sortedv.subrange(start as int, k as int + 1) =~= sortedv.subrange(
                    start as int,
                    k as int,
                ).push(sortedv[k as int]));
                assert(out@.map_values(|d2: Descriptor| d2@) =~= heldout.map_values(
                    |d2: Descriptor| d2@,
                ).push(d@));
                assert(out@.map_values(|d2: Descriptor| d2@) =~= augmented(
                    sortedv.subrange(start as int, k as int + 1),
                    id_views(thumb_ids@),
                ));
            }
            k += 1;
        }
        proof {
            assert(sortedv.subrange(start as int, stop as int) =~= pagev);
        }
        out
    }
}

} // verus!
