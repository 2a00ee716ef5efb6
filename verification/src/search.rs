//! Substring search over record names, case-insensitive.
//!
//! A blank search term (empty or whitespace only) returns nothing rather
//! than everything.  Otherwise a record matches when the lowercase form of
//! its descriptor's reserved `Name` field contains the lowercase form of
//! the term; results follow scan order and are cut at the caller's limit.
//! Lowercasing is Unicode case mapping and is delegated to the standard
//! library; the search itself is verified.

use vstd::prelude::*;

use crate::catalog::{catalog_view, StorageMetadata};
use crate::media::{Descriptor, EntryView};
use crate::pages::{augmented, id_views};

verus! {

/// The lowercase mapping of a string's characters; what
/// `str::to_lowercase` returns, a function of the characters alone.
pub uninterp spec fn lower_of(s: Seq<char>) -> Seq<char>;

/// Whether a character has the Unicode `White_Space` property; what
/// `char::is_whitespace` returns, a function of the character alone.
pub uninterp spec fn is_space(c: char) -> bool;

/// Relies on str::to_lowercase: the result is the lowercase mapping of the
/// input's characters and depends on nothing else.
#[verifier::external_body]
fn lowercase(s: &String) -> (r: String)
    ensures
        r@ == lower_of(s@),
{
    s.to_lowercase()
}

/// Relies on char::is_whitespace: whether the character has the Unicode
/// `White_Space` property, a function of the character alone.
#[verifier::external_body]
fn char_is_whitespace(c: char) -> (r: bool)
    ensures
        r == is_space(c),
{
    c.is_whitespace()
}

/// A string is blank when every character is whitespace; the empty string
/// is blank.
pub open spec fn blank(s: Seq<char>) -> bool {
    forall|i: int| 0 <= i < s.len() ==> is_space(#[trigger] s[i])
}

/// Checks whether a string is empty or whitespace only.
fn is_blank(s: &String) -> (r: bool)
    ensures
        r == blank(s@),
{
    let n = s.as_str().unicode_len();
    let mut i: usize = 0;
    while i < n
        invariant
            n == s@.len(),
            i <= n,
            forall|k: int| 0 <= k < i ==> is_space(#[trigger] s@[k]),
        decreases n - i,
    {
        if !char_is_whitespace(s.as_str().get_char(i)) {
            return false;
        }
        i += 1;
    }
    true
}

/// One string contains another when the other stands in it whole at some
/// position; the empty string is contained everywhere.
pub open spec fn contains_sub(h: Seq<char>, n: Seq<char>) -> bool {
    exists|k: int|
        0 <= k <= h.len() - n.len() && #[trigger] h.subrange(k, k + n.len() as int) == n
}

/// Checks whether `needle` occurs in `hay` as a run of characters.
fn contains_substring(hay: &String, needle: &String) -> (r: bool)
    ensures
        r == contains_sub(hay@, needle@),
{
    let hl = hay.as_str().unicode_len();
    let nl = needle.as_str().unicode_len();
    if nl > hl {
        return false;
    }
    if nl == 0 {
        proof {
            assert(hay@.subrange(0, 0 + needle@.len() as int) =~= needle@);
        }
        return true;
    }
    let mut k: usize = 0;
    while k <= hl - nl
        invariant
            hl == hay@.len(),
            nl == needle@.len(),
            1 <= nl <= hl,
            k <= hl - nl + 1,
            forall|k2: int|
                0 <= k2 < k ==> #[trigger] hay@.subrange(k2, k2 + needle@.len() as int)
                    != needle@,
        decreases hl - nl - k + 1,
    {
        let mut j: usize = 0;
        let mut mismatch = false;
        while j < nl && !mismatch
            invariant
                hl == hay@.len(),
                nl == needle@.len(),
                nl <= hl,
                k <= hl - nl,
                j <= nl,
                !mismatch ==> forall|j2: int| 0 <= j2 < j ==> hay@[k + j2] == #[trigger] needle@[j2],
                mismatch ==> hay@.subrange(k as int, k + needle@.len() as int) != needle@,
            decreases nl - j + (if mismatch {
                0int
            } else {
                1int
            }),
        {
            if hay.as_str().get_char(k + j) == needle.as_str().get_char(j) {
                j += 1;
            } else {
                proof {
                    assert(hay@.subrange(k as int, k + needle@.len() as int)[j as int] == hay@[k
                        + j]);
                }
                mismatch = true;
            }
        }
        if !mismatch {
            proof {
                assert(hay@.subrange(k as int, k + needle@.len() as int) =~= needle@);
            }
            return true;
        }
        k += 1;
    }
    false
}

/// Whether a record's descriptor names it as a match: its reserved `Name`
/// field is present and its lowercase form contains the needle.
pub open spec fn name_matches(e: EntryView, needle: Seq<char>) -> bool {
    e.track.media_item.name matches Some(nm) && contains_sub(lower_of(nm), needle)
}

/// The first entries of a sequence, at most `limit` of them.
pub open spec fn truncated(s: Seq<EntryView>, limit: int) -> Seq<EntryView> {
    if s.len() <= limit {
        s
    } else {
        s.take(limit)
    }
}

/// What a search returns: nothing for a blank term; otherwise the records
/// whose lowercase name contains the lowercase term, in scan order, at most
/// `limit` of them.
pub open spec fn search_result(s: Seq<EntryView>, term: Seq<char>, limit: int) -> Seq<EntryView> {
    if blank(term) {
        Seq::<EntryView>::empty()
    } else {
        truncated(s.filter(|e: EntryView| name_matches(e, lower_of(term))), limit)
    }
}

impl StorageMetadata {
    /// Case-insensitive substring search over record names.  A blank term
    /// returns nothing; otherwise the matches come in scan order, cut at
    /// `limit`, each projected to its descriptor with the thumbnail flag
    /// drawn from `thumb_ids`.
    pub fn search_items(&self, term: &String, limit: usize, thumb_ids: &Vec<String>) -> (r: Vec<
        Descriptor,
    >)
        ensures
            r@.map_values(|d: Descriptor| d@) == augmented(
                search_result(self.entries(), term@, limit as int),
                id_views(thumb_ids@),
            ),
    {
        let mut out: Vec<Descriptor> = Vec::new();
        if is_blank(term) {
            proof {
                assert(out@.map_values(|d: Descriptor| d@) =~= augmented(
                    search_result(self.entries(), term@, limit as int),
                    id_views(thumb_ids@),
                ));
            }
            return out;
        }
        let needle = lowercase(term);
        let ghost mp = |e: EntryView| name_matches(e, lower_of(term@));
        let source = self.entry_list();
        let n = source.len();
        proof {
            assert(self.entries().take(0) =~= Seq::<EntryView>::empty());
            reveal_with_fuel(Seq::filter, 2);
            assert(out@.map_values(|d: Descriptor| d@) =~= augmented(
                truncated(self.entries().take(0).filter(mp), limit as int),
                id_views(thumb_ids@),
            ));
        }
        let mut i: usize = 0;
        while i < n
            invariant
                n == source.len(),
                i <= n,
                catalog_view(source@) == self.entries(),
                needle@ == lower_of(term@),
                mp == (|e: EntryView| name_matches(e, lower_of(term@))),
                out.len() <= limit,
                out.len() == truncated(self.entries().take(i as int).filter(mp), limit as int).len(),
                out@.map_values(|d: Descriptor| d@) =~= augmented(
                    truncated(self.entries().take(i as int).filter(mp), limit as int),
                    id_views(thumb_ids@),
                ),
            decreases n - i,
        {
            let ghost heldout = out@;
            let ghost fprev = self.entries().take(i as int).filter(mp);
            proof {
                assert(self.entries().take(i as int + 1) =~= self.entries().take(i as int).push(
                    self.entries()[i as int],
                ));
                crate::catalog::lemma_filter_push(
                    self.entries().take(i as int),
                    mp,
                    self.entries()[i as int],
                );
            }
            let matched = match &source[i].track.media_item.name {
                Some(nm) => {
                    let low = lowercase(nm);
                    contains_substring(&low, &needle)
                },
                None => false,
            };
            proof {
                assert(matched == mp(self.entries()[i as int]));
            }
            if matched && out.len() < limit {
                let has_thumb = crate::pages::id_listed(thumb_ids, &source[i].id);
                let d = Descriptor::from_entry(&source[i], has_thumb);
                out.push(d);
                proof {
                    assert(fprev.len() == heldout.len());
                    assert(truncated(fprev.push(self.entries()[i as int]), limit as int)
                        =~= fprev.push(self.entries()[i as int]));
                    assert(out@.map_values(|d2: Descriptor| d2@) =~= heldout.map_values(
                        |d2: Descriptor| d2@,
                    ).push(d@));
                }
            } else if matched {
                proof {
                    assert(fprev.len() >= limit);
                    assert(truncated(fprev.push(self.entries()[i as int]), limit as int)
                        =~= truncated(fprev, limit as int));
                }
            }
            i += 1;
        }
        proof {
            assert(self.entries().take(n as int) =~= self.entries());
        }
        out
    }
}

} // verus!
