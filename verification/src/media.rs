//! The data model of the catalog: records, their descriptor documents, and
//! the caller-facing projection of a record.
//!
//! A record's media descriptor is an opaque structured document of which the
//! catalog reads exactly two reserved fields, `Type` and `Name`.  The model
//! therefore keeps those two fields indexed as plain optional strings and
//! carries the remainder of the document as uninterpreted text.

use vstd::prelude::*;

verus! {

/// A media descriptor document: the two reserved fields the catalog
/// inspects, plus the uninterpreted remainder of the document.
pub struct MediaItem {
    /// The reserved `Type` field, if present and textual.
    pub item_type: Option<String>,
    /// The reserved `Name` field, if present and textual.
    pub name: Option<String>,
    /// The rest of the document, carried through untouched.
    pub extra: String,
}

/// The mathematical value of a [`MediaItem`].
pub struct MediaItemView {
    pub item_type: Option<Seq<char>>,
    pub name: Option<Seq<char>>,
    pub extra: Seq<char>,
}

impl View for MediaItem {
    type V = MediaItemView;

    open spec fn view(&self) -> MediaItemView {
        MediaItemView {
            item_type: match self.item_type {
                Some(ref s) => Some(s@),
                None => None,
            },
            name: match self.name {
                Some(ref s) => Some(s@),
                None => None,
            },
            extra: self.extra@,
        }
    }
}

/// One persisted catalog record.
pub struct StorageTrack {
    /// The record's kind; the value `"container"` makes it a parent grouping.
    pub track_type: String,
    /// Caller-assigned creation timestamp; pages are ordered by it, newest first.
    pub timestamp: i64,
    /// The record's media descriptor document.
    pub media_item: MediaItem,
    /// The record's bitrate.
    pub bitrate: i32,
    /// The identifier of the container this record belongs to, if any.
    pub container_id: Option<String>,
    /// An opaque media-source document merged into the descriptor on read.
    pub media_sources: Option<String>,
}

/// The mathematical value of a [`StorageTrack`].
pub struct TrackView {
    pub track_type: Seq<char>,
    pub timestamp: i64,
    pub media_item: MediaItemView,
    pub bitrate: i32,
    pub container_id: Option<Seq<char>>,
    pub media_sources: Option<Seq<char>>,
}

impl View for StorageTrack {
    type V = TrackView;

    open spec fn view(&self) -> TrackView {
        TrackView {
            track_type: self.track_type@,
            timestamp: self.timestamp,
            media_item: self.media_item@,
            bitrate: self.bitrate,
            container_id: match self.container_id {
                Some(ref s) => Some(s@),
                None => None,
            },
            media_sources: match self.media_sources {
                Some(ref s) => Some(s@),
                None => None,
            },
        }
    }
}

/// A record's kind makes it a container exactly when its type is `"container"`.
pub open spec fn is_container(t: TrackView) -> bool {
    t.track_type == "container"@
}

/// A record matches a kind filter when its descriptor's reserved `Type`
/// field is present, textual, and equal to the filter.
pub open spec fn matches_kind(t: TrackView, kind: Seq<char>) -> bool {
    t.media_item.item_type matches Some(s) && s == kind
}

/// An identifier paired with its record: one entry of the catalog.
pub struct TrackEntry {
    /// The record's identifier, unique within the catalog.
    pub id: String,
    /// The record stored under that identifier.
    pub track: StorageTrack,
}

/// The mathematical value of a [`TrackEntry`].
pub struct EntryView {
    pub id: Seq<char>,
    pub track: TrackView,
}

impl View for TrackEntry {
    type V = EntryView;

    open spec fn view(&self) -> EntryView {
        EntryView { id: self.id@, track: self.track@ }
    }
}

/// The caller-facing projection of a record: its descriptor document
/// augmented with the merged media sources and a thumbnail flag.
pub struct Descriptor {
    /// The identifier of the record the descriptor was derived from.
    pub id: String,
    /// The record's media descriptor document.
    pub item: MediaItem,
    /// The record's media sources, merged into the projection when present.
    pub media_sources: Option<String>,
    /// Whether a thumbnail file exists for the record.
    pub has_thumbnail: bool,
}

/// The mathematical value of a [`Descriptor`].
pub struct DescriptorView {
    pub id: Seq<char>,
    pub item: MediaItemView,
    pub media_sources: Option<Seq<char>>,
    pub has_thumbnail: bool,
}

impl View for Descriptor {
    type V = DescriptorView;

    open spec fn view(&self) -> DescriptorView {
        DescriptorView {
            id: self.id@,
            item: match self.item {
                MediaItem { ref item_type, ref name, ref extra } => MediaItemView {
                    item_type: match item_type {
                        Some(s) => Some(s@),
                        None => None,
                    },
                    name: match name {
                        Some(s) => Some(s@),
                        None => None,
                    },
                    extra: extra@,
                },
            },
            media_sources: match self.media_sources {
                Some(ref s) => Some(s@),
                None => None,
            },
            has_thumbnail: self.has_thumbnail,
        }
    }
}

/// The projection of one catalog entry, given whether its thumbnail exists.
pub open spec fn descriptor_of(e: EntryView, has_thumbnail: bool) -> DescriptorView {
    DescriptorView {
        id: e.id,
        item: e.track.media_item,
        media_sources: e.track.media_sources,
        has_thumbnail: has_thumbnail,
    }
}

/// Copies a string option, field for field.
fn clone_opt_string(s: &Option<String>) -> (r: Option<String>)
    ensures
        (match *s {
            Some(ref v) => r matches Some(w) && w@ == v@,
            None => r is None,
        }),
{
    match s {
        Some(v) => Some(v.clone()),
        None => None,
    }
}

impl MediaItem {
    /// A field-for-field copy of the descriptor document.
    pub fn duplicate(&self) -> (r: MediaItem)
        ensures
            r@ == self@,
    {
        MediaItem {
            item_type: clone_opt_string(&self.item_type),
            name: clone_opt_string(&self.name),
            extra: self.extra.clone(),
        }
    }
}

impl StorageTrack {
    /// A field-for-field copy of the record.
    pub fn duplicate(&self) -> (r: StorageTrack)
        ensures
            r@ == self@,
    {
        StorageTrack {
            track_type: self.track_type.clone(),
            timestamp: self.timestamp,
            media_item: self.media_item.duplicate(),
            bitrate: self.bitrate,
            container_id: clone_opt_string(&self.container_id),
            media_sources: clone_opt_string(&self.media_sources),
        }
    }
}

impl TrackEntry {
    /// A field-for-field copy of the entry.
    pub fn duplicate(&self) -> (r: TrackEntry)
        ensures
            r@ == self@,
    {
        TrackEntry { id: self.id.clone(), track: self.track.duplicate() }
    }
}

impl Descriptor {
    /// Builds the caller-facing projection of one catalog entry.
    pub fn from_entry(e: &TrackEntry, has_thumbnail: bool) -> (r: Descriptor)
        ensures
            r@ == descriptor_of(e@, has_thumbnail),
    {
        Descriptor {
            id: e.id.clone(),
            item: e.track.media_item.duplicate(),
            media_sources: clone_opt_string(&e.track.media_sources),
            has_thumbnail,
        }
    }
}

} // verus!
