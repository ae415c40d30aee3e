//! The clip library: clip paths with their durations, in scan order.

use indexmap::IndexMap;
use vstd::prelude::*;

verus! {

/// Longest stretch of audio, in milliseconds, that one composition uses.
pub const MAX_LENGTH: u64 = 10_000;

#[verifier::external_type_specification]
#[verifier::external_body]
#[verifier::reject_recursive_types(K)]
#[verifier::reject_recursive_types(V)]
#[verifier::reject_recursive_types(S)]
pub struct ExIndexMap<K, V, S>(IndexMap<K, V, S>);

/// The entries of a map of clip paths to durations, in the map's order.
pub uninterp spec fn clip_entries(m: IndexMap<String, u64>) -> Seq<(Seq<char>, u64)>;

/// Relies on `IndexMap::new`: a new map holds no entry.
#[verifier::external_body]
fn map_new() -> (m: IndexMap<String, u64>)
    ensures
        clip_entries(m) == Seq::<(Seq<char>, u64)>::empty(),
{
    IndexMap::new()
}

/// Relies on `IndexMap::len`: the number of entries.
#[verifier::external_body]
fn map_len(m: &IndexMap<String, u64>) -> (n: usize)
    ensures
        n == clip_entries(*m).len(),
{
    m.len()
}

/// Relies on `IndexMap::get_index`: the entry at a position, if there is one.
#[verifier::external_body]
fn map_get_index(m: &IndexMap<String, u64>, i: usize) -> (r: Option<(String, u64)>)
    ensures
        entry_view(r) == entry_at(clip_entries(*m), i as int),
{
    match m.get_index(i) {
        Some((k, v)) => Some((k.clone(), *v)),
        None => None,
    }
}

/// Relies on `IndexMap::contains_key`: whether some entry has an equal key.
#[verifier::external_body]
fn map_contains_key(m: &IndexMap<String, u64>, k: &String) -> (r: bool)
    ensures
        r == has_path(clip_entries(*m), k@),
{
    m.contains_key(k)
}

/// Relies on `IndexMap::insert`: a new key goes last; an existing key keeps its
/// place and takes the new value.
#[verifier::external_body]
fn map_insert(m: &mut IndexMap<String, u64>, k: String, v: u64) -> (r: Option<u64>)
    ensures
        forall|i: int|
            0 <= i < clip_entries(*old(m)).len() && #[trigger] clip_entries(*old(m))[i].0 == k@
                ==> r == Some(clip_entries(*old(m))[i].1) && clip_entries(*final(m))
                == clip_entries(*old(m)).update(i, (k@, v)),
        (forall|i: int|
            0 <= i < clip_entries(*old(m)).len() ==> #[trigger] clip_entries(*old(m))[i].0 != k@)
            ==> r is None && clip_entries(*final(m)) == clip_entries(*old(m)).push((k@, v)),
{
    m.insert(k, v)
}

/// The entry at position `i`, if there is one.
pub open spec fn entry_at(e: Seq<(Seq<char>, u64)>, i: int) -> Option<(Seq<char>, u64)> {
    if 0 <= i < e.len() {
        Some(e[i])
    } else {
        None
    }
}

/// A clip entry as plain values.
pub open spec fn entry_view(r: Option<(String, u64)>) -> Option<(Seq<char>, u64)> {
    match r {
        Some(e) => Some((e.0@, e.1)),
        None => None,
    }
}

/// Whether some entry has path `p`.
pub open spec fn has_path(e: Seq<(Seq<char>, u64)>, p: Seq<char>) -> bool {
    exists|i: int| 0 <= i < e.len() && #[trigger] e[i].0 == p
}

/// No two entries share a path.
pub open spec fn unique_paths(e: Seq<(Seq<char>, u64)>) -> bool {
    forall|i: int, j: int| 0 <= i < j < e.len() ==> #[trigger] e[i].0 != #[trigger] e[j].0
}

/// The clips that compositions draw their audio from, each with its duration in
/// milliseconds.
pub struct TrackLibrary {
    tracks: IndexMap<String, u64>,
}

impl View for TrackLibrary {
    type V = Seq<(Seq<char>, u64)>;

    closed spec fn view(&self) -> Seq<(Seq<char>, u64)> {
        clip_entries(self.tracks)
    }
}

impl TrackLibrary {
    /// Paths are unique.
    pub open spec fn wf(&self) -> bool {
        unique_paths(self@)
    }

    /// An empty library.
    pub fn new() -> (r: TrackLibrary)
        ensures
            r@ == Seq::<(Seq<char>, u64)>::empty(),
            r.wf(),
    {
        TrackLibrary { tracks: map_new() }
    }

    /// The number of clips.
    pub fn len(&self) -> (n: usize)
        ensures
            n == self@.len(),
    {
        map_len(&self.tracks)
    }

    /// Whether the library has no clip.
    pub fn is_empty(&self) -> (r: bool)
        ensures
            r == (self@.len() == 0),
    {
        map_len(&self.tracks) == 0
    }

    /// Whether a clip with this path is in the library.
    pub fn contains(&self, path: &String) -> (r: bool)
        ensures
            r == has_path(self@, path@),
    {
        map_contains_key(&self.tracks, path)
    }

    /// The clip at position `i`, with its duration.
    pub fn get_index(&self, i: usize) -> (r: Option<(String, u64)>)
        ensures
            entry_view(r) == entry_at(self@, i as int),
    {
        map_get_index(&self.tracks, i)
    }

    /// Adds a clip at the end unless its path is already present; says whether it
    /// was added. A clip already present keeps its place and duration.
    pub fn insert(&mut self, path: String, duration_ms: u64) -> (added: bool)
        requires
            old(self).wf(),
        ensures
            final(self).wf(),
            added == !has_path(old(self)@, path@),
            added ==> final(self)@ == old(self)@.push((path@, duration_ms)),
            !added ==> final(self)@ == old(self)@,
    {
        if map_contains_key(&self.tracks, &path) {
            false
        } else {
            let ghost before = self@;
            let _ = map_insert(&mut self.tracks, path, duration_ms);
            assert forall|i: int, j: int| 0 <= i < j < self@.len() implies #[trigger] self@[i].0
                != #[trigger] self@[j].0 by {
                if j == before.len() {
                    assert(before[i].0 == self@[i].0);
                }
            }
            true
        }
    }
}

/// The clips that a directory scan found, as the library keeps them: each
/// path once, with the duration it was first found with.
pub open spec fn scanned(found: Seq<(Seq<char>, u64)>) -> Seq<(Seq<char>, u64)>
    decreases found.len(),
{
    if found.len() == 0 {
        found
    } else {
        let rest = scanned(found.drop_last());
        let e = found.last();
        if has_path(rest, e.0) {
            rest
        } else {
            rest.push(e)
        }
    }
}

/// Builds the library from the clips that a directory scan found, in the order
/// found: every clip is kept, whatever its duration, and of clips that share a
/// path the first is kept.
pub fn scan_music(found: Vec<(String, u64)>) -> (r: TrackLibrary)
    ensures
        r.wf(),
        r@ == scanned(found@.map_values(|e: (String, u64)| (e.0@, e.1))),
{
    let ghost view = found@.map_values(|e: (String, u64)| (e.0@, e.1));
    let mut library = TrackLibrary::new();
    let mut i: usize = 0;
    while i < found.len()
        invariant
            i <= found.len(),
            view == found@.map_values(|e: (String, u64)| (e.0@, e.1)),
            library.wf(),
            library@ == scanned(view.subrange(0, i as int)),
        decreases found.len() - i,
    {
        let path = found[i].0.clone();
        let duration_ms = found[i].1;
        proof {
            assert(view.subrange(0, i + 1).drop_last() =~= view.subrange(0, i as int));
            assert(view.subrange(0, i + 1).last() == (path@, duration_ms));
        }
        library.insert(path, duration_ms);
        i = i + 1;
    }
    assert(view.subrange(0, found.len() as int) =~= view);
    library
}

proof fn lemma_scanned_from_found(found: Seq<(Seq<char>, u64)>)
    ensures
        forall|k: int|
            0 <= k < scanned(found).len() ==> exists|j: int|
                0 <= j < found.len() && found[j] == #[trigger] scanned(found)[k],
    decreases found.len(),
{
    if found.len() > 0 {
        let shorter = found.drop_last();
        lemma_scanned_from_found(shorter);
        let rest = scanned(shorter);
        assert forall|k: int| 0 <= k < scanned(found).len() implies exists|j: int|
            0 <= j < found.len() && found[j] == #[trigger] scanned(found)[k] by {
            if k < rest.len() {
                let j = choose|j: int| 0 <= j < shorter.len() && shorter[j] == rest[k];
                assert(found[j] == scanned(found)[k]);
            } else {
                assert(found[found.len() - 1] == scanned(found)[k]);
            }
        }
    }
}

/// Every clip that a scan found stands in the library with the duration it
/// was first found with, short clips included.
pub proof fn lemma_scan_keeps_every_clip(found: Seq<(Seq<char>, u64)>, i: int)
    requires
        0 <= i < found.len(),
        forall|j: int| 0 <= j < i ==> found[j].0 != found[i].0,
    ensures
        exists|k: int| 0 <= k < scanned(found).len() && #[trigger] scanned(found)[k] == found[i],
    decreases found.len(),
{
    let n = found.len() - 1;
    let shorter = found.drop_last();
    let rest = scanned(shorter);
    if i < n {
        assert(shorter[i] == found[i]);
        lemma_scan_keeps_every_clip(shorter, i);
        let k = choose|k: int| 0 <= k < rest.len() && #[trigger] rest[k] == shorter[i];
        assert(scanned(found)[k] == found[i]);
    } else {
        lemma_scanned_from_found(shorter);
        if has_path(rest, found[n].0) {
            let k = choose|k: int| 0 <= k < rest.len() && #[trigger] rest[k].0 == found[n].0;
            let j = choose|j: int| 0 <= j < shorter.len() && shorter[j] == #[trigger] rest[k];
            assert(found[j].0 == found[n].0);
        }
        assert(scanned(found)[rest.len() as int] == found[i]);
    }
}

} // verus!
