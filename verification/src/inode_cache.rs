//! The cache that recognizes hardlinks: for each file identity, the first
//! path under which the file was packed.

use vstd::prelude::*;
use crate::bytes::copy_bytes;
use crate::meta::FileId;

verus! {

/// `dashmap::DashMap`: a hash map that threads may share.
#[verifier::external_type_specification]
#[verifier::external_body]
#[verifier::reject_recursive_types(K)]
#[verifier::reject_recursive_types(V)]
#[verifier::reject_recursive_types(S)]
pub struct ExDashMap<K, V, S>(dashmap::DashMap<K, V, S>);

/// What a map holds: for each key that is present, the view of its value.
pub uninterp spec fn map_contents(map: dashmap::DashMap<(u64, u64), Vec<u8>>) -> Map<
    (u64, u64),
    Seq<u8>,
>;

/// The contents of a map that holds nothing.
pub open spec fn spec_map_empty() -> Map<(u64, u64), Seq<u8>> {
    Map::empty()
}

/// `dashmap::DashMap::new`: a map that holds nothing.
#[verifier::external_body]
fn map_new() -> (fresh: dashmap::DashMap<(u64, u64), Vec<u8>>)
    ensures
        map_contents(fresh) == spec_map_empty(),
{
    dashmap::DashMap::new()
}

/// `dashmap::DashMap::get`: a copy of the value stored under `key`, if the
/// map holds one.
#[verifier::external_body]
fn map_get(map: &dashmap::DashMap<(u64, u64), Vec<u8>>, key: (u64, u64)) -> (value: Option<Vec<u8>>)
    ensures
        value is Some == map_contents(*map).contains_key(key),
        value is Some ==> value->Some_0@ == map_contents(*map)[key],
{
    map.get(&key).map(|entry| entry.value().clone())
}

/// `dashmap::DashMap::insert`: stores `value` under `key`, in place of what
/// was stored there; every other key keeps its value. The exclusive
/// reference keeps other threads out while the call runs.
#[verifier::external_body]
fn map_insert(map: &mut dashmap::DashMap<(u64, u64), Vec<u8>>, key: (u64, u64), value: Vec<u8>)
    ensures
        map_contents(*final(map)) == map_contents(*old(map)).insert(key, value@),
{
    map.insert(key, value);
}

/// For each file identity seen so far, the first path packed for it.
pub struct InodeCache {
    map: dashmap::DashMap<(u64, u64), Vec<u8>>,
}

impl View for InodeCache {
    type V = Map<FileId, Seq<u8>>;

    closed spec fn view(&self) -> Map<FileId, Seq<u8>> {
        Map::new(
            |id: FileId| map_contents(self.map).contains_key((id.dev, id.ino)),
            |id: FileId| map_contents(self.map)[(id.dev, id.ino)],
        )
    }
}

/// The cache after `path` was seen with identity `id`: the first path seen
/// for an identity stays.
pub open spec fn spec_claim(cache: Map<FileId, Seq<u8>>, id: FileId, path: Seq<u8>) -> Map<
    FileId,
    Seq<u8>,
> {
    if cache.contains_key(id) {
        cache
    } else {
        cache.insert(id, path)
    }
}

/// What the cache answers when `path` is seen with identity `id`: the first
/// path of that file if there was one before.
pub open spec fn spec_first_path(cache: Map<FileId, Seq<u8>>, id: FileId) -> Option<Seq<u8>> {
    if cache.contains_key(id) {
        Some(cache[id])
    } else {
        None
    }
}

/// The cache after all of `files` were seen, in order.
pub open spec fn cache_after(files: Seq<(FileId, Seq<u8>)>) -> Map<FileId, Seq<u8>>
    decreases files.len(),
{
    if files.len() == 0 {
        Map::empty()
    } else {
        spec_claim(cache_after(files.drop_last()), files.last().0, files.last().1)
    }
}

/// Whether `first` is the place in `files` where identity `id` occurs for
/// the first time.
pub open spec fn is_first_sighting(files: Seq<(FileId, Seq<u8>)>, id: FileId, first: int) -> bool {
    &&& 0 <= first < files.len()
    &&& files[first].0 == id
    &&& forall|j: int| 0 <= j < first ==> files[j].0 != id
}

impl InodeCache {
    /// A cache that has seen no file.
    pub fn new() -> (cache: Self)
        ensures
            cache@ == Map::<FileId, Seq<u8>>::empty(),
    {
        let cache = InodeCache { map: map_new() };
        assert(cache@ =~= Map::<FileId, Seq<u8>>::empty());
        cache
    }

    /// The first path packed for `id`, if the file was seen before.
    pub fn first_path(&self, id: FileId) -> (path: Option<Vec<u8>>)
        ensures
            path is Some == self@.contains_key(id),
            path is Some ==> path->Some_0@ == self@[id],
    {
        map_get(&self.map, (id.dev, id.ino))
    }

    /// Sees `path` with identity `id`. A file seen before keeps its first
    /// path, which is returned; a new file is recorded under `path`, and
    /// `None` is returned.
    pub fn claim(&mut self, id: FileId, path: &Vec<u8>) -> (first: Option<Vec<u8>>)
        ensures
            final(self)@ == spec_claim(old(self)@, id, path@),
            first is Some == old(self)@.contains_key(id),
            first is Some ==> first->Some_0@ == old(self)@[id],
    {
        let first = map_get(&self.map, (id.dev, id.ino));
        if first.is_none() {
            map_insert(&mut self.map, (id.dev, id.ino), copy_bytes(path));
            assert(self@ =~= old(self)@.insert(id, path@));
        } else {
            assert(self@ =~= old(self)@);
        }
        first
    }
}

/// Among the files that share an identity, the first one seen is recorded
/// and every later one is answered with the first one's path: after any
/// sequence of sightings the cache holds an identity exactly if it occurs
/// in the sequence, and holds for it the path of its first occurrence.
pub proof fn lemma_first_path_wins(files: Seq<(FileId, Seq<u8>)>, id: FileId)
    ensures
        cache_after(files).contains_key(id) <==> exists|j: int|
            0 <= j < files.len() && #[trigger] files[j].0 == id,
        forall|first: int|
            is_first_sighting(files, id, first) ==> cache_after(files)[id] == files[first].1,
    decreases files.len(),
{
    if files.len() > 0 {
        let before = files.drop_last();
        let last = files.len() - 1;
        lemma_first_path_wins(before, id);
        if cache_after(before).contains_key(id) {
            let j = choose|j: int| 0 <= j < before.len() && #[trigger] before[j].0 == id;
            assert(files[j].0 == id);
            assert forall|first: int| is_first_sighting(files, id, first) implies cache_after(
                files,
            )[id] == files[first].1 by {
                assert(first <= j);
                assert(is_first_sighting(before, id, first));
            }
        } else {
            if files[last].0 == id {
                assert forall|first: int| is_first_sighting(files, id, first) implies first
                    == last by {
                    if first < last {
                        assert(before[first].0 == id);
                    }
                }
            } else {
                assert forall|j: int| 0 <= j < files.len() implies #[trigger] files[j].0
                    != id by {
                    if j < last {
                        assert(before[j].0 == files[j].0);
                    }
                }
            }
        }
        if exists|j: int| 0 <= j < files.len() && #[trigger] files[j].0 == id {
            let j = choose|j: int| 0 <= j < files.len() && #[trigger] files[j].0 == id;
            if j < last {
                assert(before[j].0 == id);
            }
        }
    }
}

/// Of the files that share an identity exactly one is packed as a file:
/// when the files are seen in order, the one at place `i` finds its
/// identity in the cache exactly if an earlier file has the same identity,
/// and what it finds there is the path of the first such file.
pub proof fn lemma_one_file_per_identity(files: Seq<(FileId, Seq<u8>)>, i: int)
    requires
        0 <= i < files.len(),
    ensures
        spec_first_path(cache_after(files.take(i)), files[i].0) is Some <==> exists|j: int|
            0 <= j < i && #[trigger] files[j].0 == files[i].0,
        forall|first: int|
            first < i && is_first_sighting(files, files[i].0, first) ==> spec_first_path(
                cache_after(files.take(i)),
                files[i].0,
            ) == Some(files[first].1),
{
    let seen = files.take(i);
    let id = files[i].0;
    lemma_first_path_wins(seen, id);
    if exists|j: int| 0 <= j < i && #[trigger] files[j].0 == id {
        let j = choose|j: int| 0 <= j < i && #[trigger] files[j].0 == id;
        assert(seen[j].0 == id);
    }
    if exists|j: int| 0 <= j < seen.len() && #[trigger] seen[j].0 == id {
        let j = choose|j: int| 0 <= j < seen.len() && #[trigger] seen[j].0 == id;
        assert(files[j].0 == id);
    }
    assert forall|first: int| first < i && is_first_sighting(files, id, first) implies spec_first_path(
        cache_after(seen),
        id,
    ) == Some(files[first].1) by {
        assert(seen[first].0 == id);
        assert forall|j: int| 0 <= j < first implies seen[j].0 != id by {
            assert(files[j].0 != id);
        }
        assert(is_first_sighting(seen, id, first));
    }
}

} // verus!
