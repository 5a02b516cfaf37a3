//! The folder-path mapping cache.
//!
//! A `FolderMapping` keeps one row per known directory — its name and parent
//! reference — and reconstructs full paths on demand by walking parent
//! references up to the volume root.  Resolved paths go through a bounded
//! least-recently-used cache; a mapping change for a reference evicts that
//! reference's cached path (and only that one: paths of descendants that
//! embed a renamed ancestor's old name may stay until they are evicted by
//! pressure, a deliberate staleness window).

use std::collections::HashMap;
use std::collections::hash_map::RandomState;

use lru::LruCache;
use vstd::prelude::*;
use vstd::string::StringExecFns;

use crate::reference::{spec_entry_of, spec_frn, EntryReference};

verus! {

broadcast use vstd::std_specs::hash::group_hash_axioms;

#[verifier::external_type_specification]
#[verifier::external_body]
#[verifier::reject_recursive_types(K)]
#[verifier::reject_recursive_types(V)]
#[verifier::reject_recursive_types(S)]
pub struct ExLruCache<K, V, S>(LruCache<K, V, S>);

/// The key-to-value contents of a path cache, recency aside.
pub uninterp spec fn lru_contents(c: LruCache<u64, String, RandomState>) -> Map<u64, Seq<char>>;

/// A path-cache contents map with nothing in it.
pub open spec fn empty_path_map() -> Map<u64, Seq<char>> {
    Map::empty()
}

/// The capacity a path cache was created with.
pub uninterp spec fn lru_capacity(c: LruCache<u64, String, RandomState>) -> usize;

/// Relies on `lru::LruCache::with_hasher`: a fresh cache is empty and holds
/// at most `cap` entries.
#[verifier::external_body]
fn cache_new(cap: usize) -> (c: LruCache<u64, String, RandomState>)
    requires
        1 <= cap,
    ensures
        lru_contents(c) == empty_path_map(),
        lru_capacity(c) == cap,
{
    LruCache::with_hasher(core::num::NonZeroUsize::new(cap).unwrap(), RandomState::new())
}

/// Relies on `lru::LruCache::get`: hands back the cached value for the key;
/// only recency changes, never the contents.
#[verifier::external_body]
fn cache_get(c: &mut LruCache<u64, String, RandomState>, k: u64) -> (r: Option<String>)
    ensures
        lru_contents(*final(c)) == lru_contents(*old(c)),
        lru_capacity(*final(c)) == lru_capacity(*old(c)),
        (match r {
            Some(v) => lru_contents(*old(c)).contains_key(k) && v@ == lru_contents(*old(c))[k],
            None => !lru_contents(*old(c)).contains_key(k),
        }),
{
    c.get(&k).cloned()
}

/// Relies on `lru::LruCache::put`: stores the pair; when the key is new and
/// the cache is already full, the least-recently-used entry leaves to make
/// room, so every surviving key other than the stored one keeps its value.
#[verifier::external_body]
fn cache_put(c: &mut LruCache<u64, String, RandomState>, k: u64, v: String)
    ensures
        lru_capacity(*final(c)) == lru_capacity(*old(c)),
        (lru_contents(*old(c)).contains_key(k) || lru_contents(*old(c)).dom().len()
            < lru_capacity(*old(c))) ==> lru_contents(*final(c)) == lru_contents(*old(c)).insert(
            k,
            v@,
        ),
        !(lru_contents(*old(c)).contains_key(k) || lru_contents(*old(c)).dom().len()
            < lru_capacity(*old(c))) ==> (exists|e: u64|
            e != k && lru_contents(*old(c)).contains_key(e) && lru_contents(*final(c))
                == lru_contents(*old(c)).remove(e).insert(k, v@)),
{
    c.put(k, v);
}

/// Relies on `lru::LruCache::pop`: removes the entry for the key and hands
/// back its value.
#[verifier::external_body]
fn cache_pop(c: &mut LruCache<u64, String, RandomState>, k: u64) -> (r: Option<String>)
    ensures
        lru_capacity(*final(c)) == lru_capacity(*old(c)),
        lru_contents(*final(c)) == lru_contents(*old(c)).remove(k),
        (match r {
            Some(v) => lru_contents(*old(c)).contains_key(k) && v@ == lru_contents(*old(c))[k],
            None => !lru_contents(*old(c)).contains_key(k),
        }),
{
    c.pop(&k)
}

/// One directory's known name and parent at a point in time.
#[derive(Debug, Clone)]
pub struct EntryMapping {
    pub name: String,
    pub parent: EntryReference,
}

/// The directory-reference table and the bounded cache of resolved paths.
pub struct FolderMapping {
    mapping: HashMap<u64, EntryMapping>,
    cache: LruCache<u64, String, RandomState>,
    lookups: u64,
}

impl FolderMapping {
    /// The mapping table: packed directory reference to name-and-parent row.
    pub closed spec fn table(&self) -> Map<u64, EntryMapping> {
        self.mapping@
    }

    /// The resolved-path cache contents.
    pub closed spec fn cached(&self) -> Map<u64, Seq<char>> {
        lru_contents(self.cache)
    }

    /// How many mapping-table lookups path resolution has performed; the
    /// counter saturates rather than wrap.
    pub closed spec fn lookup_count(&self) -> u64 {
        self.lookups
    }

    /// An empty table with an empty cache of one hundred path slots.
    pub fn new() -> (r: Self)
        ensures
            r.table() == Map::<u64, EntryMapping>::empty(),
            r.cached() == empty_path_map(),
            r.lookup_count() == 0,
    {
        let mapping: HashMap<u64, EntryMapping> = HashMap::new();
        let cache: LruCache<u64, String, RandomState> = cache_new(100);
        FolderMapping { mapping, cache, lookups: 0 }
    }

    pub fn contains_reference(&self, entry_reference: &EntryReference) -> (r: bool)
        ensures
            r == self.table().contains_key(spec_frn(*entry_reference)),
    {
        self.mapping.contains_key(&entry_reference.to_frn())
    }

    /// Removes the row for the reference; the reference's cached path leaves
    /// with it so a later resolution cannot see the retired identity.
    pub fn remove_mapping(&mut self, entry_reference: EntryReference)
        ensures
            final(self).table() == old(self).table().remove(spec_frn(entry_reference)),
            final(self).cached() == old(self).cached().remove(spec_frn(entry_reference)),
            final(self).lookup_count() == old(self).lookup_count(),
    {
        let frn = entry_reference.to_frn();
        let _ = cache_pop(&mut self.cache, frn);
        self.mapping.remove(&frn);
    }

    /// How many mapping-table lookups path resolution has performed so far.
    pub fn mapping_lookups(&self) -> (r: u64)
        ensures
            r == self.lookup_count(),
    {
        self.lookups
    }

    /// Adds or overwrites the row for the reference and evicts the
    /// reference's cached path so it is re-resolved under the new mapping.
    pub fn add_mapping(&mut self, entry_reference: EntryReference, name: String,
        parent: EntryReference)
        ensures
            final(self).table() == old(self).table().insert(
                spec_frn(entry_reference),
                (EntryMapping { name, parent }),
            ),
            final(self).cached() == old(self).cached().remove(spec_frn(entry_reference)),
            final(self).lookup_count() == old(self).lookup_count(),
    {
        let frn = entry_reference.to_frn();
        let entry_map = EntryMapping { name, parent };
        let _ = cache_pop(&mut self.cache, frn);
        self.mapping.insert(frn, entry_map);
    }
}

/// The segment a resolved path starts with at the volume root.
pub open spec fn root_label() -> Seq<char> {
    "[root]"@
}

/// The placeholder segment for a reference missing from the table.
pub open spec fn unknown_label() -> Seq<char> {
    "[<unknown>]"@
}

/// The fail-closed segment for a parent chain that loops back on itself.
pub open spec fn corrupt_label() -> Seq<char> {
    "[<corrupt>]"@
}

/// The segments of the path of `frn` under table `m`, root first: the walk
/// follows parent references until it reaches the fixed root entry number 5,
/// falls back to a placeholder for a missing reference, and fails closed on a
/// reference seen before.
pub open spec fn spec_path_segments(m: Map<u64, EntryMapping>, frn: u64, visited: Set<u64>)
    -> Seq<Seq<char>>
    decreases m.dom().difference(visited).len()
        when m.dom().finite() && visited.finite()
        via spec_path_segments_decreases
{
    if spec_entry_of(frn) == 5 {
        seq![root_label()]
    } else if !m.contains_key(frn) {
        seq![unknown_label()]
    } else if visited.contains(frn) {
        seq![corrupt_label()]
    } else {
        spec_path_segments(m, spec_frn(m[frn].parent), visited.insert(frn)) + seq![m[frn].name@]
    }
}

#[via_fn]
proof fn spec_path_segments_decreases(m: Map<u64, EntryMapping>, frn: u64, visited: Set<u64>) {
    if spec_entry_of(frn) != 5 && m.contains_key(frn) && !visited.contains(frn) {
        assert(m.dom().difference(visited.insert(frn)) =~= m.dom().difference(visited).remove(
            frn,
        ));
        assert(m.dom().difference(visited).contains(frn));
    }
}

/// Path segments joined with a slash.
pub open spec fn spec_join_path(segments: Seq<Seq<char>>) -> Seq<char>
    decreases segments.len(),
{
    if segments.len() == 0 {
        Seq::empty()
    } else if segments.len() == 1 {
        segments[0]
    } else {
        spec_join_path(segments.drop_last()) + seq!['/'] + segments.last()
    }
}

/// The full resolved path of `frn` under table `m`.
pub open spec fn spec_full_path(m: Map<u64, EntryMapping>, frn: u64) -> Seq<char> {
    spec_join_path(spec_path_segments(m, frn, Set::empty()))
}

/// The string one path resolution returns, given the table and the cache it
/// starts from: the cached string when one is present — even a stale one —
/// and the freshly walked path otherwise.
pub open spec fn spec_resolved_path(m: Map<u64, EntryMapping>, cache0: Map<u64, Seq<char>>,
    frn: u64) -> Seq<char> {
    if cache0.contains_key(frn) {
        cache0[frn]
    } else {
        spec_full_path(m, frn)
    }
}

/// What one `enumerate_path` call does, as a relation between the state
/// before (`cache0`, `lookups0`) and after (`cache1`, `lookups1`): the
/// returned path is `spec_resolved_path`; a cache hit touches nothing, and a
/// miss caches the resolved path while every other surviving cache entry
/// keeps its value.
pub open spec fn spec_enumerate_post(
    m: Map<u64, EntryMapping>,
    cache0: Map<u64, Seq<char>>,
    cache1: Map<u64, Seq<char>>,
    lookups0: u64,
    lookups1: u64,
    frn: u64,
    path: Seq<char>,
) -> bool {
    &&& path == spec_resolved_path(m, cache0, frn)
    &&& if cache0.contains_key(frn) {
        &&& cache1 == cache0
        &&& lookups1 == lookups0
    } else {
        &&& cache1.contains_key(frn)
        &&& cache1[frn] == path
        &&& forall|j: u64|
            cache1.contains_key(j) && j != frn ==> cache0.contains_key(j) && cache1[j]
                == cache0[j]
    }
}

fn vec_contains(v: &Vec<u64>, x: u64) -> (r: bool)
    ensures
        r == v@.contains(x),
{
    let mut i: usize = 0;
    while i < v.len()
        invariant
            i <= v@.len(),
            forall|j: int| 0 <= j < i ==> v@[j] != x,
        decreases v@.len() - i,
    {
        if v[i] == x {
            return true;
        }
        i += 1;
    }
    false
}

impl FolderMapping {
    /// Resolves the full path of the given reference: the cached string if
    /// one is present, otherwise the root-first walk over the mapping table,
    /// joined with slashes and cached before it is returned.
    pub fn enumerate_path(&mut self, entry: u64, sequence: u16) -> (r: Option<String>)
        ensures
            final(self).table() == old(self).table(),
            r matches Some(path) && spec_enumerate_post(
                old(self).table(),
                old(self).cached(),
                final(self).cached(),
                old(self).lookup_count(),
                final(self).lookup_count(),
                spec_frn((EntryReference { entry, sequence })),
                path@,
            ),
    {
        let lookup_ref = EntryReference { entry, sequence };
        let frn = lookup_ref.to_frn();
        let cached_path = cache_get(&mut self.cache, frn);
        match cached_path {
            Some(full_path) => Some(full_path),
            None => {
                let ghost m = self.mapping@;
                let ghost cache0 = lru_contents(self.cache);
                let mut parts: Vec<String> = Vec::new();
                let mut cur: u64 = frn;
                let mut visited: Vec<u64> = Vec::new();
                let ghost mut vis = Set::<u64>::empty();
                loop
                    invariant_except_break
                        self.mapping@ == m,
                        lru_contents(self.cache) == cache0,
                        vis.finite(),
                        forall|k: u64| vis.contains(k) <==> visited@.contains(k),
                        spec_path_segments(m, frn, Set::empty()) == spec_path_segments(
                            m,
                            cur,
                            vis,
                        ) + parts@.map_values(|s: String| s@),
                    ensures
                        self.mapping@ == m,
                        lru_contents(self.cache) == cache0,
                        parts@.map_values(|s: String| s@) == spec_path_segments(
                            m,
                            frn,
                            Set::empty(),
                        ),
                        parts@.len() >= 1,
                    decreases m.dom().difference(vis).len(),
                {
                    let ghost old_views = parts@.map_values(|s: String| s@);
                    if cur % 0x1_0000_0000_0000 == 5 {
                        parts.insert(0, "[root]".to_owned());
                        proof {
                            assert(parts@.map_values(|s: String| s@) =~= seq![root_label()]
                                + old_views);
                        }
                        break ;
                    }
                    let looked = self.mapping.get(&cur);
                    if self.lookups < u64::MAX {
                        self.lookups = self.lookups + 1;
                    }
                    match looked {
                        None => {
                            parts.insert(0, "[<unknown>]".to_owned());
                            proof {
                                assert(parts@.map_values(|s: String| s@) =~= seq![unknown_label()]
                                    + old_views);
                            }
                            break ;
                        },
                        Some(folder_map) => {
                            if vec_contains(&visited, cur) {
                                parts.insert(0, "[<corrupt>]".to_owned());
                                proof {
                                    assert(parts@.map_values(|s: String| s@) =~= seq![
                                        corrupt_label(),
                                    ] + old_views);
                                }
                                break ;
                            }
                            let parent_frn = folder_map.parent.to_frn();
                            parts.insert(0, folder_map.name.clone());
                            let ghost prev_visited = visited@;
                            visited.push(cur);
                            proof {
                                broadcast use vstd::seq_lib::lemma_seq_contains_after_push;

                                assert(visited@ == prev_visited.push(cur));
                                assert(spec_path_segments(m, cur, vis) == spec_path_segments(
                                    m,
                                    parent_frn,
                                    vis.insert(cur),
                                ) + seq![m[cur].name@]);
                                assert(parts@.map_values(|s: String| s@) =~= seq![m[cur].name@]
                                    + old_views);
                                assert(m.dom().difference(vis.insert(cur)) =~= m.dom().difference(
                                    vis,
                                ).remove(cur));
                                assert(m.dom().difference(vis).contains(cur));
                                vis = vis.insert(cur);
                            }
                            cur = parent_frn;
                        },
                    }
                }
                let ghost segments = parts@.map_values(|s: String| s@);
                let count = parts.len();
                let mut full_path = parts[0].clone();
                let mut i: usize = 1;
                while i < count
                    invariant
                        1 <= i <= count,
                        count == parts@.len(),
                        segments == parts@.map_values(|s: String| s@),
                        full_path@ == spec_join_path(segments.take(i as int)),
                    decreases count - i,
                {
                    full_path.append("/");
                    full_path.append(parts[i].as_str());
                    proof {
                        let t = segments.take(i + 1);
                        assert(t.drop_last() =~= segments.take(i as int));
                        assert(t.last() == segments[i as int]);
                        assert(spec_join_path(t) == spec_join_path(t.drop_last()) + seq!['/']
                            + t.last());
                        assert("/"@ =~= seq!['/']) by {
                            reveal_strlit("/");
                        }
                    }
                    i += 1;
                }
                proof {
                    assert(segments.take(count as int) =~= segments);
                }
                cache_put(&mut self.cache, frn, full_path.clone());
                Some(full_path)
            },
        }
    }
}

/// Resolving the same unchanged reference twice in a row returns the same
/// string both times, and the second resolution neither touches the cache nor
/// performs any mapping-table lookup.
pub proof fn lemma_enumerate_path_idempotent(
    m: Map<u64, EntryMapping>,
    cache0: Map<u64, Seq<char>>,
    cache1: Map<u64, Seq<char>>,
    cache2: Map<u64, Seq<char>>,
    lookups0: u64,
    lookups1: u64,
    lookups2: u64,
    frn: u64,
    path1: Seq<char>,
    path2: Seq<char>,
)
    requires
        spec_enumerate_post(m, cache0, cache1, lookups0, lookups1, frn, path1),
        spec_enumerate_post(m, cache1, cache2, lookups1, lookups2, frn, path2),
    ensures
        path2 == path1,
        cache2 == cache1,
        lookups2 == lookups1,
{
}

} // verus!
