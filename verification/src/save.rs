//! What a save file holds of the store, how a loaded store area is checked, and how the
//! owned chunks are restored from it.
use vstd::prelude::*;
use crate::area::{StoreArea, WorldBounds};
use crate::chunks::{ChunkMap, StoreChunkCoord, StoreChunkData, StoreChunkKind};
use crate::commands::same_layout;
use crate::objects::{BuildObjectId, PlacementKind, StableObjectId, StableObjectIdAllocator};
use crate::overlay::{insert_row_major, row_major_sorted};

verus! {

/// Version number of the save format written by this build.
pub const CURRENT_SAVE_VERSION: u32 = 1;

/// One owned chunk as saved.
#[derive(Debug, Clone, Copy, PartialEq, Eq, Structural)]
pub struct StoreChunkSave {
    pub coord: StoreChunkCoord,
    pub kind: StoreChunkKind,
}

/// The saved store area: its owned chunks.
#[derive(Debug, Clone)]
pub struct StoreSave {
    pub owned_chunks: Vec<StoreChunkSave>,
}

/// Limits on what a save file may hold.
#[derive(Debug, Clone, Copy, PartialEq, Eq, Structural)]
pub struct SaveLoadLimits {
    pub max_objects: usize,
    pub max_chunks: usize,
}

impl Default for SaveLoadLimits {
    /// At most a thousand objects and four hundred chunks.
    fn default() -> (r: SaveLoadLimits)
        ensures
            r == (SaveLoadLimits { max_objects: 1000, max_chunks: 400 }),
    {
        SaveLoadLimits { max_objects: 1000, max_chunks: 400 }
    }
}

/// Something found wrong while loading a save.
#[derive(Debug, Clone)]
pub enum LoadIssue {
    UnknownPrototype(BuildObjectId),
    InvalidRotationIndex { object_id: StableObjectId, rotation_index: usize },
    DuplicateStableObjectId(StableObjectId),
    InvalidChunk(StoreChunkCoord),
    ObjectOutsideStoreArea { object_id: StableObjectId },
    ObjectPlacementInvalid { object_id: StableObjectId },
    AllocatorNextIdTooSmall { save_next: u64, normalized_next: u64 },
    NonFiniteWorldPos { object_id: StableObjectId },
}

/// What a load did and found.
#[derive(Debug, Clone)]
pub struct LoadReport {
    pub loaded_objects: usize,
    pub skipped_objects: usize,
    pub loaded_chunks: usize,
    pub issues: Vec<LoadIssue>,
}

/// Why a save cannot be loaded at all.
#[derive(Debug, Clone)]
pub enum SaveLoadError {
    UnsupportedVersion(u32),
    FatalValidationError(Vec<LoadIssue>),
}

/// The result of checking a saved store area.
#[derive(Debug, Clone)]
pub struct StoreAreaValidationReport {
    pub valid_chunks: Vec<StoreChunkSave>,
    pub issues: Vec<LoadIssue>,
    pub fatal: bool,
}

/// A saved chunk coordinate is usable when both its components lie in -100..=100.
pub open spec fn chunk_coord_in_range(c: StoreChunkCoord) -> bool {
    -100 <= c.x <= 100 && -100 <= c.y <= 100
}

/// The last saved chunk of `s` repeats the coordinate of an earlier one.
pub open spec fn last_coord_repeated(s: Seq<StoreChunkSave>) -> bool {
    exists|j: int| 0 <= j < s.len() - 1 && #[trigger] s[j].coord == s.last().coord
}

/// The saved chunks that a load keeps: the first chunk with each coordinate, when that
/// coordinate is in range; in the order of the save.
pub open spec fn accepted_chunks(s: Seq<StoreChunkSave>) -> Seq<StoreChunkSave>
    decreases s.len(),
{
    if s.len() == 0 {
        Seq::empty()
    } else {
        let rest = accepted_chunks(s.drop_last());
        if last_coord_repeated(s) || !chunk_coord_in_range(s.last().coord) {
            rest
        } else {
            rest.push(s.last())
        }
    }
}

/// The issues a load reports of the saved chunks: one `InvalidChunk` for the first chunk
/// with each coordinate that is out of range; in the order of the save.
pub open spec fn rejected_chunk_issues(s: Seq<StoreChunkSave>) -> Seq<LoadIssue>
    decreases s.len(),
{
    if s.len() == 0 {
        Seq::empty()
    } else {
        let rest = rejected_chunk_issues(s.drop_last());
        if !last_coord_repeated(s) && !chunk_coord_in_range(s.last().coord) {
            rest.push(LoadIssue::InvalidChunk(s.last().coord))
        } else {
            rest
        }
    }
}

/// The saved chunks can be checked without overflow: every coordinate whose magnitude is
/// taken is above `i32::MIN`.
pub open spec fn saved_coords_checkable(s: Seq<StoreChunkSave>) -> bool {
    forall|i: int|
        0 <= i < s.len() ==> (#[trigger] s[i]).coord.x != i32::MIN && (-100 <= s[i].coord.x
            <= 100 ==> s[i].coord.y != i32::MIN)
}

/// Checks a saved store area: duplicate chunks are dropped silently, chunks out of range
/// are dropped with an `InvalidChunk` issue, and nothing is fatal.
pub fn validate_loaded_store_area(
    store_save: &StoreSave,
    _world_bounds: &WorldBounds,
) -> (r: StoreAreaValidationReport)
    requires
        saved_coords_checkable(store_save.owned_chunks@),
    ensures
        r.valid_chunks@ == accepted_chunks(store_save.owned_chunks@),
        r.issues@ == rejected_chunk_issues(store_save.owned_chunks@),
        !r.fatal,
{
    let ghost s = store_save.owned_chunks@;
    let mut valid_chunks: Vec<StoreChunkSave> = Vec::new();
    let mut issues: Vec<LoadIssue> = Vec::new();
    let mut seen: Vec<StoreChunkCoord> = Vec::new();
    let mut i: usize = 0;
    while i < store_save.owned_chunks.len()
        invariant
            s == store_save.owned_chunks@,
            i <= s.len(),
            saved_coords_checkable(s),
            forall|c: StoreChunkCoord| #[trigger] seen@.contains(c) <==> exists|j: int| 0 <= j < i && #[trigger] s[j].coord == c,
            valid_chunks@ == accepted_chunks(s.take(i as int)),
            issues@ == rejected_chunk_issues(s.take(i as int)),
        decreases s.len() - i,
    {
        let chunk = store_save.owned_chunks[i];
        let ghost t = s.take(i as int + 1);
        proof {
            assert(t.drop_last() =~= s.take(i as int));
            assert(t.last() == chunk);
            assert(last_coord_repeated(t) <==> seen@.contains(chunk.coord)) by {
                if seen@.contains(chunk.coord) {
                    let j = choose|j: int| 0 <= j < i && #[trigger] s[j].coord == chunk.coord;
                    assert(t[j].coord == t.last().coord);
                }
                if last_coord_repeated(t) {
                    let j = choose|j: int| 0 <= j < t.len() - 1 && #[trigger] t[j].coord == t.last().coord;
                    assert(s[j].coord == chunk.coord);
                }
            }
        }
        let repeated = crate::chunks::vec_contains(&seen, chunk.coord);
        if !repeated {
            let ghost old_seen = seen@;
            seen.push(chunk.coord);
            proof {
                assert forall|c: StoreChunkCoord| #[trigger] seen@.contains(c) <==> (old_seen.contains(c) || c == chunk.coord) by {
                    if seen@.contains(c) {
                        let k = choose|k: int| 0 <= k < seen@.len() && seen@[k] == c;
                        if k < old_seen.len() {
                            assert(old_seen[k] == c);
                        }
                    }
                    if old_seen.contains(c) {
                        let k = choose|k: int| 0 <= k < old_seen.len() && old_seen[k] == c;
                        assert(seen@[k] == c);
                    }
                    if c == chunk.coord {
                        assert(seen@[seen@.len() - 1] == c);
                    }
                }
                assert forall|c: StoreChunkCoord| #[trigger] seen@.contains(c) <==> exists|j: int| 0 <= j < i + 1 && #[trigger] s[j].coord == c by {
                    if c == chunk.coord {
                        assert(s[i as int].coord == c);
                    }
                    if exists|j: int| 0 <= j < i + 1 && #[trigger] s[j].coord == c {
                        let j = choose|j: int| 0 <= j < i + 1 && #[trigger] s[j].coord == c;
                        if j < i {
                            assert(old_seen.contains(c));
                        }
                    }
                }
            }
            if chunk.coord.x < -100 || chunk.coord.x > 100 || chunk.coord.y < -100 || chunk.coord.y > 100 {
                issues.push(LoadIssue::InvalidChunk(chunk.coord));
            } else {
                valid_chunks.push(chunk);
            }
        } else {
            proof {
                assert forall|c: StoreChunkCoord| #[trigger] seen@.contains(c) <==> exists|j: int| 0 <= j < i + 1 && #[trigger] s[j].coord == c by {
                    if exists|j: int| 0 <= j < i + 1 && #[trigger] s[j].coord == c {
                        let j = choose|j: int| 0 <= j < i + 1 && #[trigger] s[j].coord == c;
                        if j == i {
                            assert(seen@.contains(chunk.coord));
                        }
                    }
                }
            }
        }
        i = i + 1;
    }
    proof {
        assert(s.take(s.len() as int) =~= s);
    }
    StoreAreaValidationReport { valid_chunks, issues, fatal: false }
}

/// The coordinates of a list of saved chunks, in order.
pub open spec fn saved_coords(s: Seq<StoreChunkSave>) -> Seq<StoreChunkCoord> {
    s.map_values(|c: StoreChunkSave| c.coord)
}

/// `s` lists the owned chunks of `owned`, each once, in row-major order, with their kinds.
pub open spec fn save_describes(owned: Map<StoreChunkCoord, StoreChunkData>, s: Seq<StoreChunkSave>) -> bool {
    &&& row_major_sorted(saved_coords(s))
    &&& forall|c: StoreChunkCoord| #[trigger] saved_coords(s).contains(c) <==> owned.contains_key(c)
    &&& forall|i: int| 0 <= i < s.len() ==> owned[(#[trigger] s[i]).coord] == (StoreChunkData { kind: s[i].kind })
}

/// The saved form of the owned chunks of `store`, ordered by row and then by column.
pub fn store_save_from_area(store: &StoreArea) -> (r: StoreSave)
    ensures
        save_describes(store.owned_chunks@, r.owned_chunks@),
{
    let keys = store.owned_chunks.keys();
    let mut sorted: Vec<StoreChunkCoord> = Vec::new();
    let mut i: usize = 0;
    while i < keys.len()
        invariant
            i <= keys@.len(),
            keys@.no_duplicates(),
            keys@.to_set() == store.owned_chunks@.dom(),
            row_major_sorted(sorted@),
            forall|c: StoreChunkCoord| #[trigger] sorted@.contains(c) <==> exists|j: int| 0 <= j < i && #[trigger] keys@[j] == c,
        decreases keys@.len() - i,
    {
        let k = keys[i];
        proof {
            if sorted@.contains(k) {
                let j = choose|j: int| 0 <= j < i && #[trigger] keys@[j] == k;
                assert(keys@[j] == keys@[i as int]);
            }
        }
        insert_row_major(&mut sorted, k);
        proof {
            assert forall|c: StoreChunkCoord| #[trigger] sorted@.contains(c) <==> exists|j: int| 0 <= j < i + 1 && #[trigger] keys@[j] == c by {
                if exists|j: int| 0 <= j < i + 1 && #[trigger] keys@[j] == c {
                    let j = choose|j: int| 0 <= j < i + 1 && #[trigger] keys@[j] == c;
                    if j < i {
                    }
                }
            }
        }
        i = i + 1;
    }
    proof {
        assert forall|c: StoreChunkCoord| #[trigger] sorted@.contains(c) <==> store.owned_chunks@.contains_key(c) by {
            if sorted@.contains(c) {
                let j = choose|j: int| 0 <= j < keys@.len() && #[trigger] keys@[j] == c;
                assert(keys@.contains(c));
                assert(keys@.to_set().contains(c));
            }
            if store.owned_chunks@.contains_key(c) {
                assert(keys@.to_set().contains(c));
                assert(keys@.contains(c));
                let j = choose|j: int| 0 <= j < keys@.len() && keys@[j] == c;
                assert(keys@[j] == c);
            }
        }
    }
    let mut owned_chunks: Vec<StoreChunkSave> = Vec::new();
    let mut n: usize = 0;
    while n < sorted.len()
        invariant
            n <= sorted@.len(),
            owned_chunks@.len() == n,
            forall|c: StoreChunkCoord| #[trigger] sorted@.contains(c) ==> store.owned_chunks@.contains_key(c),
            forall|j: int| 0 <= j < n ==> (#[trigger] owned_chunks@[j]).coord == sorted@[j],
            forall|j: int|
                0 <= j < n ==> store.owned_chunks@[(#[trigger] owned_chunks@[j]).coord] == (StoreChunkData {
                    kind: owned_chunks@[j].kind,
                }),
        decreases sorted@.len() - n,
    {
        let coord = sorted[n];
        proof {
            assert(sorted@.contains(coord));
        }
        let kind = match store.owned_chunks.get(&coord) {
            Some(d) => d.kind,
            None => StoreChunkKind::Default,
        };
        owned_chunks.push(StoreChunkSave { coord, kind });
        n = n + 1;
    }
    proof {
        assert(saved_coords(owned_chunks@) =~= sorted@);
    }
    StoreSave { owned_chunks }
}

/// Entry `a` of `ids` is saved before entry `b`: a smaller id first, equal ids in the
/// order given.
pub open spec fn saved_before(ids: Seq<StableObjectId>, a: int, b: int) -> bool {
    ids[a].0 < ids[b].0 || (ids[a].0 == ids[b].0 && a < b)
}

/// `order` lists every index of `ids` exactly once, in saving order.
pub open spec fn is_save_order(ids: Seq<StableObjectId>, order: Seq<usize>) -> bool {
    &&& order.len() == ids.len()
    &&& forall|k: int| 0 <= k < order.len() ==> #[trigger] order[k] < ids.len()
    &&& forall|a: int, b: int|
        0 <= a < b < order.len() ==> saved_before(ids, #[trigger] order[a] as int, #[trigger] order[b] as int)
}

/// What a save records before the objects' own data: the format version, the id counter,
/// the owned chunks, and the order in which the objects are written.
#[derive(Debug, Clone)]
pub struct SaveOutline {
    pub version: u32,
    pub next_object_id: u64,
    pub store: StoreSave,
    /// Indices into the list of object ids handed to `extract_save_game`.
    pub object_order: Vec<usize>,
}

/// The order in which objects with the ids `ids` are saved: by id, objects with the same
/// id in the order given.
pub fn save_object_order(ids: &Vec<StableObjectId>) -> (order: Vec<usize>)
    ensures
        is_save_order(ids@, order@),
{
    let mut order: Vec<usize> = Vec::new();
    let mut i: usize = 0;
    while i < ids.len()
        invariant
            i <= ids@.len(),
            order@.len() == i,
            forall|k: int| 0 <= k < order@.len() ==> #[trigger] order@[k] < i,
            forall|a: int, b: int|
                0 <= a < b < order@.len() ==> saved_before(ids@, #[trigger] order@[a] as int, #[trigger] order@[b] as int),
        decreases ids@.len() - i,
    {
        let id = ids[i].0;
        let mut p: usize = 0;
        while p < order.len()
            invariant
                p <= order@.len(),
                i < ids@.len(),
                id == ids@[i as int].0,
                forall|k: int| 0 <= k < order@.len() ==> #[trigger] order@[k] < i,
                forall|k: int| 0 <= k < p ==> ids@[#[trigger] order@[k] as int].0 <= id,
            ensures
                p <= order@.len(),
                forall|k: int| 0 <= k < p ==> ids@[#[trigger] order@[k] as int].0 <= id,
                p < order@.len() ==> ids@[order@[p as int] as int].0 > id,
            decreases order@.len() - p,
        {
            if ids[order[p]].0 > id {
                break;
            }
            p = p + 1;
        }
        proof {
            assert forall|k: int| p <= k < order@.len() implies ids@[#[trigger] order@[k] as int].0 > id by {
                if k > p {
                    assert(saved_before(ids@, order@[p as int] as int, order@[k] as int));
                }
            }
        }
        let ghost before = order@;
        order.insert(p, i);
        proof {
            assert forall|a: int, b: int|
                0 <= a < b < order@.len() implies saved_before(ids@, #[trigger] order@[a] as int, #[trigger] order@[b] as int) by {
                if a < p && b > p {
                    assert(order@[a] == before[a]);
                    assert(order@[b] == before[b - 1]);
                    assert(saved_before(ids@, before[a] as int, before[b - 1] as int));
                } else if b < p {
                    assert(order@[a] == before[a]);
                    assert(order@[b] == before[b]);
                } else if a > p {
                    assert(order@[a] == before[a - 1]);
                    assert(order@[b] == before[b - 1]);
                } else if a == p {
                    assert(order@[b] == before[b - 1]);
                } else {
                    assert(order@[a] == before[a]);
                }
            }
        }
        i = i + 1;
    }
    order
}

/// The outline of a save of `store`: the current version, the allocator's counter, the
/// owned chunks in row-major order, and the objects with the ids `object_ids` by id, objects
/// with the same id in the order given.
pub fn extract_save_game(
    store: &StoreArea,
    allocator: &StableObjectIdAllocator,
    object_ids: &Vec<StableObjectId>,
) -> (r: SaveOutline)
    ensures
        r.version == CURRENT_SAVE_VERSION,
        r.next_object_id == allocator.next,
        save_describes(store.owned_chunks@, r.store.owned_chunks@),
        is_save_order(object_ids@, r.object_order@),
{
    SaveOutline {
        version: CURRENT_SAVE_VERSION,
        next_object_id: allocator.next,
        store: store_save_from_area(store),
        object_order: save_object_order(object_ids),
    }
}

/// The owned chunks that a list of saved chunks describes: each coordinate with the kind
/// of its last entry.
pub open spec fn saved_chunk_map(s: Seq<StoreChunkSave>) -> Map<StoreChunkCoord, StoreChunkData>
    decreases s.len(),
{
    if s.len() == 0 {
        Map::empty()
    } else {
        saved_chunk_map(s.drop_last()).insert(s.last().coord, StoreChunkData { kind: s.last().kind })
    }
}

/// Replaces the owned chunks of `store` by those of `valid_chunks`.
pub fn restore_owned_chunks(store: &mut StoreArea, valid_chunks: &Vec<StoreChunkSave>)
    ensures
        same_layout(final(store), old(store)),
        final(store).owned_chunks@ == saved_chunk_map(valid_chunks@),
{
    store.owned_chunks.clear();
    let mut i: usize = 0;
    while i < valid_chunks.len()
        invariant
            i <= valid_chunks@.len(),
            same_layout(store, old(store)),
            store.owned_chunks@ == saved_chunk_map(valid_chunks@.take(i as int)),
        decreases valid_chunks@.len() - i,
    {
        let chunk = valid_chunks[i];
        proof {
            assert(valid_chunks@.take(i as int + 1).drop_last() =~= valid_chunks@.take(i as int));
        }
        store.owned_chunks.insert(chunk.coord, StoreChunkData { kind: chunk.kind });
        i = i + 1;
    }
    proof {
        assert(valid_chunks@.take(valid_chunks@.len() as int) =~= valid_chunks@);
    }
}

proof fn lemma_all_accepted(s: Seq<StoreChunkSave>)
    requires
        saved_coords(s).no_duplicates(),
        forall|i: int| 0 <= i < s.len() ==> chunk_coord_in_range(#[trigger] s[i].coord),
    ensures
        accepted_chunks(s) == s,
        rejected_chunk_issues(s) == Seq::<LoadIssue>::empty(),
    decreases s.len(),
{
    if s.len() > 0 {
        let p = s.drop_last();
        assert(saved_coords(p) =~= saved_coords(s).drop_last());
        assert forall|i: int, j: int| 0 <= i < saved_coords(p).len() && 0 <= j < saved_coords(p).len() && i != j
            implies saved_coords(p)[i] != saved_coords(p)[j] by {
            assert(saved_coords(s)[i] != saved_coords(s)[j]);
        }
        lemma_all_accepted(p);
        assert(!last_coord_repeated(s)) by {
            if last_coord_repeated(s) {
                let j = choose|j: int| 0 <= j < s.len() - 1 && #[trigger] s[j].coord == s.last().coord;
                assert(saved_coords(s)[j] == saved_coords(s)[s.len() - 1]);
            }
        }
        assert(chunk_coord_in_range(s[s.len() - 1].coord));
        assert(p.push(s.last()) =~= s);
    }
}

proof fn lemma_saved_chunk_map(s: Seq<StoreChunkSave>)
    requires
        saved_coords(s).no_duplicates(),
    ensures
        forall|c: StoreChunkCoord| #[trigger] saved_chunk_map(s).contains_key(c) <==> saved_coords(s).contains(c),
        forall|i: int| 0 <= i < s.len() ==> saved_chunk_map(s)[(#[trigger] s[i]).coord] == (StoreChunkData { kind: s[i].kind }),
    decreases s.len(),
{
    if s.len() > 0 {
        let p = s.drop_last();
        assert(saved_coords(p) =~= saved_coords(s).drop_last());
        assert forall|i: int, j: int| 0 <= i < saved_coords(p).len() && 0 <= j < saved_coords(p).len() && i != j
            implies saved_coords(p)[i] != saved_coords(p)[j] by {
            assert(saved_coords(s)[i] != saved_coords(s)[j]);
        }
        lemma_saved_chunk_map(p);
        assert forall|c: StoreChunkCoord| #[trigger] saved_chunk_map(s).contains_key(c) <==> saved_coords(s).contains(c) by {
            if saved_coords(s).contains(c) && c != s.last().coord {
                let k = choose|k: int| 0 <= k < saved_coords(s).len() && saved_coords(s)[k] == c;
                assert(saved_coords(p)[k] == c);
            }
            if saved_coords(p).contains(c) {
                let k = choose|k: int| 0 <= k < saved_coords(p).len() && saved_coords(p)[k] == c;
                assert(saved_coords(s)[k] == c);
            }
            assert(saved_coords(s)[s.len() - 1] == s.last().coord);
        }
        assert forall|i: int| 0 <= i < s.len() implies saved_chunk_map(s)[(#[trigger] s[i]).coord] == (StoreChunkData { kind: s[i].kind }) by {
            if i < s.len() - 1 {
                assert(p[i] == s[i]);
                assert(saved_coords(s)[i] != saved_coords(s)[s.len() - 1]);
            }
        }
    }
}

/// Loading what was saved gives the store back: when every owned chunk lies in the
/// loadable range, checking the saved list keeps every chunk and reports no issue, and
/// restoring the kept chunks yields exactly the owned chunks that were saved.
pub proof fn lemma_save_load_round_trip(owned: Map<StoreChunkCoord, StoreChunkData>, s: Seq<StoreChunkSave>)
    requires
        save_describes(owned, s),
        forall|c: StoreChunkCoord| #[trigger] owned.contains_key(c) ==> chunk_coord_in_range(c),
    ensures
        accepted_chunks(s) == s,
        rejected_chunk_issues(s).len() == 0,
        saved_chunk_map(accepted_chunks(s)) == owned,
{
    let cs = saved_coords(s);
    assert forall|i: int, j: int| 0 <= i < cs.len() && 0 <= j < cs.len() && i != j implies cs[i] != cs[j] by {
        if i < j {
            assert(crate::overlay::row_major_lt(cs[i], cs[j]));
        } else {
            assert(crate::overlay::row_major_lt(cs[j], cs[i]));
        }
    }
    assert forall|i: int| 0 <= i < s.len() implies chunk_coord_in_range(#[trigger] s[i].coord) by {
        assert(cs[i] == s[i].coord);
        assert(cs.contains(s[i].coord));
    }
    lemma_all_accepted(s);
    lemma_saved_chunk_map(s);
    assert forall|c: StoreChunkCoord| #[trigger] saved_chunk_map(s).contains_key(c) <==> owned.contains_key(c) by {}
    assert forall|c: StoreChunkCoord| #[trigger] saved_chunk_map(s).contains_key(c) implies saved_chunk_map(s)[c] == owned[c] by {
        let k = choose|k: int| 0 <= k < cs.len() && cs[k] == c;
        assert(s[k].coord == c);
    }
    assert(saved_chunk_map(s) =~= owned);
}

/// What loading reads of a saved object: its id, how it is placed, and whether every
/// saved coordinate of its placement is a finite number.
#[derive(Debug, Clone, Copy, PartialEq, Eq, Structural)]
pub struct ObjectSave {
    pub id: StableObjectId,
    pub placement_kind: PlacementKind,
    pub coordinates_finite: bool,
}

/// A save as loading reads it.
#[derive(Debug, Clone)]
pub struct SaveGame {
    pub version: u32,
    pub next_object_id: u64,
    pub store: StoreSave,
    pub objects: Vec<ObjectSave>,
}

/// What loading does with one saved object.
#[derive(Debug, Clone)]
pub enum ObjectLoadPlan {
    Spawn(StableObjectId),
    Skip { id: StableObjectId, reason: LoadIssue },
}

/// Everything a load will do, decided before the world is touched.
#[derive(Debug, Clone)]
pub struct LoadPlan {
    pub normalized_next_object_id: u64,
    pub valid_chunks: Vec<StoreChunkSave>,
    /// One plan per saved object, in the order of the save.
    pub object_plans: Vec<ObjectLoadPlan>,
    pub report: LoadReport,
}

/// The issue reported for a saved object whose coordinates are not finite.
pub open spec fn skip_issue(o: ObjectSave) -> LoadIssue {
    match o.placement_kind {
        PlacementKind::Floor => LoadIssue::NonFiniteWorldPos { object_id: o.id },
        PlacementKind::WallMounted => LoadIssue::ObjectPlacementInvalid { object_id: o.id },
    }
}

/// The plan for one saved object: spawn it when its coordinates are finite, else skip it.
pub open spec fn object_plan(o: ObjectSave) -> ObjectLoadPlan {
    if o.coordinates_finite {
        ObjectLoadPlan::Spawn(o.id)
    } else {
        ObjectLoadPlan::Skip { id: o.id, reason: skip_issue(o) }
    }
}

/// The issues of the skipped objects, in the order of the save.
pub open spec fn object_issues(objs: Seq<ObjectSave>) -> Seq<LoadIssue>
    decreases objs.len(),
{
    if objs.len() == 0 {
        Seq::empty()
    } else if objs.last().coordinates_finite {
        object_issues(objs.drop_last())
    } else {
        object_issues(objs.drop_last()).push(skip_issue(objs.last()))
    }
}

/// The largest saved object id, or zero when there is none.
pub open spec fn max_object_id(objs: Seq<ObjectSave>) -> int
    decreases objs.len(),
{
    if objs.len() == 0 {
        0
    } else {
        let m = max_object_id(objs.drop_last());
        if objs.last().id.0 > m {
            objs.last().id.0 as int
        } else {
            m
        }
    }
}

/// The first id, in the order of the save, that repeats an earlier one.
pub open spec fn first_repeated_id(objs: Seq<ObjectSave>) -> Option<StableObjectId>
    decreases objs.len(),
{
    if objs.len() == 0 {
        None
    } else {
        match first_repeated_id(objs.drop_last()) {
            Some(id) => Some(id),
            None => if exists|j: int| 0 <= j < objs.len() - 1 && #[trigger] objs[j].id == objs.last().id {
                Some(objs.last().id)
            } else {
                None
            },
        }
    }
}

/// The counter the allocator continues from: the saved one, raised above every loaded id.
pub open spec fn normalized_next_id(save_next: u64, objs: Seq<ObjectSave>) -> int {
    if save_next > max_object_id(objs) + 1 {
        save_next as int
    } else {
        max_object_id(objs) + 1
    }
}

/// The issue reported when the saved counter had to be raised.
pub open spec fn allocator_issues(save_next: u64, objs: Seq<ObjectSave>) -> Seq<LoadIssue> {
    if normalized_next_id(save_next, objs) > save_next {
        seq![LoadIssue::AllocatorNextIdTooSmall {
            save_next,
            normalized_next: normalized_next_id(save_next, objs) as u64,
        }]
    } else {
        Seq::empty()
    }
}

/// The save passes the version and size checks.
pub open spec fn save_within_limits(save: &SaveGame, limits: SaveLoadLimits) -> bool {
    &&& save.version == CURRENT_SAVE_VERSION
    &&& save.objects@.len() <= limits.max_objects
    &&& save.store.owned_chunks@.len() <= limits.max_chunks
}

/// The checks of `build_load_plan` stay within the integer ranges: chunk magnitudes can be
/// taken, and the counter can be raised above the largest loaded id.
pub open spec fn load_plan_checkable(save: &SaveGame, limits: SaveLoadLimits) -> bool {
    save_within_limits(save, limits) ==> {
        &&& saved_coords_checkable(save.store.owned_chunks@)
        &&& first_repeated_id(save.objects@) is None ==> max_object_id(save.objects@) < u64::MAX
    }
}

proof fn lemma_max_object_id(objs: Seq<ObjectSave>)
    ensures
        0 <= max_object_id(objs),
        forall|i: int| 0 <= i < objs.len() ==> (#[trigger] objs[i]).id.0 <= max_object_id(objs),
        objs.len() > 0 ==> exists|i: int| 0 <= i < objs.len() && (#[trigger] objs[i]).id.0 == max_object_id(objs),
        max_object_id(objs) <= u64::MAX,
    decreases objs.len(),
{
    if objs.len() > 0 {
        let p = objs.drop_last();
        lemma_max_object_id(p);
        assert forall|i: int| 0 <= i < objs.len() implies (#[trigger] objs[i]).id.0 <= max_object_id(objs) by {
            if i < objs.len() - 1 {
                assert(p[i] == objs[i]);
            }
        }
        if objs.last().id.0 > max_object_id(p) {
            assert(objs[objs.len() - 1].id.0 == max_object_id(objs));
        } else if p.len() > 0 {
            let i = choose|i: int| 0 <= i < p.len() && (#[trigger] p[i]).id.0 == max_object_id(p);
            assert(objs[i] == p[i]);
        } else {
            assert(objs[0].id.0 >= 0);
        }
    }
}

proof fn lemma_repeated_id_prefix(objs: Seq<ObjectSave>, k: int)
    requires
        0 <= k <= objs.len(),
        first_repeated_id(objs.take(k)) is Some,
    ensures
        first_repeated_id(objs) == first_repeated_id(objs.take(k)),
    decreases objs.len() - k,
{
    if k < objs.len() {
        let t = objs.take(k + 1);
        assert(t.drop_last() =~= objs.take(k));
        lemma_repeated_id_prefix(objs, k + 1);
    } else {
        assert(objs.take(k) =~= objs);
    }
}

/// Whether `v` holds `x`.
fn ids_contain(v: &Vec<u64>, x: u64) -> (r: bool)
    ensures
        r == v@.contains(x),
{
    let mut i: usize = 0;
    while i < v.len()
        invariant
            i <= v@.len(),
            forall|j: int| 0 <= j < i ==> v@[j] != x,
        decreases v@.len() - i,
    {
        if v[i] == x {
            return true;
        }
        i = i + 1;
    }
    false
}

/// The issue reported for a saved object whose coordinates are not finite.
fn skip_reason(o: &ObjectSave) -> (r: LoadIssue)
    ensures
        r == skip_issue(*o),
{
    match o.placement_kind {
        PlacementKind::Floor => LoadIssue::NonFiniteWorldPos { object_id: o.id },
        PlacementKind::WallMounted => LoadIssue::ObjectPlacementInvalid { object_id: o.id },
    }
}

/// Decides how to load `save`: a save of another version, or with more objects or chunks
/// than `limits` allow, or with a repeated object id, cannot be loaded; otherwise the plan
/// keeps the chunks that `validate_loaded_store_area` accepts, spawns every object whose
/// coordinates are finite and skips the others with an issue, and continues the id counter
/// above every loaded id.
pub fn build_load_plan(
    save: SaveGame,
    limits: &SaveLoadLimits,
    world_bounds: &WorldBounds,
) -> (r: Result<LoadPlan, SaveLoadError>)
    requires
        load_plan_checkable(&save, *limits),
    ensures
        save.version != CURRENT_SAVE_VERSION ==> (r matches Err(SaveLoadError::UnsupportedVersion(v))
            && v == save.version),
        save.version == CURRENT_SAVE_VERSION && !save_within_limits(&save, *limits) ==> (
        r matches Err(SaveLoadError::FatalValidationError(issues)) && issues@.len() == 0),
        save_within_limits(&save, *limits) && first_repeated_id(save.objects@) is Some ==> (
        r matches Err(SaveLoadError::FatalValidationError(issues)) && issues@ == seq![
            LoadIssue::DuplicateStableObjectId(first_repeated_id(save.objects@)->0),
        ]),
        save_within_limits(&save, *limits) && first_repeated_id(save.objects@) is None ==> (
        r matches Ok(plan) && {
            let objs = save.objects@;
            let chunks = save.store.owned_chunks@;
            &&& plan.valid_chunks@ == accepted_chunks(chunks)
            &&& plan.object_plans@ == objs.map_values(|o: ObjectSave| object_plan(o))
            &&& plan.normalized_next_object_id == normalized_next_id(save.next_object_id, objs)
            &&& plan.report.issues@ == rejected_chunk_issues(chunks) + object_issues(objs)
                + allocator_issues(save.next_object_id, objs)
            &&& plan.report.loaded_objects == 0
            &&& plan.report.skipped_objects == plan.report.issues@.len()
            &&& plan.report.loaded_chunks == chunks.len()
            &&& forall|i: int| 0 <= i < objs.len() ==> (#[trigger] objs[i]).id.0 < plan.normalized_next_object_id
        }),
{
    if save.version != CURRENT_SAVE_VERSION {
        return Err(SaveLoadError::UnsupportedVersion(save.version));
    }
    if save.objects.len() > limits.max_objects || save.store.owned_chunks.len() > limits.max_chunks {
        return Err(SaveLoadError::FatalValidationError(Vec::new()));
    }
    let store_report = validate_loaded_store_area(&save.store, world_bounds);
    if store_report.fatal {
        return Err(SaveLoadError::FatalValidationError(store_report.issues));
    }
    let ghost objs = save.objects@;
    let ghost chunk_issues = store_report.issues@;
    let mut issues = store_report.issues;
    let mut seen_ids: Vec<u64> = Vec::new();
    let mut max_loaded_id: u64 = 0;
    let mut object_plans: Vec<ObjectLoadPlan> = Vec::new();
    let mut i: usize = 0;
    while i < save.objects.len()
        invariant
            objs == save.objects@,
            save_within_limits(&save, *limits),
            i <= objs.len(),
            forall|x: u64| #[trigger] seen_ids@.contains(x) <==> exists|j: int| 0 <= j < i && #[trigger] objs[j].id.0 == x,
            first_repeated_id(objs.take(i as int)) is None,
            max_loaded_id == max_object_id(objs.take(i as int)),
            object_plans@ == objs.take(i as int).map_values(|o: ObjectSave| object_plan(o)),
            issues@ == chunk_issues + object_issues(objs.take(i as int)),
        decreases objs.len() - i,
    {
        let obj = save.objects[i];
        let ghost t = objs.take(i as int + 1);
        proof {
            assert(t.drop_last() =~= objs.take(i as int));
            assert(t.last() == obj);
        }
        if ids_contain(&seen_ids, obj.id.0) {
            proof {
                let j = choose|j: int| 0 <= j < i && #[trigger] objs[j].id.0 == obj.id.0;
                assert(t[j].id == t.last().id);
                assert(first_repeated_id(t) == Some(obj.id));
                lemma_repeated_id_prefix(objs, i as int + 1);
            }
            let mut dup: Vec<LoadIssue> = Vec::new();
            dup.push(LoadIssue::DuplicateStableObjectId(obj.id));
            return Err(SaveLoadError::FatalValidationError(dup));
        }
        proof {
            assert(!(exists|j: int| 0 <= j < t.len() - 1 && #[trigger] t[j].id == t.last().id)) by {
                if exists|j: int| 0 <= j < t.len() - 1 && #[trigger] t[j].id == t.last().id {
                    let j = choose|j: int| 0 <= j < t.len() - 1 && #[trigger] t[j].id == t.last().id;
                    assert(objs[j].id.0 == obj.id.0);
                    assert(seen_ids@.contains(obj.id.0));
                }
            }
        }
        let ghost old_seen = seen_ids@;
        seen_ids.push(obj.id.0);
        proof {
            assert forall|x: u64| #[trigger] seen_ids@.contains(x) <==> exists|j: int| 0 <= j < i + 1 && #[trigger] objs[j].id.0 == x by {
                if seen_ids@.contains(x) {
                    let k = choose|k: int| 0 <= k < seen_ids@.len() && seen_ids@[k] == x;
                    if k < old_seen.len() {
                        assert(old_seen[k] == x);
                        assert(old_seen.contains(x));
                    } else {
                        assert(objs[i as int].id.0 == x);
                    }
                }
                if exists|j: int| 0 <= j < i + 1 && #[trigger] objs[j].id.0 == x {
                    let j = choose|j: int| 0 <= j < i + 1 && #[trigger] objs[j].id.0 == x;
                    if j < i {
                        assert(old_seen.contains(x));
                        let k = choose|k: int| 0 <= k < old_seen.len() && old_seen[k] == x;
                        assert(seen_ids@[k] == x);
                    } else {
                        assert(seen_ids@[old_seen.len() as int] == x);
                    }
                }
            }
        }
        if obj.id.0 > max_loaded_id {
            max_loaded_id = obj.id.0;
        }
        if !obj.coordinates_finite {
            issues.push(skip_reason(&obj));
            object_plans.push(ObjectLoadPlan::Skip { id: obj.id, reason: skip_reason(&obj) });
        } else {
            object_plans.push(ObjectLoadPlan::Spawn(obj.id));
        }
        proof {
            assert(object_plans@ =~= t.map_values(|o: ObjectSave| object_plan(o)));
            assert(issues@ =~= chunk_issues + object_issues(t));
        }
        i = i + 1;
    }
    proof {
        assert(objs.take(objs.len() as int) =~= objs);
        lemma_max_object_id(objs);
    }
    let next_from_ids: u64 = max_loaded_id + 1;
    let normalized_next_object_id: u64 = if save.next_object_id > next_from_ids {
        save.next_object_id
    } else {
        next_from_ids
    };
    if normalized_next_object_id > save.next_object_id {
        issues.push(
            LoadIssue::AllocatorNextIdTooSmall {
                save_next: save.next_object_id,
                normalized_next: normalized_next_object_id,
            },
        );
    }
    proof {
        assert(issues@ =~= rejected_chunk_issues(save.store.owned_chunks@) + object_issues(objs)
            + allocator_issues(save.next_object_id, objs));
    }
    let skipped_objects = issues.len();
    Ok(
        LoadPlan {
            normalized_next_object_id,
            valid_chunks: store_report.valid_chunks,
            object_plans,
            report: LoadReport {
                loaded_objects: 0,
                skipped_objects,
                loaded_chunks: save.store.owned_chunks.len(),
                issues,
            },
        },
    )
}

/// After a load, the allocator hands out none of the loaded ids: every id allocated from
/// the normalized counter lies above every loaded object id.
pub proof fn lemma_loaded_ids_never_reallocated(save_next: u64, objs: Seq<ObjectSave>, i: int, k: nat)
    requires
        0 <= i < objs.len(),
    ensures
        objs[i].id.0 < normalized_next_id(save_next, objs) + k,
{
    lemma_max_object_id(objs);
}

} // verus!
