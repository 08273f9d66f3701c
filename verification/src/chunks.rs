//! Chunk coordinates of the store grid and the basic grid relations.
use vstd::prelude::*;

verus! {

/// Integer coordinate of one chunk of the store grid.
#[derive(Debug, Clone, Copy, PartialEq, Eq, Hash, Structural)]
pub struct StoreChunkCoord {
    pub x: i32,
    pub y: i32,
}

/// `c` lies at least `margin` steps away from the ends of the `i32` range on both axes.
pub open spec fn coord_within_margin(c: StoreChunkCoord, margin: int) -> bool {
    &&& i32::MIN + margin <= c.x <= i32::MAX - margin
    &&& i32::MIN + margin <= c.y <= i32::MAX - margin
}

/// `a` and `b` share a side: they differ by one step on exactly one axis.
pub open spec fn side_adjacent(a: StoreChunkCoord, b: StoreChunkCoord) -> bool {
    ||| (a.y == b.y && (a.x - b.x == 1 || b.x - a.x == 1))
    ||| (a.x == b.x && (a.y - b.y == 1 || b.y - a.y == 1))
}

/// The four side neighbours of `coord`: left, right, below, above (in that order).
pub fn side_neighbors(coord: StoreChunkCoord) -> (r: [StoreChunkCoord; 4])
    requires
        coord_within_margin(coord, 1),
    ensures
        r@ == seq![
            StoreChunkCoord { x: (coord.x - 1) as i32, y: coord.y },
            StoreChunkCoord { x: (coord.x + 1) as i32, y: coord.y },
            StoreChunkCoord { x: coord.x, y: (coord.y - 1) as i32 },
            StoreChunkCoord { x: coord.x, y: (coord.y + 1) as i32 },
        ],
        forall|n: StoreChunkCoord| r@.contains(n) <==> side_adjacent(coord, n),
{
    let r = [
        StoreChunkCoord { x: coord.x - 1, y: coord.y },
        StoreChunkCoord { x: coord.x + 1, y: coord.y },
        StoreChunkCoord { x: coord.x, y: coord.y - 1 },
        StoreChunkCoord { x: coord.x, y: coord.y + 1 },
    ];
    assert forall|n: StoreChunkCoord| r@.contains(n) <==> side_adjacent(coord, n) by {
        if side_adjacent(coord, n) {
            if n.y == coord.y && n.x == coord.x - 1 {
                assert(r@[0] == n);
            } else if n.y == coord.y && n.x == coord.x + 1 {
                assert(r@[1] == n);
            } else if n.x == coord.x && n.y == coord.y - 1 {
                assert(r@[2] == n);
            } else {
                assert(r@[3] == n);
            }
        }
    }
    r
}

} // verus!

verus! {

/// Kind of a purchasable store chunk.
#[derive(Debug, Clone, Copy, PartialEq, Eq, Hash, Structural)]
pub enum StoreChunkKind {
    Default,
}

/// Data held for each owned chunk.
#[derive(Debug, Clone, Copy, PartialEq, Eq, Structural)]
pub struct StoreChunkData {
    pub kind: StoreChunkKind,
}

/// `s` names no chunk coordinate twice.
pub open spec fn unique_keys(s: Seq<(StoreChunkCoord, StoreChunkData)>) -> bool {
    forall|i: int, j: int|
        0 <= i < s.len() && 0 <= j < s.len() && i != j ==> #[trigger] s[i].0 != #[trigger] s[j].0
}

/// Some entry of `s` has coordinate `k`.
pub open spec fn has_key(s: Seq<(StoreChunkCoord, StoreChunkData)>, k: StoreChunkCoord) -> bool {
    exists|i: int| 0 <= i < s.len() && #[trigger] s[i].0 == k
}

/// The index of an entry of `s` with coordinate `k`.
pub open spec fn key_index(s: Seq<(StoreChunkCoord, StoreChunkData)>, k: StoreChunkCoord) -> int {
    choose|i: int| 0 <= i < s.len() && #[trigger] s[i].0 == k
}

/// The map described by a list of entries with distinct coordinates.
pub open spec fn entries_map(s: Seq<(StoreChunkCoord, StoreChunkData)>) -> Map<
    StoreChunkCoord,
    StoreChunkData,
> {
    Map::new(|k: StoreChunkCoord| has_key(s, k), |k: StoreChunkCoord| s[key_index(s, k)].1)
}

/// The coordinates of a list of entries, in order.
pub open spec fn entry_keys(s: Seq<(StoreChunkCoord, StoreChunkData)>) -> Seq<StoreChunkCoord> {
    s.map_values(|e: (StoreChunkCoord, StoreChunkData)| e.0)
}

proof fn lemma_entries_map_at(s: Seq<(StoreChunkCoord, StoreChunkData)>, i: int)
    requires
        unique_keys(s),
        0 <= i < s.len(),
    ensures
        entries_map(s).contains_key(s[i].0),
        entries_map(s)[s[i].0] == s[i].1,
{
    assert(has_key(s, s[i].0));
    let j = key_index(s, s[i].0);
    assert(s[j].0 == s[i].0);
}

proof fn lemma_entries_map_domain(s: Seq<(StoreChunkCoord, StoreChunkData)>)
    requires
        unique_keys(s),
    ensures
        entries_map(s).dom() == entry_keys(s).to_set(),
        entry_keys(s).no_duplicates(),
        entries_map(s).dom().finite(),
        entries_map(s).dom().len() == s.len(),
{
    let ks = entry_keys(s);
    assert forall|k: StoreChunkCoord| entries_map(s).dom().contains(k) <==> ks.to_set().contains(k) by {
        if has_key(s, k) {
            let i = choose|i: int| 0 <= i < s.len() && #[trigger] s[i].0 == k;
            assert(ks[i] == k);
        }
        if ks.contains(k) {
            let i = choose|i: int| 0 <= i < ks.len() && ks[i] == k;
            assert(s[i].0 == k);
        }
    }
    assert(entries_map(s).dom() =~= ks.to_set());
    assert forall|i: int, j: int| 0 <= i < ks.len() && 0 <= j < ks.len() && i != j implies ks[i]
        != ks[j] by {
        assert(s[i].0 != s[j].0);
    }
    ks.unique_seq_to_set();
    vstd::seq_lib::seq_to_set_is_finite(ks);
}

proof fn lemma_entries_map_finite(s: Seq<(StoreChunkCoord, StoreChunkData)>)
    ensures
        entries_map(s).dom().finite(),
{
    let ks = entry_keys(s);
    assert forall|k: StoreChunkCoord| entries_map(s).dom().contains(k) <==> ks.to_set().contains(k) by {
        if has_key(s, k) {
            let i = choose|i: int| 0 <= i < s.len() && #[trigger] s[i].0 == k;
            assert(ks[i] == k);
        }
        if ks.contains(k) {
            let i = choose|i: int| 0 <= i < ks.len() && ks[i] == k;
            assert(s[i].0 == k);
        }
    }
    assert(entries_map(s).dom() =~= ks.to_set());
    vstd::seq_lib::seq_to_set_is_finite(ks);
}

/// The owned chunks of a store: a finite map from chunk coordinate to chunk data.
pub struct ChunkMap {
    entries: Vec<(StoreChunkCoord, StoreChunkData)>,
}

impl ChunkMap {
    #[verifier::type_invariant]
    spec fn inv(self) -> bool {
        unique_keys(self.entries@)
    }

    /// The chunks as a map from coordinate to data.
    pub closed spec fn view(&self) -> Map<StoreChunkCoord, StoreChunkData> {
        entries_map(self.entries@)
    }

    /// A chunk map holds finitely many chunks.
    pub proof fn lemma_finite(&self)
        ensures
            self@.dom().finite(),
    {
        lemma_entries_map_finite(self.entries@);
    }

    /// An empty map.
    pub fn new() -> (r: Self)
        ensures
            r@ == Map::<StoreChunkCoord, StoreChunkData>::empty(),
    {
        let r = ChunkMap { entries: Vec::new() };
        assert(r@ =~= Map::<StoreChunkCoord, StoreChunkData>::empty());
        r
    }

    /// Index of the entry with coordinate `k`, if there is one.
    fn find(&self, k: StoreChunkCoord) -> (r: Option<usize>)
        ensures
            match r {
                Some(i) => i < self.entries@.len() && self.entries@[i as int].0 == k,
                None => !has_key(self.entries@, k),
            },
    {
        let mut i: usize = 0;
        while i < self.entries.len()
            invariant
                i <= self.entries@.len(),
                forall|j: int| 0 <= j < i ==> #[trigger] self.entries@[j].0 != k,
            decreases self.entries@.len() - i,
        {
            if self.entries[i].0 == k {
                return Some(i);
            }
            i = i + 1;
        }
        None
    }

    /// Number of owned chunks.
    pub fn len(&self) -> (r: usize)
        ensures
            r == self@.dom().len(),
            self@.dom().finite(),
    {
        proof {
            use_type_invariant(self);
            lemma_entries_map_domain(self.entries@);
        }
        self.entries.len()
    }

    /// True when no chunk is owned.
    pub fn is_empty(&self) -> (r: bool)
        ensures
            r == (self@.dom() == Set::<StoreChunkCoord>::empty()),
    {
        proof {
            use_type_invariant(self);
            if self.entries@.len() > 0 {
                lemma_entries_map_at(self.entries@, 0);
            } else {
                assert(self@.dom() =~= Set::<StoreChunkCoord>::empty());
            }
        }
        self.entries.len() == 0
    }

    /// Whether coordinate `k` is owned.
    pub fn contains_key(&self, k: &StoreChunkCoord) -> (r: bool)
        ensures
            r == self@.contains_key(*k),
    {
        match self.find(*k) {
            Some(_) => true,
            None => false,
        }
    }

    /// The data of chunk `k`, if it is owned.
    pub fn get(&self, k: &StoreChunkCoord) -> (r: Option<&StoreChunkData>)
        ensures
            match r {
                Some(d) => self@.contains_key(*k) && self@[*k] == *d,
                None => !self@.contains_key(*k),
            },
    {
        proof {
            use_type_invariant(self);
        }
        match self.find(*k) {
            Some(i) => {
                proof {
                    lemma_entries_map_at(self.entries@, i as int);
                }
                Some(&self.entries[i].1)
            },
            None => None,
        }
    }

    /// Sets the data of chunk `k`; returns the data it replaced, if any.
    pub fn insert(&mut self, k: StoreChunkCoord, d: StoreChunkData) -> (r: Option<StoreChunkData>)
        ensures
            final(self)@ == old(self)@.insert(k, d),
            match r {
                Some(old_d) => old(self)@.contains_key(k) && old(self)@[k] == old_d,
                None => !old(self)@.contains_key(k),
            },
    {
        proof {
            use_type_invariant(&*self);
        }
        let ghost old_s = self.entries@;
        match self.find(k) {
            Some(i) => {
                proof {
                    lemma_entries_map_at(old_s, i as int);
                }
                let old_d = self.entries[i].1;
                let mut entries: Vec<(StoreChunkCoord, StoreChunkData)> = Vec::new();
                std::mem::swap(&mut entries, &mut self.entries);
                entries.set(i, (k, d));
                proof {
                    let s = entries@;
                    assert(unique_keys(s)) by {
                        assert forall|a: int, b: int|
                            0 <= a < s.len() && 0 <= b < s.len() && a != b implies #[trigger] s[a].0
                            != #[trigger] s[b].0 by {
                            assert(old_s[a].0 != old_s[b].0);
                        }
                    }
                }
                self.entries = entries;
                proof {
                    let s = self.entries@;
                    assert(unique_keys(s)) by {
                        assert forall|a: int, b: int|
                            0 <= a < s.len() && 0 <= b < s.len() && a != b implies #[trigger] s[a].0
                            != #[trigger] s[b].0 by {
                            assert(old_s[a].0 != old_s[b].0);
                        }
                    }
                    assert forall|c: StoreChunkCoord| #[trigger] has_key(s, c) == has_key(old_s, c) by {
                        if has_key(old_s, c) {
                            let j = choose|j: int| 0 <= j < old_s.len() && #[trigger] old_s[j].0 == c;
                            assert(s[j].0 == c);
                        }
                        if has_key(s, c) {
                            let j = choose|j: int| 0 <= j < s.len() && #[trigger] s[j].0 == c;
                            assert(old_s[j].0 == c);
                        }
                    }
                    assert forall|c: StoreChunkCoord| #[trigger] entries_map(s).contains_key(c) implies entries_map(s)[c]
                        == entries_map(old_s).insert(k, d)[c] by {
                        let j = key_index(s, c);
                        lemma_entries_map_at(s, j);
                        if c != k {
                            lemma_entries_map_at(old_s, j);
                        }
                    }
                    assert(entries_map(s) =~= entries_map(old_s).insert(k, d));
                }
                Some(old_d)
            },
            None => {
                let mut entries: Vec<(StoreChunkCoord, StoreChunkData)> = Vec::new();
                std::mem::swap(&mut entries, &mut self.entries);
                entries.push((k, d));
                proof {
                    let s = entries@;
                    assert(s[s.len() - 1].0 == k);
                    assert(unique_keys(s)) by {
                        assert forall|a: int, b: int|
                            0 <= a < s.len() && 0 <= b < s.len() && a != b implies #[trigger] s[a].0
                            != #[trigger] s[b].0 by {
                            if a < old_s.len() && b < old_s.len() {
                                assert(old_s[a].0 != old_s[b].0);
                            } else if a < old_s.len() {
                                assert(old_s[a] == s[a]);
                            } else {
                                assert(old_s[b] == s[b]);
                            }
                        }
                    }
                }
                self.entries = entries;
                proof {
                    let s = self.entries@;
                    assert forall|c: StoreChunkCoord| #[trigger] has_key(s, c) == (has_key(old_s, c) || c == k) by {
                        if has_key(old_s, c) {
                            let j = choose|j: int| 0 <= j < old_s.len() && #[trigger] old_s[j].0 == c;
                            assert(s[j].0 == c);
                        }
                        if has_key(s, c) && c != k {
                            let j = choose|j: int| 0 <= j < s.len() && #[trigger] s[j].0 == c;
                            assert(old_s[j].0 == c);
                        }
                    }
                    assert forall|c: StoreChunkCoord| #[trigger] entries_map(s).contains_key(c) implies entries_map(s)[c]
                        == entries_map(old_s).insert(k, d)[c] by {
                        let j = key_index(s, c);
                        lemma_entries_map_at(s, j);
                        if c != k {
                            lemma_entries_map_at(old_s, j);
                        }
                    }
                    assert(entries_map(s) =~= entries_map(old_s).insert(k, d));
                }
                None
            },
        }
    }

    /// Removes chunk `k`; returns its data if it was owned.
    pub fn remove(&mut self, k: &StoreChunkCoord) -> (r: Option<StoreChunkData>)
        ensures
            final(self)@ == old(self)@.remove(*k),
            match r {
                Some(old_d) => old(self)@.contains_key(*k) && old(self)@[*k] == old_d,
                None => !old(self)@.contains_key(*k),
            },
    {
        proof {
            use_type_invariant(&*self);
        }
        let ghost old_s = self.entries@;
        match self.find(*k) {
            Some(i) => {
                proof {
                    lemma_entries_map_at(old_s, i as int);
                }
                let mut entries: Vec<(StoreChunkCoord, StoreChunkData)> = Vec::new();
                std::mem::swap(&mut entries, &mut self.entries);
                let removed = entries.remove(i);
                proof {
                    let s = entries@;
                    assert forall|a: int| 0 <= a < s.len() implies #[trigger] s[a] == old_s[if a < i {
                        a
                    } else {
                        a + 1
                    }] by {}
                    assert(unique_keys(s)) by {
                        assert forall|a: int, b: int|
                            0 <= a < s.len() && 0 <= b < s.len() && a != b implies #[trigger] s[a].0
                            != #[trigger] s[b].0 by {
                            let a2 = if a < i { a } else { a + 1 };
                            let b2 = if b < i { b } else { b + 1 };
                            assert(s[a] == old_s[a2]);
                            assert(s[b] == old_s[b2]);
                            assert(old_s[a2].0 != old_s[b2].0);
                        }
                    }
                }
                self.entries = entries;
                proof {
                    let s = self.entries@;
                    assert forall|c: StoreChunkCoord| #[trigger] has_key(s, c) == (has_key(old_s, c) && c != *k) by {
                        if has_key(old_s, c) && c != *k {
                            let j = choose|j: int| 0 <= j < old_s.len() && #[trigger] old_s[j].0 == c;
                            assert(j != i);
                            let j2 = if j < i { j } else { j - 1 };
                            assert(s[j2] == old_s[j]);
                        }
                        if has_key(s, c) {
                            let j = choose|j: int| 0 <= j < s.len() && #[trigger] s[j].0 == c;
                            let j2 = if j < i { j } else { j + 1 };
                            assert(s[j] == old_s[j2]);
                            assert(j2 != i);
                            assert(old_s[j2].0 != old_s[i as int].0);
                        }
                    }
                    assert forall|c: StoreChunkCoord| #[trigger] entries_map(s).contains_key(c) implies entries_map(s)[c]
                        == entries_map(old_s).remove(*k)[c] by {
                        let j = key_index(s, c);
                        lemma_entries_map_at(s, j);
                        let j2 = if j < i { j } else { j + 1 };
                        assert(s[j] == old_s[j2]);
                        lemma_entries_map_at(old_s, j2);
                    }
                    assert(entries_map(s) =~= entries_map(old_s).remove(*k));
                }
                Some(removed.1)
            },
            None => {
                proof {
                    assert(entries_map(old_s) =~= entries_map(old_s).remove(*k));
                }
                None
            },
        }
    }

    /// Removes every chunk.
    pub fn clear(&mut self)
        ensures
            final(self)@ == Map::<StoreChunkCoord, StoreChunkData>::empty(),
    {
        self.entries = Vec::new();
        proof {
            assert(self@ =~= Map::<StoreChunkCoord, StoreChunkData>::empty());
        }
    }

    /// The owned coordinates, each once, in unspecified order.
    pub fn keys(&self) -> (r: Vec<StoreChunkCoord>)
        ensures
            r@.no_duplicates(),
            r@.to_set() == self@.dom(),
            r@.len() == self@.dom().len(),
    {
        proof {
            use_type_invariant(self);
            lemma_entries_map_domain(self.entries@);
        }
        let mut r: Vec<StoreChunkCoord> = Vec::new();
        let mut i: usize = 0;
        while i < self.entries.len()
            invariant
                i <= self.entries@.len(),
                r@ == entry_keys(self.entries@.take(i as int)),
            decreases self.entries@.len() - i,
        {
            r.push(self.entries[i].0);
            i = i + 1;
            proof {
                assert(entry_keys(self.entries@.take(i as int)) =~= entry_keys(
                    self.entries@.take((i - 1) as int),
                ).push(self.entries@[i - 1].0));
            }
        }
        proof {
            assert(self.entries@.take(i as int) =~= self.entries@);
        }
        r
    }

    /// The owned chunks with their data, each coordinate once, in unspecified order.
    pub fn entries(&self) -> (r: Vec<(StoreChunkCoord, StoreChunkData)>)
        ensures
            unique_keys(r@),
            entries_map(r@) == self@,
            r@.len() == self@.dom().len(),
    {
        proof {
            use_type_invariant(self);
            lemma_entries_map_domain(self.entries@);
        }
        let mut r: Vec<(StoreChunkCoord, StoreChunkData)> = Vec::new();
        let mut i: usize = 0;
        while i < self.entries.len()
            invariant
                i <= self.entries@.len(),
                r@ == self.entries@.take(i as int),
            decreases self.entries@.len() - i,
        {
            let e = self.entries[i];
            r.push(e);
            i = i + 1;
            proof {
                assert(r@ =~= self.entries@.take(i as int));
            }
        }
        proof {
            assert(r@ =~= self.entries@);
        }
        r
    }
}

} // verus!

verus! {

/// Inclusive rectangle of chunk coordinates.
#[derive(Debug, Clone, Copy, PartialEq, Eq, Structural)]
pub struct StoreChunkBounds {
    pub min: StoreChunkCoord,
    pub max: StoreChunkCoord,
}

/// `b` is the smallest rectangle holding every coordinate of `s`: it holds them all and
/// each of its four edges is touched by some coordinate of `s`.
pub open spec fn is_tight_bounds(b: StoreChunkBounds, s: Set<StoreChunkCoord>) -> bool {
    &&& forall|c: StoreChunkCoord|
        #[trigger] s.contains(c) ==> b.min.x <= c.x <= b.max.x && b.min.y <= c.y <= b.max.y
    &&& exists|c: StoreChunkCoord| #[trigger] s.contains(c) && c.x == b.min.x
    &&& exists|c: StoreChunkCoord| #[trigger] s.contains(c) && c.x == b.max.x
    &&& exists|c: StoreChunkCoord| #[trigger] s.contains(c) && c.y == b.min.y
    &&& exists|c: StoreChunkCoord| #[trigger] s.contains(c) && c.y == b.max.y
}

/// A set has at most one tight bounding rectangle.
pub proof fn lemma_tight_bounds_unique(b1: StoreChunkBounds, b2: StoreChunkBounds, s: Set<StoreChunkCoord>)
    requires
        is_tight_bounds(b1, s),
        is_tight_bounds(b2, s),
    ensures
        b1 == b2,
{
    let c1 = choose|c: StoreChunkCoord| #[trigger] s.contains(c) && c.x == b1.min.x;
    let c2 = choose|c: StoreChunkCoord| #[trigger] s.contains(c) && c.x == b2.min.x;
    let c3 = choose|c: StoreChunkCoord| #[trigger] s.contains(c) && c.x == b1.max.x;
    let c4 = choose|c: StoreChunkCoord| #[trigger] s.contains(c) && c.x == b2.max.x;
    let c5 = choose|c: StoreChunkCoord| #[trigger] s.contains(c) && c.y == b1.min.y;
    let c6 = choose|c: StoreChunkCoord| #[trigger] s.contains(c) && c.y == b2.min.y;
    let c7 = choose|c: StoreChunkCoord| #[trigger] s.contains(c) && c.y == b1.max.y;
    let c8 = choose|c: StoreChunkCoord| #[trigger] s.contains(c) && c.y == b2.max.y;
    assert(b1.min.x == b2.min.x);
    assert(b1.max.x == b2.max.x);
    assert(b1.min.y == b2.min.y);
    assert(b1.max.y == b2.max.y);
}

/// Whether `v` holds `c`.
pub(crate) fn vec_contains(v: &Vec<StoreChunkCoord>, c: StoreChunkCoord) -> (r: bool)
    ensures
        r == v@.contains(c),
{
    let mut i: usize = 0;
    while i < v.len()
        invariant
            i <= v@.len(),
            forall|j: int| 0 <= j < i ==> v@[j] != c,
        decreases v@.len() - i,
    {
        if v[i] == c {
            return true;
        }
        i = i + 1;
    }
    false
}

/// The tight bounding rectangle of a list of coordinates, or `None` when it is empty.
fn occupied_bounds(occupied: &Vec<StoreChunkCoord>) -> (r: Option<StoreChunkBounds>)
    ensures
        match r {
            Some(b) => is_tight_bounds(b, occupied@.to_set()),
            None => occupied@.len() == 0,
        },
{
    if occupied.len() == 0 {
        return None;
    }
    let first = occupied[0];
    let mut min = first;
    let mut max = first;
    let mut i: usize = 1;
    let ghost s = occupied@;
    while i < occupied.len()
        invariant
            1 <= i <= s.len(),
            s == occupied@,
            forall|j: int| 0 <= j < i ==> min.x <= #[trigger] s[j].x <= max.x && min.y <= s[j].y <= max.y,
            exists|j: int| 0 <= j < i && #[trigger] s[j].x == min.x,
            exists|j: int| 0 <= j < i && #[trigger] s[j].x == max.x,
            exists|j: int| 0 <= j < i && #[trigger] s[j].y == min.y,
            exists|j: int| 0 <= j < i && #[trigger] s[j].y == max.y,
        decreases s.len() - i,
    {
        let coord = occupied[i];
        if coord.x < min.x {
            min.x = coord.x;
        }
        if coord.y < min.y {
            min.y = coord.y;
        }
        if coord.x > max.x {
            max.x = coord.x;
        }
        if coord.y > max.y {
            max.y = coord.y;
        }
        i = i + 1;
        proof {
            assert(s[i - 1] == coord);
        }
    }
    let b = StoreChunkBounds { min, max };
    proof {
        let t = s.to_set();
        assert forall|c: StoreChunkCoord| #[trigger] t.contains(c) implies b.min.x <= c.x <= b.max.x
            && b.min.y <= c.y <= b.max.y by {
            let j = choose|j: int| 0 <= j < s.len() && s[j] == c;
            assert(s[j].x == c.x);
        }
        let j1 = choose|j: int| 0 <= j < i && #[trigger] s[j].x == min.x;
        assert(t.contains(s[j1]));
        let j2 = choose|j: int| 0 <= j < i && #[trigger] s[j].x == max.x;
        assert(t.contains(s[j2]));
        let j3 = choose|j: int| 0 <= j < i && #[trigger] s[j].y == min.y;
        assert(t.contains(s[j3]));
        let j4 = choose|j: int| 0 <= j < i && #[trigger] s[j].y == max.y;
        assert(t.contains(s[j4]));
    }
    Some(b)
}

/// The tight bounding rectangle of the owned chunks, or `None` when none is owned.
pub fn owned_bounds(chunks: &ChunkMap) -> (r: Option<StoreChunkBounds>)
    ensures
        match r {
            Some(b) => is_tight_bounds(b, chunks@.dom()),
            None => chunks@.dom() == Set::<StoreChunkCoord>::empty(),
        },
{
    let keys = chunks.keys();
    let r = occupied_bounds(&keys);
    proof {
        if r is None {
            assert(keys@.to_set() =~= Set::<StoreChunkCoord>::empty());
        }
    }
    r
}

} // verus!

verus! {

/// `c` lies inside the tight bounds `b` of the occupied set `occ`, is free, and cannot be
/// reached by free side steps from outside: no free walk inside the rectangle grown by one
/// ring leads to it from that ring's lower-left corner.
pub open spec fn is_enclosed_cell(
    occ: Set<StoreChunkCoord>,
    b: StoreChunkBounds,
    c: StoreChunkCoord,
) -> bool {
    &&& b.min.x <= c.x <= b.max.x
    &&& b.min.y <= c.y <= b.max.y
    &&& !occ.contains(c)
    &&& !crate::reach::reachable_from_corner(
        occ,
        b.min.x - 1,
        b.max.x + 1,
        b.min.y - 1,
        b.max.y + 1,
        c,
    )
}

/// The occupied set `occ` encloses a hole: a free cell within its bounds that is cut off
/// from the outside.
pub open spec fn has_enclosed_hole(occ: Set<StoreChunkCoord>) -> bool {
    exists|b: StoreChunkBounds, c: StoreChunkCoord|
        is_tight_bounds(b, occ) && #[trigger] is_enclosed_cell(occ, b, c)
}

/// Whether owning `candidate` in addition to `owned_chunks` would leave an enclosed hole.
pub fn would_create_hole(owned_chunks: &ChunkMap, candidate: StoreChunkCoord) -> (r: bool)
    requires
        coord_within_margin(candidate, 2),
        forall|c: StoreChunkCoord| #[trigger] owned_chunks@.contains_key(c) ==> coord_within_margin(c, 2),
    ensures
        r == has_enclosed_hole(owned_chunks@.dom().insert(candidate)),
{
    let mut occupied = owned_chunks.keys();
    let ghost keys0 = occupied@;
    let ghost occ = owned_chunks@.dom().insert(candidate);
    if !vec_contains(&occupied, candidate) {
        occupied.push(candidate);
        proof {
            assert forall|c: StoreChunkCoord| #[trigger] occupied@.contains(c) <==> occ.contains(c) by {
                if occupied@.contains(c) {
                    let i = choose|i: int| 0 <= i < occupied@.len() && occupied@[i] == c;
                    if i < keys0.len() {
                        assert(keys0[i] == c);
                        assert(keys0.to_set().contains(c));
                    }
                }
                if occ.contains(c) && c != candidate {
                    assert(keys0.to_set().contains(c));
                    let i = choose|i: int| 0 <= i < keys0.len() && keys0[i] == c;
                    assert(occupied@[i] == c);
                }
                if c == candidate {
                    assert(occupied@[occupied@.len() - 1] == c);
                }
            }
        }
    } else {
        proof {
            assert forall|c: StoreChunkCoord| #[trigger] occupied@.contains(c) <==> occ.contains(c) by {
                if occupied@.contains(c) {
                    assert(keys0.to_set().contains(c));
                }
                if occ.contains(c) && c != candidate {
                    assert(keys0.to_set().contains(c));
                }
            }
        }
    }
    proof {
        assert(occupied@.to_set() =~= occ);
    }
    let bounds = match occupied_bounds(&occupied) {
        Some(b) => b,
        None => {
            proof {
                assert(occ.contains(candidate));
                assert(occupied@.to_set().contains(candidate));
            }
            return false;
        },
    };
    proof {
        assert(occ.contains(candidate));
    }
    let min_x = bounds.min.x - 1;
    let max_x = bounds.max.x + 1;
    let min_y = bounds.min.y - 1;
    let max_y = bounds.max.y + 1;
    let ghost (x0, x1, y0, y1) = (min_x as int, max_x as int, min_y as int, max_y as int);
    let ghost area = (x1 - x0 + 1) * (y1 - y0 + 1);
    let start = StoreChunkCoord { x: min_x, y: min_y };
    let mut seen: Vec<StoreChunkCoord> = Vec::new();
    seen.push(start);
    proof {
        assert(!occ.contains(start)) by {
            if occ.contains(start) {
                assert(bounds.min.x <= start.x);
            }
        }
        let p0 = seq![start];
        assert(crate::reach::is_free_walk(occ, x0, x1, y0, y1, p0));
        assert(crate::reach::reachable_from_corner(occ, x0, x1, y0, y1, start));
        crate::reach::lemma_distinct_cells_bounded(seen@, x0, x1, y0, y1);
    }
    let mut head: usize = 0;
    while head < seen.len()
        invariant
            occupied@.to_set() == occ,
            is_tight_bounds(bounds, occ),
            x0 == bounds.min.x - 1 && x1 == bounds.max.x + 1,
            y0 == bounds.min.y - 1 && y1 == bounds.max.y + 1,
            x0 == min_x && y0 == min_y && x1 == max_x && y1 == max_y,
            area == (x1 - x0 + 1) * (y1 - y0 + 1),
            forall|c: StoreChunkCoord| #[trigger] occ.contains(c) ==> coord_within_margin(c, 2),
            start == (StoreChunkCoord { x: min_x, y: min_y }),
            seen@.len() > 0,
            seen@[0] == start,
            head <= seen@.len(),
            seen@.len() <= area,
            seen@.no_duplicates(),
            forall|i: int|
                0 <= i < seen@.len() ==> crate::reach::free_in_window(
                    occ,
                    x0,
                    x1,
                    y0,
                    y1,
                    #[trigger] seen@[i],
                ),
            forall|i: int|
                0 <= i < seen@.len() ==> crate::reach::reachable_from_corner(
                    occ,
                    x0,
                    x1,
                    y0,
                    y1,
                    #[trigger] seen@[i],
                ),
            forall|i: int, n: StoreChunkCoord|
                #![trigger seen@[i], seen@.contains(n)]
                0 <= i < head && side_adjacent(seen@[i], n) && crate::reach::free_in_window(
                    occ,
                    x0,
                    x1,
                    y0,
                    y1,
                    n,
                ) ==> seen@.contains(n),
        decreases area - head,
    {
        let cur = seen[head];
        proof {
            assert(crate::reach::free_in_window(occ, x0, x1, y0, y1, cur));
            assert(coord_within_margin(cur, 1)) by {
                assert(is_tight_bounds(bounds, occ));
                let c1 = choose|c: StoreChunkCoord| #[trigger] occ.contains(c) && c.x == bounds.min.x;
                let c2 = choose|c: StoreChunkCoord| #[trigger] occ.contains(c) && c.x == bounds.max.x;
                let c3 = choose|c: StoreChunkCoord| #[trigger] occ.contains(c) && c.y == bounds.min.y;
                let c4 = choose|c: StoreChunkCoord| #[trigger] occ.contains(c) && c.y == bounds.max.y;
                assert(coord_within_margin(c1, 2));
                assert(coord_within_margin(c2, 2));
                assert(coord_within_margin(c3, 2));
                assert(coord_within_margin(c4, 2));
            }
        }
        let neighbors = side_neighbors(cur);
        let ghost seen_before = seen@;
        let mut k: usize = 0;
        while k < 4
            invariant
                0 <= k <= 4,
                neighbors@.len() == 4,
                forall|n: StoreChunkCoord| neighbors@.contains(n) <==> side_adjacent(cur, n),
                occupied@.to_set() == occ,
                x0 == min_x && y0 == min_y && x1 == max_x && y1 == max_y,
                area == (x1 - x0 + 1) * (y1 - y0 + 1),
                x0 <= x1 && y0 <= y1,
                head < seen_before.len(),
                cur == seen_before[head as int],
                seen@.len() >= seen_before.len(),
                seen@.subrange(0, seen_before.len() as int) == seen_before,
                seen@.len() <= area,
                seen@.no_duplicates(),
                forall|i: int|
                    0 <= i < seen@.len() ==> crate::reach::free_in_window(
                        occ,
                        x0,
                        x1,
                        y0,
                        y1,
                        #[trigger] seen@[i],
                    ),
                forall|i: int|
                    0 <= i < seen@.len() ==> crate::reach::reachable_from_corner(
                        occ,
                        x0,
                        x1,
                        y0,
                        y1,
                        #[trigger] seen@[i],
                    ),
                forall|j: int|
                    0 <= j < k && crate::reach::free_in_window(occ, x0, x1, y0, y1, #[trigger] neighbors@[j])
                        ==> seen@.contains(neighbors@[j]),
            decreases 4 - k,
        {
            let next = neighbors[k];
            proof {
                assert(neighbors@.contains(next));
            }
            let in_window = next.x >= min_x && next.x <= max_x && next.y >= min_y && next.y <= max_y;
            if in_window && !vec_contains(&occupied, next) && !vec_contains(&seen, next) {
                let ghost before_push = seen@;
                seen.push(next);
                proof {
                    let s = seen@;
                    assert(s[s.len() - 1] == next);
                    assert forall|a: int| 0 <= a < before_push.len() implies #[trigger] s[a] == before_push[a] by {}
                    assert(s.no_duplicates()) by {
                        assert forall|a: int, b: int| 0 <= a < s.len() && 0 <= b < s.len() && a != b implies s[a] != s[b] by {
                            if a < before_push.len() && b < before_push.len() {
                            } else if a < before_push.len() {
                                assert(before_push.contains(s[a]));
                            } else {
                                assert(before_push.contains(s[b]));
                            }
                        }
                    }
                    assert(crate::reach::free_in_window(occ, x0, x1, y0, y1, next));
                    assert(crate::reach::reachable_from_corner(occ, x0, x1, y0, y1, next)) by {
                        assert(crate::reach::reachable_from_corner(occ, x0, x1, y0, y1, before_push[head as int]));
                        let p = choose|p: Seq<StoreChunkCoord>|
                            #[trigger] crate::reach::is_free_walk(occ, x0, x1, y0, y1, p) && p[0].x == x0
                                && p[0].y == y0 && p.last() == cur;
                        crate::reach::lemma_walk_push(occ, x0, x1, y0, y1, p, next);
                    }
                    assert forall|i: int| 0 <= i < s.len() implies crate::reach::free_in_window(occ, x0, x1, y0, y1, #[trigger] s[i]) && crate::reach::reachable_from_corner(occ, x0, x1, y0, y1, s[i]) by {
                        if i < before_push.len() {
                            assert(s[i] == before_push[i]);
                        }
                    }
                    crate::reach::lemma_distinct_cells_bounded(s, x0, x1, y0, y1);
                    assert(s.subrange(0, seen_before.len() as int) =~= seen_before) by {
                        assert(before_push.subrange(0, seen_before.len() as int) == seen_before);
                    }
                    assert forall|j: int|
                        0 <= j < k + 1 && crate::reach::free_in_window(occ, x0, x1, y0, y1, #[trigger] neighbors@[j])
                        implies s.contains(neighbors@[j]) by {
                        if j < k {
                            let w = choose|w: int| 0 <= w < before_push.len() && before_push[w] == neighbors@[j];
                            assert(s[w] == neighbors@[j]);
                        } else {
                            assert(s[s.len() - 1] == neighbors@[j]);
                        }
                    }
                }
            } else {
                proof {
                    if crate::reach::free_in_window(occ, x0, x1, y0, y1, next) {
                        assert(!occupied@.to_set().contains(next));
                        assert(!occupied@.contains(next));
                    }
                }
            }
            k = k + 1;
        }
        proof {
            let s = seen@;
            assert forall|i: int| 0 <= i < seen_before.len() implies #[trigger] s[i] == seen_before[i] by {
                assert(s.subrange(0, seen_before.len() as int)[i] == s[i]);
            }
            assert forall|i: int, n: StoreChunkCoord|
                0 <= i < head + 1 && side_adjacent(#[trigger] s[i], n) && crate::reach::free_in_window(occ, x0, x1, y0, y1, n)
                implies #[trigger] s.contains(n) by {
                if i < head {
                    assert(seen_before[i] == s[i]);
                    assert(seen_before.contains(n));
                    let w = choose|w: int| 0 <= w < seen_before.len() && seen_before[w] == n;
                    assert(s[w] == n);
                } else {
                    assert(s[i] == cur);
                    assert(neighbors@.contains(n));
                    let j = choose|j: int| 0 <= j < 4 && neighbors@[j] == n;
                    assert(crate::reach::free_in_window(occ, x0, x1, y0, y1, neighbors@[j]));
                }
            }
        }
        head = head + 1;
    }
    proof {
        let closed = seen@.to_set();
        assert forall|c: StoreChunkCoord, n: StoreChunkCoord|
            #![trigger closed.contains(c), closed.contains(n)]
            closed.contains(c) && side_adjacent(c, n) && crate::reach::free_in_window(occ, x0, x1, y0, y1, n)
            implies closed.contains(n) by {
            let i = choose|i: int| 0 <= i < seen@.len() && seen@[i] == c;
            assert(seen@.contains(n));
        }
        assert forall|c: StoreChunkCoord| crate::reach::free_in_window(occ, x0, x1, y0, y1, c) implies
            (#[trigger] seen@.contains(c) <==> crate::reach::reachable_from_corner(occ, x0, x1, y0, y1, c)) by {
            if crate::reach::reachable_from_corner(occ, x0, x1, y0, y1, c) {
                let p = choose|p: Seq<StoreChunkCoord>|
                    #[trigger] crate::reach::is_free_walk(occ, x0, x1, y0, y1, p) && p[0].x == x0
                        && p[0].y == y0 && p.last() == c;
                assert(p[0] == start);
                assert(closed.contains(seen@[0]));
                crate::reach::lemma_walk_stays_in_closed_set(occ, x0, x1, y0, y1, closed, p);
            }
            if seen@.contains(c) {
                let i = choose|i: int| 0 <= i < seen@.len() && seen@[i] == c;
                assert(crate::reach::reachable_from_corner(occ, x0, x1, y0, y1, seen@[i]));
            }
        }
    }
    let mut x = min_x + 1;
    while x < max_x
        invariant
            min_x + 1 <= x <= max_x,
            occupied@.to_set() == occ,
            occ == owned_chunks@.dom().insert(candidate),
            is_tight_bounds(bounds, occ),
            x0 == min_x && y0 == min_y && x1 == max_x && y1 == max_y,
            x0 == bounds.min.x - 1 && x1 == bounds.max.x + 1,
            y0 == bounds.min.y - 1 && y1 == bounds.max.y + 1,
            forall|c: StoreChunkCoord| crate::reach::free_in_window(occ, x0, x1, y0, y1, c) ==> (
            #[trigger] seen@.contains(c) <==> crate::reach::reachable_from_corner(occ, x0, x1, y0, y1, c)),
            forall|c: StoreChunkCoord| #[trigger] is_enclosed_cell(occ, bounds, c) ==> c.x >= x,
        decreases max_x - x,
    {
        let mut y = min_y + 1;
        while y < max_y
            invariant
                min_y + 1 <= y <= max_y,
                min_x + 1 <= x < max_x,
                occupied@.to_set() == occ,
                occ == owned_chunks@.dom().insert(candidate),
                is_tight_bounds(bounds, occ),
                x0 == min_x && y0 == min_y && x1 == max_x && y1 == max_y,
                x0 == bounds.min.x - 1 && x1 == bounds.max.x + 1,
                y0 == bounds.min.y - 1 && y1 == bounds.max.y + 1,
                forall|c: StoreChunkCoord| crate::reach::free_in_window(occ, x0, x1, y0, y1, c) ==> (
                #[trigger] seen@.contains(c) <==> crate::reach::reachable_from_corner(occ, x0, x1, y0, y1, c)),
                forall|c: StoreChunkCoord| #[trigger] is_enclosed_cell(occ, bounds, c) ==> c.x > x || (c.x == x && c.y >= y),
            decreases max_y - y,
        {
            let coord = StoreChunkCoord { x, y };
            if !vec_contains(&occupied, coord) && !vec_contains(&seen, coord) {
                proof {
                    assert(!occ.contains(coord));
                    assert(crate::reach::free_in_window(occ, x0, x1, y0, y1, coord));
                    assert(is_enclosed_cell(occ, bounds, coord));
                    assert(has_enclosed_hole(occ));
                }
                return true;
            }
            proof {
                if is_enclosed_cell(occ, bounds, coord) {
                    assert(!occupied@.contains(coord)) by {
                        assert(!occupied@.to_set().contains(coord));
                    }
                    assert(crate::reach::free_in_window(occ, x0, x1, y0, y1, coord));
                }
            }
            y = y + 1;
        }
        x = x + 1;
    }
    proof {
        assert forall|b: StoreChunkBounds, c: StoreChunkCoord|
            is_tight_bounds(b, occ) && #[trigger] is_enclosed_cell(occ, b, c) implies false by {
            lemma_tight_bounds_unique(b, bounds, occ);
        }
    }
    false
}

} // verus!
