//! The store area: which chunks are owned, where the chunk grid sits in the world, and
//! the world's bounds. World geometry of the grid is held in integer world units.
use vstd::prelude::*;
use crate::chunks::{
    ChunkMap, StoreChunkBounds, StoreChunkCoord, StoreChunkData, StoreChunkKind, has_enclosed_hole,
    is_enclosed_cell, is_tight_bounds, owned_bounds,
};

verus! {

/// A point or extent in world units.
#[derive(Debug, Clone, Copy, PartialEq, Eq, Structural)]
pub struct WorldVec {
    pub x: i64,
    pub y: i64,
}

/// A count of cells along each axis.
#[derive(Debug, Clone, Copy, PartialEq, Eq, Structural)]
pub struct CellCount {
    pub x: u32,
    pub y: u32,
}

/// An axis-aligned rectangle in world units; both edges belong to it.
#[derive(Debug, Clone, Copy, PartialEq, Eq, Structural)]
pub struct WorldRect {
    pub min: WorldVec,
    pub max: WorldVec,
}

/// `p` lies in `r`, edges included.
pub open spec fn rect_holds(r: WorldRect, p: WorldVec) -> bool {
    r.min.x <= p.x <= r.max.x && r.min.y <= p.y <= r.max.y
}

impl WorldRect {
    /// The rectangle spanned by two opposite corners.
    pub fn from_corners(a: WorldVec, b: WorldVec) -> (r: WorldRect)
        ensures
            r.min.x == if a.x <= b.x { a.x } else { b.x },
            r.min.y == if a.y <= b.y { a.y } else { b.y },
            r.max.x == if a.x <= b.x { b.x } else { a.x },
            r.max.y == if a.y <= b.y { b.y } else { a.y },
    {
        WorldRect {
            min: WorldVec { x: if a.x <= b.x { a.x } else { b.x }, y: if a.y <= b.y { a.y } else { b.y } },
            max: WorldVec { x: if a.x <= b.x { b.x } else { a.x }, y: if a.y <= b.y { b.y } else { a.y } },
        }
    }

    /// Whether `p` lies in the rectangle, edges included.
    pub fn contains(&self, p: WorldVec) -> (r: bool)
        ensures
            r == rect_holds(*self, p),
    {
        self.min.x <= p.x && p.x <= self.max.x && self.min.y <= p.y && p.y <= self.max.y
    }
}

/// The playable world rectangle.
#[derive(Debug, Clone, Copy, PartialEq, Eq, Structural)]
pub struct WorldBounds {
    pub rect: WorldRect,
}

impl WorldBounds {
    /// The default world: from (-1200, -1000) to (1200, 1000).
    pub fn default_bounds() -> (r: WorldBounds)
        ensures
            r.rect.min == (WorldVec { x: -1200i64, y: -1000i64 }),
            r.rect.max == (WorldVec { x: 1200, y: 1000 }),
    {
        WorldBounds {
            rect: WorldRect::from_corners(WorldVec { x: -1200, y: -1000 }, WorldVec { x: 1200, y: 1000 }),
        }
    }

    /// Whether the 128-unit square of chunk `coord`, placed with its lower corner at
    /// `coord * 128`, lies in the world with both corners.
    pub fn contains_chunk(&self, coord: StoreChunkCoord) -> (r: bool)
        ensures
            r == (rect_holds(self.rect, WorldVec { x: (coord.x * 128) as i64, y: (coord.y * 128) as i64 })
                && rect_holds(self.rect, WorldVec { x: (coord.x * 128 + 128) as i64, y: (coord.y * 128 + 128) as i64 })),
    {
        let min = WorldVec { x: coord.x as i64 * 128, y: coord.y as i64 * 128 };
        let max = WorldVec { x: min.x + 128, y: min.y + 128 };
        self.rect.contains(min) && self.rect.contains(max)
    }
}

impl Default for WorldBounds {
    fn default() -> (r: WorldBounds)
        ensures
            r.rect.min == (WorldVec { x: -1200i64, y: -1000i64 }),
            r.rect.max == (WorldVec { x: 1200, y: 1000 }),
    {
        WorldBounds::default_bounds()
    }
}

/// Which sides the store may grow towards, and the shape rules of growth.
#[derive(Debug, Clone, Copy, PartialEq, Eq, Structural)]
pub struct StoreExpansionPolicy {
    pub allow_left: bool,
    pub allow_right: bool,
    pub allow_up: bool,
    pub allow_down: bool,
    pub require_side_adjacency: bool,
    pub forbid_holes: bool,
}

impl Default for StoreExpansionPolicy {
    /// Growth to the left and downwards only, side-adjacent and without holes.
    fn default() -> (r: StoreExpansionPolicy)
        ensures
            r == (StoreExpansionPolicy {
                allow_left: true,
                allow_right: false,
                allow_up: false,
                allow_down: true,
                require_side_adjacency: true,
                forbid_holes: true,
            }),
    {
        StoreExpansionPolicy {
            allow_left: true,
            allow_right: false,
            allow_up: false,
            allow_down: true,
            require_side_adjacency: true,
            forbid_holes: true,
        }
    }
}

/// The owned store area on the chunk grid.
pub struct StoreArea {
    /// World position of the lower-left corner of chunk (0, 0).
    pub anchor: WorldVec,
    /// Size of one cell in world units.
    pub cell_size: WorldVec,
    /// Cells per chunk along each axis.
    pub chunk_size_cells: CellCount,
    pub owned_chunks: ChunkMap,
    pub expansion_policy: StoreExpansionPolicy,
}

/// Largest cell size and cell count per axis that the integer geometry supports.
pub open spec fn max_cell_extent() -> int {
    0x8000
}

/// Largest magnitude of the anchor that the integer geometry supports.
pub open spec fn max_anchor() -> int {
    0x2000_0000_0000_0000
}

impl StoreArea {
    /// The grid geometry fits the integer world units: positive cell sizes and counts of
    /// at most 2^15, and an anchor of magnitude at most 2^61.
    pub open spec fn wf(&self) -> bool {
        &&& 0 < self.cell_size.x <= max_cell_extent()
        &&& 0 < self.cell_size.y <= max_cell_extent()
        &&& 0 < self.chunk_size_cells.x <= max_cell_extent()
        &&& 0 < self.chunk_size_cells.y <= max_cell_extent()
        &&& -max_anchor() <= self.anchor.x <= max_anchor()
        &&& -max_anchor() <= self.anchor.y <= max_anchor()
    }

    /// Width of a chunk in world units.
    pub open spec fn chunk_width(&self) -> int {
        self.cell_size.x * self.chunk_size_cells.x
    }

    /// Height of a chunk in world units.
    pub open spec fn chunk_height(&self) -> int {
        self.cell_size.y * self.chunk_size_cells.y
    }

    /// Lower-left corner of chunk `c`.
    pub open spec fn chunk_min_x(&self, c: StoreChunkCoord) -> int {
        self.anchor.x + c.x * self.chunk_width()
    }

    /// Lower-left corner of chunk `c`.
    pub open spec fn chunk_min_y(&self, c: StoreChunkCoord) -> int {
        self.anchor.y + c.y * self.chunk_height()
    }

    /// The world rectangle of chunk `c`.
    pub open spec fn chunk_rect_spec(&self, c: StoreChunkCoord) -> WorldRect {
        WorldRect {
            min: WorldVec { x: self.chunk_min_x(c) as i64, y: self.chunk_min_y(c) as i64 },
            max: WorldVec {
                x: (self.chunk_min_x(c) + self.chunk_width()) as i64,
                y: (self.chunk_min_y(c) + self.chunk_height()) as i64,
            },
        }
    }

    /// The initial store: chunks x in -5..0 and y in -4..0 (twenty chunks), cells of 32
    /// units, chunks of 4 x 4 cells, the default expansion policy.
    pub fn new(anchor: WorldVec) -> (r: StoreArea)
        requires
            -max_anchor() <= anchor.x <= max_anchor(),
            -max_anchor() <= anchor.y <= max_anchor(),
        ensures
            r.wf(),
            r.anchor == anchor,
            r.cell_size == (WorldVec { x: 32, y: 32 }),
            r.chunk_size_cells == (CellCount { x: 4, y: 4 }),
            forall|c: StoreChunkCoord|
                #[trigger] r.owned_chunks@.contains_key(c) <==> (-5 <= c.x < 0 && -4 <= c.y < 0),
            forall|c: StoreChunkCoord|
                #[trigger] r.owned_chunks@.contains_key(c) ==> r.owned_chunks@[c]
                    == (StoreChunkData { kind: StoreChunkKind::Default }),
            r.expansion_policy == (StoreExpansionPolicy {
                allow_left: true,
                allow_right: false,
                allow_up: false,
                allow_down: true,
                require_side_adjacency: true,
                forbid_holes: true,
            }),
            !has_enclosed_hole(r.owned_chunks@.dom()),
            crate::connect::side_connected(r.owned_chunks@.dom()),
    {
        let mut owned_chunks = ChunkMap::new();
        let mut x: i32 = -5;
        while x < 0
            invariant
                -5 <= x <= 0,
                forall|c: StoreChunkCoord|
                    #[trigger] owned_chunks@.contains_key(c) <==> (-5 <= c.x < x && -4 <= c.y < 0),
                forall|c: StoreChunkCoord|
                    #[trigger] owned_chunks@.contains_key(c) ==> owned_chunks@[c]
                        == (StoreChunkData { kind: StoreChunkKind::Default }),
            decreases 0 - x,
        {
            let mut y: i32 = -4;
            while y < 0
                invariant
                    -5 <= x < 0,
                    -4 <= y <= 0,
                    forall|c: StoreChunkCoord|
                        #[trigger] owned_chunks@.contains_key(c) <==> ((-5 <= c.x < x && -4 <= c.y < 0)
                            || (c.x == x && -4 <= c.y < y)),
                    forall|c: StoreChunkCoord|
                        #[trigger] owned_chunks@.contains_key(c) ==> owned_chunks@[c]
                            == (StoreChunkData { kind: StoreChunkKind::Default }),
                decreases 0 - y,
            {
                owned_chunks.insert(StoreChunkCoord { x, y }, StoreChunkData { kind: StoreChunkKind::Default });
                y = y + 1;
            }
            x = x + 1;
        }
        proof {
            lemma_initial_block_has_no_hole(owned_chunks@.dom());
            assert forall|c: StoreChunkCoord| #[trigger] owned_chunks@.dom().contains(c) <==> crate::connect::in_rect(
                c,
                -5,
                -1,
                -4,
                -1,
            ) by {}
            crate::connect::lemma_rect_connected(owned_chunks@.dom(), -5, -1, -4, -1);
        }
        StoreArea {
            anchor,
            cell_size: WorldVec { x: 32, y: 32 },
            chunk_size_cells: CellCount { x: 4, y: 4 },
            owned_chunks,
            expansion_policy: StoreExpansionPolicy::default(),
        }
    }

    /// Size of a chunk in world units.
    pub fn chunk_world_size(&self) -> (r: WorldVec)
        requires
            self.wf(),
        ensures
            r.x == self.chunk_width(),
            r.y == self.chunk_height(),
            0 < r.x <= max_cell_extent() * max_cell_extent(),
            0 < r.y <= max_cell_extent() * max_cell_extent(),
    {
        proof {
            lemma_extent_product(self.cell_size.x as int, self.chunk_size_cells.x as int);
            lemma_extent_product(self.cell_size.y as int, self.chunk_size_cells.y as int);
        }
        WorldVec {
            x: self.cell_size.x * self.chunk_size_cells.x as i64,
            y: self.cell_size.y * self.chunk_size_cells.y as i64,
        }
    }

    /// The world rectangle of chunk `coord`.
    pub fn chunk_rect(&self, coord: StoreChunkCoord) -> (r: WorldRect)
        requires
            self.wf(),
        ensures
            r == self.chunk_rect_spec(coord),
            r.min.x == self.chunk_min_x(coord),
            r.min.y == self.chunk_min_y(coord),
            r.max.x == self.chunk_min_x(coord) + self.chunk_width(),
            r.max.y == self.chunk_min_y(coord) + self.chunk_height(),
    {
        let size = self.chunk_world_size();
        proof {
            lemma_coord_offset(coord.x as int, size.x as int);
            lemma_coord_offset(coord.y as int, size.y as int);
        }
        let min = WorldVec {
            x: self.anchor.x + coord.x as i64 * size.x,
            y: self.anchor.y + coord.y as i64 * size.y,
        };
        WorldRect { min, max: WorldVec { x: min.x + size.x, y: min.y + size.y } }
    }

    /// The tight bounds of the owned chunks, or `None` when none is owned.
    pub fn owned_chunk_bounds(&self) -> (r: Option<StoreChunkBounds>)
        ensures
            match r {
                Some(b) => is_tight_bounds(b, self.owned_chunks@.dom()),
                None => self.owned_chunks@.dom() == Set::<StoreChunkCoord>::empty(),
            },
    {
        owned_bounds(&self.owned_chunks)
    }
}

/// The initial block of chunks leaves no enclosed hole: every cell within its bounds is
/// owned.
proof fn lemma_initial_block_has_no_hole(s: Set<StoreChunkCoord>)
    requires
        forall|c: StoreChunkCoord| #[trigger] s.contains(c) <==> (-5 <= c.x < 0 && -4 <= c.y < 0),
    ensures
        !has_enclosed_hole(s),
{
    assert forall|b: StoreChunkBounds, c: StoreChunkCoord|
        !(is_tight_bounds(b, s) && #[trigger] is_enclosed_cell(s, b, c)) by {
        if is_tight_bounds(b, s) && is_enclosed_cell(s, b, c) {
            let lo = StoreChunkCoord { x: -5i32, y: -4i32 };
            let hi = StoreChunkCoord { x: -1i32, y: -1i32 };
            assert(s.contains(lo));
            assert(s.contains(hi));
            let c1 = choose|c1: StoreChunkCoord| #[trigger] s.contains(c1) && c1.x == b.min.x;
            let c2 = choose|c2: StoreChunkCoord| #[trigger] s.contains(c2) && c2.x == b.max.x;
            let c3 = choose|c3: StoreChunkCoord| #[trigger] s.contains(c3) && c3.y == b.min.y;
            let c4 = choose|c4: StoreChunkCoord| #[trigger] s.contains(c4) && c4.y == b.max.y;
            assert(s.contains(c));
        }
    }
}

proof fn lemma_extent_product(a: int, b: int)
    requires
        0 < a <= max_cell_extent(),
        0 < b <= max_cell_extent(),
    ensures
        0 < a * b <= max_cell_extent() * max_cell_extent(),
{
    assert(0 < a * b <= max_cell_extent() * max_cell_extent()) by (nonlinear_arith)
        requires
            0 < a <= 0x8000,
            0 < b <= 0x8000,
    ;
}

proof fn lemma_coord_offset(c: int, size: int)
    requires
        i32::MIN <= c <= i32::MAX,
        0 < size <= max_cell_extent() * max_cell_extent(),
    ensures
        -0x2000_0000_0000_0000 <= c * size <= 0x2000_0000_0000_0000,
{
    assert(-0x2000_0000_0000_0000 <= c * size <= 0x2000_0000_0000_0000) by (nonlinear_arith)
        requires
            -0x8000_0000 <= c <= 0x7fff_ffff,
            0 < size <= 0x4000_0000,
    ;
}

} // verus!
