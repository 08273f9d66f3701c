//! Identifiers of store objects and of their prototypes, and the small rules attached to
//! them: id allocation, highlight priorities, rotation steps and ribbon labels.
use vstd::prelude::*;

verus! {

/// Identifier of a store object that survives saving and loading.
#[derive(Debug, Clone, Copy, PartialEq, Eq, Hash, Structural)]
pub struct StableObjectId(pub u64);

/// Hands out fresh stable object ids in increasing order.
#[derive(Debug, Clone, Copy, PartialEq, Eq, Structural)]
pub struct StableObjectIdAllocator {
    pub next: u64,
}

impl StableObjectIdAllocator {
    /// Returns the next id and advances the counter by one.
    pub fn allocate(&mut self) -> (r: StableObjectId)
        requires
            old(self).next < u64::MAX,
        ensures
            r.0 == old(self).next,
            final(self).next == old(self).next + 1,
    {
        let id = StableObjectId(self.next);
        self.next = self.next + 1;
        id
    }
}

/// The id that the `k`-th allocation (counted from zero) hands out, starting from `next`.
pub open spec fn kth_allocated_id(next: u64, k: nat) -> int {
    next + k
}

/// Ids handed out by successive allocations from one allocator are pairwise distinct, and
/// none of them lies below the allocator's starting counter.
pub proof fn lemma_allocations_distinct(next: u64, k1: nat, k2: nat)
    ensures
        k1 != k2 ==> kth_allocated_id(next, k1) != kth_allocated_id(next, k2),
        kth_allocated_id(next, k1) >= next,
{
}

/// Stable identifier of an object prototype.
#[derive(Debug, Clone, PartialEq, Eq, Hash, Default)]
pub struct BuildObjectId(pub String);

impl BuildObjectId {
    /// The prototype id with text `id`.
    pub fn new(id: &str) -> (r: BuildObjectId)
        ensures
            r.0@ == id@,
    {
        BuildObjectId(id.to_owned())
    }
}

/// How an object is placed: on the floor or on a wall.
#[derive(Debug, Clone, Copy, PartialEq, Eq, Hash, Structural)]
pub enum PlacementKind {
    Floor,
    WallMounted,
}

/// The kinds of highlight an object can show.
#[derive(Debug, Clone, Copy, PartialEq, Eq, Structural)]
pub enum HighlightKind {
    Hover,
    Selected,
    MoveValid,
    MoveInvalid,
    DeleteDanger,
    BuildValid,
    BuildInvalid,
}

/// Priority of a highlight: the more urgent the feedback, the higher.
pub open spec fn highlight_priority(kind: HighlightKind) -> u8 {
    match kind {
        HighlightKind::DeleteDanger => 100,
        HighlightKind::MoveInvalid | HighlightKind::BuildInvalid => 90,
        HighlightKind::MoveValid | HighlightKind::BuildValid => 70,
        HighlightKind::Selected => 50,
        HighlightKind::Hover => 10,
    }
}

impl HighlightKind {
    /// The priority of this highlight.
    pub fn priority(self) -> (r: u8)
        ensures
            r == highlight_priority(self),
    {
        match self {
            HighlightKind::DeleteDanger => 100,
            HighlightKind::MoveInvalid | HighlightKind::BuildInvalid => 90,
            HighlightKind::MoveValid | HighlightKind::BuildValid => 70,
            HighlightKind::Selected => 50,
            HighlightKind::Hover => 10,
        }
    }
}

/// Warnings outrank confirmations, which outrank selection, which outranks hovering.
pub proof fn lemma_highlight_priority_order()
    ensures
        highlight_priority(HighlightKind::DeleteDanger) > highlight_priority(HighlightKind::MoveInvalid),
        highlight_priority(HighlightKind::MoveInvalid) == highlight_priority(HighlightKind::BuildInvalid),
        highlight_priority(HighlightKind::BuildInvalid) > highlight_priority(HighlightKind::MoveValid),
        highlight_priority(HighlightKind::MoveValid) == highlight_priority(HighlightKind::BuildValid),
        highlight_priority(HighlightKind::BuildValid) > highlight_priority(HighlightKind::Selected),
        highlight_priority(HighlightKind::Selected) > highlight_priority(HighlightKind::Hover),
{
}

/// The rotation variant reached from `current` after `steps` steps (negative steps turn
/// backwards) among `len` variants, wrapping around. The index and the count are taken as
/// `i32` values, in which the rotation arithmetic is done; the result is their Euclidean
/// remainder.
pub fn rotation_step_index(current: usize, steps: i32, len: usize) -> (r: usize)
    requires
        len as i32 != 0,
        i32::MIN <= (current as i32) + steps <= i32::MAX,
    ensures
        r == ((current as i32) + steps) % ((len as i32) as int),
{
    let c: i32 = current as i32;
    let n: i32 = len as i32;
    let total: i32 = c + steps;
    let m: u64 = if n < 0 { (0 - n as i64) as u64 } else { n as u64 };
    proof {
        lemma_mod_by_magnitude(total as int, n as int);
    }
    if total >= 0 {
        let r: u64 = total as u64 % m;
        r as usize
    } else {
        let a: u64 = (0 - total as i64) as u64 % m;
        proof {
            lemma_negative_mod(total as int, m as int, a as int);
        }
        if a == 0 {
            0
        } else {
            (m - a) as usize
        }
    }
}

/// The remainder by a negative divisor is the remainder by its magnitude.
proof fn lemma_mod_by_magnitude(x: int, n: int)
    requires
        n != 0,
    ensures
        x % n == x % (if n < 0 { -n } else { n }),
{
    if n < 0 {
        assert(x % n == x % (-n)) by (nonlinear_arith)
            requires
                n < 0,
        ;
    }
}

proof fn lemma_negative_mod(t: int, n: int, a: int)
    requires
        t < 0,
        n > 0,
        a == (-t) % n,
    ensures
        a == 0 ==> t % n == 0,
        a != 0 ==> t % n == n - a,
{
    vstd::arithmetic::div_mod::lemma_fundamental_div_mod(-t, n);
    vstd::arithmetic::div_mod::lemma_mod_bound(-t, n);
    let q = (-t) / n;
    assert(-t == n * q + a);
    if a == 0 {
        assert(t == (-q) * n + 0) by (nonlinear_arith)
            requires
                -t == n * q + a,
                a == 0,
        ;
        vstd::arithmetic::div_mod::lemma_fundamental_div_mod_converse(t, n, -q, 0);
    } else {
        assert(t == (-q - 1) * n + (n - a)) by (nonlinear_arith)
            requires
                -t == n * q + a,
        ;
        vstd::arithmetic::div_mod::lemma_fundamental_div_mod_converse(t, n, -q - 1, n - a);
    }
}

/// Tabs of the build ribbon.
#[derive(Debug, Clone, Copy, PartialEq, Eq, Hash, Structural)]
pub enum BuildRibbonTab {
    Fixtures,
    Service,
    Decor,
    Walls,
    Store,
}

impl BuildRibbonTab {
    /// The label shown on the tab.
    pub fn label(&self) -> (r: &'static str)
        ensures
            r@ == match *self {
                BuildRibbonTab::Fixtures => "Fixtures"@,
                BuildRibbonTab::Service => "Service"@,
                BuildRibbonTab::Decor => "Decor"@,
                BuildRibbonTab::Walls => "Walls"@,
                BuildRibbonTab::Store => "Store"@,
            },
    {
        match self {
            BuildRibbonTab::Fixtures => "Fixtures",
            BuildRibbonTab::Service => "Service",
            BuildRibbonTab::Decor => "Decor",
            BuildRibbonTab::Walls => "Walls",
            BuildRibbonTab::Store => "Store",
        }
    }
}

/// Groups within the tabs of the build ribbon.
#[derive(Debug, Clone, Copy, PartialEq, Eq, Hash, Structural)]
pub enum BuildRibbonGroup {
    Shelves,
    RacksHangers,
    Fridges,
    Checkout,
    Decor,
    Walls,
    Expansion,
}

impl BuildRibbonGroup {
    /// The label shown on the group.
    pub fn label(&self) -> (r: &'static str)
        ensures
            r@ == match *self {
                BuildRibbonGroup::Shelves => "Shelves"@,
                BuildRibbonGroup::RacksHangers => "Racks / Hangers"@,
                BuildRibbonGroup::Fridges => "Fridges"@,
                BuildRibbonGroup::Checkout => "Checkout"@,
                BuildRibbonGroup::Decor => "Decor"@,
                BuildRibbonGroup::Walls => "Walls"@,
                BuildRibbonGroup::Expansion => "Expansion"@,
            },
    {
        match self {
            BuildRibbonGroup::Shelves => "Shelves",
            BuildRibbonGroup::RacksHangers => "Racks / Hangers",
            BuildRibbonGroup::Fridges => "Fridges",
            BuildRibbonGroup::Checkout => "Checkout",
            BuildRibbonGroup::Decor => "Decor",
            BuildRibbonGroup::Walls => "Walls",
            BuildRibbonGroup::Expansion => "Expansion",
        }
    }
}

/// How a wall-mounted object occupies its stretch of wall.
#[derive(Debug, Clone, Copy, PartialEq, Eq, Hash, Structural)]
pub enum WallOccupancyKind {
    Solid,
    Opening,
    DecorativeOverlay,
    ServiceMount,
    Debug,
}

} // verus!
