//! Consistency checks of the object catalog: capabilities that need interaction points,
//! wall-mounted parts on wall-placed prototypes, sizes and shapes that make sense.
//! Numeric properties of a prototype arrive here already decided, as flags.
use vstd::prelude::*;
use crate::objects::{BuildObjectId, PlacementKind, WallOccupancyKind};

verus! {

/// What an NPC does at an interaction point.
#[derive(Debug, Clone, Copy, PartialEq, Eq, Hash, Structural)]
pub enum NpcInteractionKind {
    BrowseProducts,
    Checkout,
}

/// The shape of a wall opening, as the checks read it.
#[derive(Debug, Clone, Copy, PartialEq, Eq, Structural)]
pub enum OpeningShapeCheck {
    /// A rectangle; `size_positive` tells whether width and height are both above zero.
    Rect { size_positive: bool },
    Polygon,
}

/// A capability of a prototype, as the checks read it.
#[derive(Debug, Clone)]
pub enum CapabilityCheck {
    ProductContainer,
    CheckoutPoint,
    /// The kinds of the prototype's interaction points, in order.
    NpcInteractionPoints { kinds: Vec<NpcInteractionKind> },
    /// `size_positive`: width and height above zero; `default_height_valid`: the default
    /// mount height is not negative; `allowed_sides_empty`: no wall side is allowed.
    WallMounted { size_positive: bool, default_height_valid: bool, allowed_sides_empty: bool },
    /// `size_positive`: width and height above zero; `glass_alpha_valid`: the glass alpha
    /// lies in 0..=1.
    Window { size_positive: bool, glass_alpha_valid: bool },
    WallOpening { shape: OpeningShapeCheck },
    /// A capability without catalog checks (decor, doorway, movable door).
    Unchecked,
}

/// A catalog prototype, as the checks read it.
#[derive(Debug, Clone)]
pub struct CatalogEntry {
    pub id: BuildObjectId,
    pub display_name: String,
    pub placement_kind: PlacementKind,
    pub capabilities: Vec<CapabilityCheck>,
}

/// An inconsistency of a prototype.
#[derive(Debug, Clone, Copy, PartialEq, Eq, Structural)]
pub enum CatalogIssueKind {
    EmptyDisplayName,
    MissingBrowseProductsPoint,
    MissingCheckoutPoint,
    WallMountedOnFloorPlacement,
    InvalidWallMountedSize,
    InvalidDefaultWallHeight,
    NoAllowedWallSides,
    WindowNotWallMounted,
    InvalidWindowSize,
    InvalidWindowGlassAlpha,
    WindowWithoutWallMountedSpec,
    OpeningNotWallMounted,
    OpeningWithoutWallMountedSpec,
    InvalidOpeningRect,
    UnsupportedOpeningPolygon,
}

impl CatalogIssueKind {
    /// What is wrong, as it follows the prototype's name in a message.
    pub fn describe(&self) -> (r: &'static str)
        ensures
            r@ == match *self {
                CatalogIssueKind::EmptyDisplayName => "has empty display name"@,
                CatalogIssueKind::MissingBrowseProductsPoint => "has ProductContainer but no BrowseProducts interaction point"@,
                CatalogIssueKind::MissingCheckoutPoint => "has CheckoutPoint but no Checkout interaction point"@,
                CatalogIssueKind::WallMountedOnFloorPlacement => "has WallMounted capability but non-wall placement"@,
                CatalogIssueKind::InvalidWallMountedSize => "has invalid WallMounted size"@,
                CatalogIssueKind::InvalidDefaultWallHeight => "has invalid default wall mount height"@,
                CatalogIssueKind::NoAllowedWallSides => "has no allowed wall sides"@,
                CatalogIssueKind::WindowNotWallMounted => "has Window capability but is not wall-mounted"@,
                CatalogIssueKind::InvalidWindowSize => "has invalid Window size"@,
                CatalogIssueKind::InvalidWindowGlassAlpha => "has invalid Window glass alpha"@,
                CatalogIssueKind::WindowWithoutWallMountedSpec => "has Window capability without WallMounted spec"@,
                CatalogIssueKind::OpeningNotWallMounted => "has WallOpening capability but is not wall-mounted"@,
                CatalogIssueKind::OpeningWithoutWallMountedSpec => "has WallOpening capability without WallMounted spec"@,
                CatalogIssueKind::InvalidOpeningRect => "has WallOpening with zero or negative Rect dimensions"@,
                CatalogIssueKind::UnsupportedOpeningPolygon => "has WallOpening with Polygon shape, which is not supported in Stage 5B.6"@,
            },
    {
        match self {
            CatalogIssueKind::EmptyDisplayName => "has empty display name",
            CatalogIssueKind::MissingBrowseProductsPoint => "has ProductContainer but no BrowseProducts interaction point",
            CatalogIssueKind::MissingCheckoutPoint => "has CheckoutPoint but no Checkout interaction point",
            CatalogIssueKind::WallMountedOnFloorPlacement => "has WallMounted capability but non-wall placement",
            CatalogIssueKind::InvalidWallMountedSize => "has invalid WallMounted size",
            CatalogIssueKind::InvalidDefaultWallHeight => "has invalid default wall mount height",
            CatalogIssueKind::NoAllowedWallSides => "has no allowed wall sides",
            CatalogIssueKind::WindowNotWallMounted => "has Window capability but is not wall-mounted",
            CatalogIssueKind::InvalidWindowSize => "has invalid Window size",
            CatalogIssueKind::InvalidWindowGlassAlpha => "has invalid Window glass alpha",
            CatalogIssueKind::WindowWithoutWallMountedSpec => "has Window capability without WallMounted spec",
            CatalogIssueKind::OpeningNotWallMounted => "has WallOpening capability but is not wall-mounted",
            CatalogIssueKind::OpeningWithoutWallMountedSpec => "has WallOpening capability without WallMounted spec",
            CatalogIssueKind::InvalidOpeningRect => "has WallOpening with zero or negative Rect dimensions",
            CatalogIssueKind::UnsupportedOpeningPolygon => "has WallOpening with Polygon shape, which is not supported in Stage 5B.6",
        }
    }
}

/// An inconsistency of the prototype at `prototype_index` in the catalog.
#[derive(Debug, Clone, Copy, PartialEq, Eq, Structural)]
pub struct CatalogIssue {
    pub prototype_index: usize,
    pub kind: CatalogIssueKind,
}

/// Some interaction point among `caps` is of kind `k`.
pub open spec fn has_interaction(caps: Seq<CapabilityCheck>, k: NpcInteractionKind) -> bool {
    exists|i: int|
        0 <= i < caps.len() && (#[trigger] caps[i] matches CapabilityCheck::NpcInteractionPoints { kinds }
            && kinds@.contains(k))
}

/// Some capability among `caps` is a wall mount.
pub open spec fn has_wall_mount(caps: Seq<CapabilityCheck>) -> bool {
    exists|i: int| 0 <= i < caps.len() && #[trigger] caps[i] is WallMounted
}

/// `seq![k]` when `c` holds, else empty.
pub open spec fn issue_if(c: bool, k: CatalogIssueKind) -> Seq<CatalogIssueKind> {
    if c {
        seq![k]
    } else {
        Seq::empty()
    }
}

/// The issues that capability `cap` raises on a prototype placed as `placement` with
/// capabilities `caps`.
pub open spec fn capability_issues(
    placement: PlacementKind,
    caps: Seq<CapabilityCheck>,
    cap: CapabilityCheck,
) -> Seq<CatalogIssueKind> {
    let on_wall = placement == PlacementKind::WallMounted;
    match cap {
        CapabilityCheck::ProductContainer => issue_if(
            !has_interaction(caps, NpcInteractionKind::BrowseProducts),
            CatalogIssueKind::MissingBrowseProductsPoint,
        ),
        CapabilityCheck::CheckoutPoint => issue_if(
            !has_interaction(caps, NpcInteractionKind::Checkout),
            CatalogIssueKind::MissingCheckoutPoint,
        ),
        CapabilityCheck::WallMounted { size_positive, default_height_valid, allowed_sides_empty } =>
            issue_if(!on_wall, CatalogIssueKind::WallMountedOnFloorPlacement) + issue_if(
            !size_positive,
            CatalogIssueKind::InvalidWallMountedSize,
        ) + issue_if(!default_height_valid, CatalogIssueKind::InvalidDefaultWallHeight) + issue_if(
            allowed_sides_empty,
            CatalogIssueKind::NoAllowedWallSides,
        ),
        CapabilityCheck::Window { size_positive, glass_alpha_valid } => issue_if(
            !on_wall,
            CatalogIssueKind::WindowNotWallMounted,
        ) + issue_if(!size_positive, CatalogIssueKind::InvalidWindowSize) + issue_if(
            !glass_alpha_valid,
            CatalogIssueKind::InvalidWindowGlassAlpha,
        ) + issue_if(!has_wall_mount(caps), CatalogIssueKind::WindowWithoutWallMountedSpec),
        CapabilityCheck::WallOpening { shape } => issue_if(
            !on_wall,
            CatalogIssueKind::OpeningNotWallMounted,
        ) + issue_if(!has_wall_mount(caps), CatalogIssueKind::OpeningWithoutWallMountedSpec)
            + shape_issues(shape),
        _ => Seq::empty(),
    }
}

/// The issues of the first `n` capabilities of a prototype, in order.
pub open spec fn capabilities_issues(
    placement: PlacementKind,
    caps: Seq<CapabilityCheck>,
    n: int,
) -> Seq<CatalogIssueKind>
    decreases n,
{
    if n <= 0 || n > caps.len() {
        Seq::empty()
    } else {
        capabilities_issues(placement, caps, n - 1) + capability_issues(placement, caps, caps[n - 1])
    }
}

/// The issues of a prototype: an empty display name first, then those of each capability
/// in order.
pub open spec fn entry_issues(e: CatalogEntry) -> Seq<CatalogIssueKind> {
    issue_if(e.display_name@.len() == 0, CatalogIssueKind::EmptyDisplayName) + capabilities_issues(
        e.placement_kind,
        e.capabilities@,
        e.capabilities@.len() as int,
    )
}

/// The issues of the first `n` prototypes of a catalog, each tagged with its index.
pub open spec fn catalog_issues(entries: Seq<CatalogEntry>, n: int) -> Seq<CatalogIssue>
    decreases n,
{
    if n <= 0 || n > entries.len() {
        Seq::empty()
    } else {
        catalog_issues(entries, n - 1) + tagged(entry_issues(entries[n - 1]), (n - 1) as usize)
    }
}

/// `issue_if(c, k)` holds `x` exactly when `c` holds and `x` is `k`.
proof fn lemma_issue_if_contains(c: bool, k: CatalogIssueKind, x: CatalogIssueKind)
    ensures
        issue_if(c, k).contains(x) <==> c && x == k,
{
    if c {
        assert(issue_if(c, k)[0] == k);
    }
}

/// The issues of one capability report a window, or an opening, without a wall mount
/// exactly when the capability is a window, or an opening, and no capability of the
/// prototype is a wall mount.
proof fn lemma_capability_unmounted(placement: PlacementKind, caps: Seq<CapabilityCheck>, cap: CapabilityCheck)
    ensures
        capability_issues(placement, caps, cap).contains(CatalogIssueKind::WindowWithoutWallMountedSpec)
            <==> (cap is Window && !has_wall_mount(caps)),
        capability_issues(placement, caps, cap).contains(CatalogIssueKind::OpeningWithoutWallMountedSpec)
            <==> (cap is WallOpening && !has_wall_mount(caps)),
{
    broadcast use vstd::seq_lib::lemma_seq_concat_contains_all_elements;
    let on_wall = placement == PlacementKind::WallMounted;
    let w = CatalogIssueKind::WindowWithoutWallMountedSpec;
    let o = CatalogIssueKind::OpeningWithoutWallMountedSpec;
    match cap {
        CapabilityCheck::ProductContainer => {
            let c = !has_interaction(caps, NpcInteractionKind::BrowseProducts);
            lemma_issue_if_contains(c, CatalogIssueKind::MissingBrowseProductsPoint, w);
            lemma_issue_if_contains(c, CatalogIssueKind::MissingBrowseProductsPoint, o);
        },
        CapabilityCheck::CheckoutPoint => {
            let c = !has_interaction(caps, NpcInteractionKind::Checkout);
            lemma_issue_if_contains(c, CatalogIssueKind::MissingCheckoutPoint, w);
            lemma_issue_if_contains(c, CatalogIssueKind::MissingCheckoutPoint, o);
        },
        CapabilityCheck::WallMounted { size_positive, default_height_valid, allowed_sides_empty } => {
            let x = w;
            lemma_issue_if_contains(!on_wall, CatalogIssueKind::WallMountedOnFloorPlacement, x);
            lemma_issue_if_contains(!size_positive, CatalogIssueKind::InvalidWallMountedSize, x);
            lemma_issue_if_contains(!default_height_valid, CatalogIssueKind::InvalidDefaultWallHeight, x);
            lemma_issue_if_contains(allowed_sides_empty, CatalogIssueKind::NoAllowedWallSides, x);
            let x = o;
            lemma_issue_if_contains(!on_wall, CatalogIssueKind::WallMountedOnFloorPlacement, x);
            lemma_issue_if_contains(!size_positive, CatalogIssueKind::InvalidWallMountedSize, x);
            lemma_issue_if_contains(!default_height_valid, CatalogIssueKind::InvalidDefaultWallHeight, x);
            lemma_issue_if_contains(allowed_sides_empty, CatalogIssueKind::NoAllowedWallSides, x);
        },
        CapabilityCheck::Window { size_positive, glass_alpha_valid } => {
            let m = !has_wall_mount(caps);
            let x = w;
            lemma_issue_if_contains(!on_wall, CatalogIssueKind::WindowNotWallMounted, x);
            lemma_issue_if_contains(!size_positive, CatalogIssueKind::InvalidWindowSize, x);
            lemma_issue_if_contains(!glass_alpha_valid, CatalogIssueKind::InvalidWindowGlassAlpha, x);
            lemma_issue_if_contains(m, CatalogIssueKind::WindowWithoutWallMountedSpec, x);
            let x = o;
            lemma_issue_if_contains(!on_wall, CatalogIssueKind::WindowNotWallMounted, x);
            lemma_issue_if_contains(!size_positive, CatalogIssueKind::InvalidWindowSize, x);
            lemma_issue_if_contains(!glass_alpha_valid, CatalogIssueKind::InvalidWindowGlassAlpha, x);
            lemma_issue_if_contains(m, CatalogIssueKind::WindowWithoutWallMountedSpec, x);
        },
        CapabilityCheck::WallOpening { shape } => {
            let m = !has_wall_mount(caps);
            let x = w;
            lemma_issue_if_contains(!on_wall, CatalogIssueKind::OpeningNotWallMounted, x);
            lemma_issue_if_contains(m, CatalogIssueKind::OpeningWithoutWallMountedSpec, x);
            let x = o;
            lemma_issue_if_contains(!on_wall, CatalogIssueKind::OpeningNotWallMounted, x);
            lemma_issue_if_contains(m, CatalogIssueKind::OpeningWithoutWallMountedSpec, x);
            match shape {
                OpeningShapeCheck::Rect { size_positive } => {
                    lemma_issue_if_contains(!size_positive, CatalogIssueKind::InvalidOpeningRect, w);
                    lemma_issue_if_contains(!size_positive, CatalogIssueKind::InvalidOpeningRect, o);
                },
                OpeningShapeCheck::Polygon => {
                    assert(shape_issues(shape)[0] == CatalogIssueKind::UnsupportedOpeningPolygon);
                    assert(shape_issues(shape).len() == 1);
                },
            }
        },
        _ => {},
    }
}

/// The issues of the first `n` capabilities report a window, or an opening, without a wall
/// mount exactly when one of those capabilities is a window, or an opening, and no
/// capability of the prototype is a wall mount.
proof fn lemma_capabilities_unmounted(placement: PlacementKind, caps: Seq<CapabilityCheck>, n: int)
    requires
        0 <= n <= caps.len(),
    ensures
        capabilities_issues(placement, caps, n).contains(CatalogIssueKind::WindowWithoutWallMountedSpec)
            <==> ((exists|j: int| 0 <= j < n && #[trigger] caps[j] is Window) && !has_wall_mount(caps)),
        capabilities_issues(placement, caps, n).contains(CatalogIssueKind::OpeningWithoutWallMountedSpec)
            <==> ((exists|j: int| 0 <= j < n && #[trigger] caps[j] is WallOpening) && !has_wall_mount(caps)),
    decreases n,
{
    broadcast use vstd::seq_lib::lemma_seq_concat_contains_all_elements;
    if n > 0 {
        lemma_capabilities_unmounted(placement, caps, n - 1);
        lemma_capability_unmounted(placement, caps, caps[n - 1]);
        if exists|j: int| 0 <= j < n && #[trigger] caps[j] is Window {
            let j = choose|j: int| 0 <= j < n && #[trigger] caps[j] is Window;
            if j < n - 1 {
                assert(caps[j] is Window);
            }
        }
        if exists|j: int| 0 <= j < n && #[trigger] caps[j] is WallOpening {
            let j = choose|j: int| 0 <= j < n && #[trigger] caps[j] is WallOpening;
            if j < n - 1 {
                assert(caps[j] is WallOpening);
            }
        }
    }
}

/// A tagged list holds an issue exactly when the issue carries the tag and its kind is
/// listed.
proof fn lemma_tagged_contains(ks: Seq<CatalogIssueKind>, index: usize, issue: CatalogIssue)
    ensures
        tagged(ks, index).contains(issue) <==> issue.prototype_index == index && ks.contains(issue.kind),
{
    if tagged(ks, index).contains(issue) {
        let i = choose|i: int| 0 <= i < tagged(ks, index).len() && tagged(ks, index)[i] == issue;
        assert(ks[i] == issue.kind);
    }
    if issue.prototype_index == index && ks.contains(issue.kind) {
        let i = choose|i: int| 0 <= i < ks.len() && ks[i] == issue.kind;
        assert(tagged(ks, index)[i] == issue);
    }
}

/// The issues of the first `n` prototypes hold an issue of kind `k` for prototype `p`
/// exactly when `p` is one of them and its own issues hold `k`.
proof fn lemma_catalog_issues_contains(entries: Seq<CatalogEntry>, n: int, p: usize, k: CatalogIssueKind)
    requires
        0 <= n <= entries.len(),
        entries.len() <= usize::MAX,
    ensures
        catalog_issues(entries, n).contains(CatalogIssue { prototype_index: p, kind: k }) <==> (p < n
            && entry_issues(entries[p as int]).contains(k)),
    decreases n,
{
    broadcast use vstd::seq_lib::lemma_seq_concat_contains_all_elements;
    if n > 0 {
        lemma_catalog_issues_contains(entries, n - 1, p, k);
        lemma_tagged_contains(
            entry_issues(entries[n - 1]),
            (n - 1) as usize,
            CatalogIssue { prototype_index: p, kind: k },
        );
    }
}

/// A prototype is reported for a window without a wall mount exactly when one of its
/// capabilities is a window and none is a wall mount; likewise for a wall opening without a
/// wall mount. Other capabilities, and a wall mount anywhere among the capabilities, never
/// raise these issues.
pub proof fn lemma_unmounted_windows_and_openings_reported(entries: &Vec<CatalogEntry>, p: usize)
    requires
        p < entries@.len(),
        entries@.len() <= usize::MAX,
    ensures
        ({
            let caps = entries@[p as int].capabilities@;
            let issues = catalog_issues(entries@, entries@.len() as int);
            &&& issues.contains(
                CatalogIssue { prototype_index: p, kind: CatalogIssueKind::WindowWithoutWallMountedSpec },
            ) <==> ((exists|j: int| 0 <= j < caps.len() && #[trigger] caps[j] is Window) && !exists|j: int|
                0 <= j < caps.len() && #[trigger] caps[j] is WallMounted)
            &&& issues.contains(
                CatalogIssue { prototype_index: p, kind: CatalogIssueKind::OpeningWithoutWallMountedSpec },
            ) <==> ((exists|j: int| 0 <= j < caps.len() && #[trigger] caps[j] is WallOpening) && !exists|j: int|
                0 <= j < caps.len() && #[trigger] caps[j] is WallMounted)
        }),
{
    broadcast use vstd::seq_lib::lemma_seq_concat_contains_all_elements;
    let e = entries@[p as int];
    let caps = e.capabilities@;
    let w = CatalogIssueKind::WindowWithoutWallMountedSpec;
    let o = CatalogIssueKind::OpeningWithoutWallMountedSpec;
    lemma_catalog_issues_contains(entries@, entries@.len() as int, p, w);
    lemma_catalog_issues_contains(entries@, entries@.len() as int, p, o);
    lemma_capabilities_unmounted(e.placement_kind, caps, caps.len() as int);
    lemma_issue_if_contains(e.display_name@.len() == 0, CatalogIssueKind::EmptyDisplayName, w);
    lemma_issue_if_contains(e.display_name@.len() == 0, CatalogIssueKind::EmptyDisplayName, o);
}

/// Whether some interaction point among `caps` is of kind `k`.
fn find_interaction(caps: &Vec<CapabilityCheck>, k: NpcInteractionKind) -> (r: bool)
    ensures
        r == has_interaction(caps@, k),
{
    let mut i: usize = 0;
    while i < caps.len()
        invariant
            i <= caps@.len(),
            forall|j: int|
                0 <= j < i ==> !(#[trigger] caps@[j] matches CapabilityCheck::NpcInteractionPoints {
                    kinds,
                } && kinds@.contains(k)),
        decreases caps@.len() - i,
    {
        match &caps[i] {
            CapabilityCheck::NpcInteractionPoints { kinds } => {
                let mut j: usize = 0;
                while j < kinds.len()
                    invariant
                        j <= kinds@.len(),
                        i < caps@.len(),
                        caps@[i as int] == (CapabilityCheck::NpcInteractionPoints { kinds: *kinds }),
                        forall|m: int| 0 <= m < j ==> kinds@[m] != k,
                    decreases kinds@.len() - j,
                {
                    if kinds[j] == k {
                        proof {
                            assert(kinds@[j as int] == k);
                            assert(caps@[i as int] matches CapabilityCheck::NpcInteractionPoints { kinds } && kinds@.contains(k));
                        }
                        return true;
                    }
                    j = j + 1;
                }
            },
            _ => {},
        }
        i = i + 1;
    }
    false
}

/// Whether some capability among `caps` is a wall mount.
fn find_wall_mount(caps: &Vec<CapabilityCheck>) -> (r: bool)
    ensures
        r == has_wall_mount(caps@),
{
    let mut i: usize = 0;
    while i < caps.len()
        invariant
            i <= caps@.len(),
            forall|j: int| 0 <= j < i ==> !(#[trigger] caps@[j] is WallMounted),
        decreases caps@.len() - i,
    {
        match &caps[i] {
            CapabilityCheck::WallMounted { .. } => {
                return true;
            },
            _ => {},
        }
        i = i + 1;
    }
    false
}

/// The issues `ks`, each tagged with prototype index `index`.
pub open spec fn tagged(ks: Seq<CatalogIssueKind>, index: usize) -> Seq<CatalogIssue> {
    ks.map_values(|k: CatalogIssueKind| CatalogIssue { prototype_index: index, kind: k })
}

proof fn lemma_tagged_concat(a: Seq<CatalogIssueKind>, b: Seq<CatalogIssueKind>, index: usize)
    ensures
        tagged(a + b, index) == tagged(a, index) + tagged(b, index),
{
    assert(tagged(a + b, index) =~= tagged(a, index) + tagged(b, index));
}

/// Appends `CatalogIssue { index, k }` to `out` when `c` holds.
fn push_issue_if(out: &mut Vec<CatalogIssue>, c: bool, index: usize, k: CatalogIssueKind)
    ensures
        final(out)@ == old(out)@ + tagged(issue_if(c, k), index),
{
    if c {
        out.push(CatalogIssue { prototype_index: index, kind: k });
    }
    proof {
        assert(final(out)@ =~= old(out)@ + tagged(issue_if(c, k), index));
    }
}

/// Appends the four issues of a wall mount, in order.
fn push_wall_mount_issues(
    out: &mut Vec<CatalogIssue>,
    index: usize,
    on_wall: bool,
    size_positive: bool,
    default_height_valid: bool,
    allowed_sides_empty: bool,
)
    ensures
        final(out)@ == old(out)@ + tagged(
            issue_if(!on_wall, CatalogIssueKind::WallMountedOnFloorPlacement) + issue_if(
                !size_positive,
                CatalogIssueKind::InvalidWallMountedSize,
            ) + issue_if(!default_height_valid, CatalogIssueKind::InvalidDefaultWallHeight)
                + issue_if(allowed_sides_empty, CatalogIssueKind::NoAllowedWallSides),
            index,
        ),
{
    let ghost a = issue_if(!on_wall, CatalogIssueKind::WallMountedOnFloorPlacement);
    let ghost b = issue_if(!size_positive, CatalogIssueKind::InvalidWallMountedSize);
    let ghost c = issue_if(!default_height_valid, CatalogIssueKind::InvalidDefaultWallHeight);
    let ghost d = issue_if(allowed_sides_empty, CatalogIssueKind::NoAllowedWallSides);
    push_issue_if(out, !on_wall, index, CatalogIssueKind::WallMountedOnFloorPlacement);
    push_issue_if(out, !size_positive, index, CatalogIssueKind::InvalidWallMountedSize);
    push_issue_if(out, !default_height_valid, index, CatalogIssueKind::InvalidDefaultWallHeight);
    push_issue_if(out, allowed_sides_empty, index, CatalogIssueKind::NoAllowedWallSides);
    proof {
        lemma_tagged_concat(a, b, index);
        lemma_tagged_concat(a + b, c, index);
        lemma_tagged_concat(a + b + c, d, index);
        assert(final(out)@ =~= old(out)@ + tagged(a + b + c + d, index));
    }
}

/// Appends the four issues of a window, in order.
fn push_window_issues(
    out: &mut Vec<CatalogIssue>,
    index: usize,
    on_wall: bool,
    size_positive: bool,
    glass_alpha_valid: bool,
    mounted: bool,
)
    ensures
        final(out)@ == old(out)@ + tagged(
            issue_if(!on_wall, CatalogIssueKind::WindowNotWallMounted) + issue_if(
                !size_positive,
                CatalogIssueKind::InvalidWindowSize,
            ) + issue_if(!glass_alpha_valid, CatalogIssueKind::InvalidWindowGlassAlpha) + issue_if(
                !mounted,
                CatalogIssueKind::WindowWithoutWallMountedSpec,
            ),
            index,
        ),
{
    let ghost a = issue_if(!on_wall, CatalogIssueKind::WindowNotWallMounted);
    let ghost b = issue_if(!size_positive, CatalogIssueKind::InvalidWindowSize);
    let ghost c = issue_if(!glass_alpha_valid, CatalogIssueKind::InvalidWindowGlassAlpha);
    let ghost d = issue_if(!mounted, CatalogIssueKind::WindowWithoutWallMountedSpec);
    push_issue_if(out, !on_wall, index, CatalogIssueKind::WindowNotWallMounted);
    push_issue_if(out, !size_positive, index, CatalogIssueKind::InvalidWindowSize);
    push_issue_if(out, !glass_alpha_valid, index, CatalogIssueKind::InvalidWindowGlassAlpha);
    push_issue_if(out, !mounted, index, CatalogIssueKind::WindowWithoutWallMountedSpec);
    proof {
        lemma_tagged_concat(a, b, index);
        lemma_tagged_concat(a + b, c, index);
        lemma_tagged_concat(a + b + c, d, index);
        assert(final(out)@ =~= old(out)@ + tagged(a + b + c + d, index));
    }
}

/// The issue of an opening's shape.
pub open spec fn shape_issues(shape: OpeningShapeCheck) -> Seq<CatalogIssueKind> {
    match shape {
        OpeningShapeCheck::Rect { size_positive } => issue_if(
            !size_positive,
            CatalogIssueKind::InvalidOpeningRect,
        ),
        OpeningShapeCheck::Polygon => seq![CatalogIssueKind::UnsupportedOpeningPolygon],
    }
}

/// Appends the three issues of a wall opening, in order.
fn push_opening_issues(
    out: &mut Vec<CatalogIssue>,
    index: usize,
    on_wall: bool,
    mounted: bool,
    shape: OpeningShapeCheck,
)
    ensures
        final(out)@ == old(out)@ + tagged(
            issue_if(!on_wall, CatalogIssueKind::OpeningNotWallMounted) + issue_if(
                !mounted,
                CatalogIssueKind::OpeningWithoutWallMountedSpec,
            ) + shape_issues(shape),
            index,
        ),
{
    let ghost a = issue_if(!on_wall, CatalogIssueKind::OpeningNotWallMounted);
    let ghost b = issue_if(!mounted, CatalogIssueKind::OpeningWithoutWallMountedSpec);
    push_issue_if(out, !on_wall, index, CatalogIssueKind::OpeningNotWallMounted);
    push_issue_if(out, !mounted, index, CatalogIssueKind::OpeningWithoutWallMountedSpec);
    match shape {
        OpeningShapeCheck::Rect { size_positive } => {
            push_issue_if(out, !size_positive, index, CatalogIssueKind::InvalidOpeningRect);
        },
        OpeningShapeCheck::Polygon => {
            push_issue_if(out, true, index, CatalogIssueKind::UnsupportedOpeningPolygon);
        },
    }
    proof {
        assert(shape_issues(shape) == issue_if(
            shape matches OpeningShapeCheck::Rect { size_positive } ==> !size_positive,
            match shape {
                OpeningShapeCheck::Rect { .. } => CatalogIssueKind::InvalidOpeningRect,
                OpeningShapeCheck::Polygon => CatalogIssueKind::UnsupportedOpeningPolygon,
            },
        ));
        lemma_tagged_concat(a, b, index);
        lemma_tagged_concat(a + b, shape_issues(shape), index);
        assert(final(out)@ =~= old(out)@ + tagged(a + b + shape_issues(shape), index));
    }
}

/// The issues that capability `cap` raises, tagged with `index`, appended to `out`.
fn push_capability_issues(
    out: &mut Vec<CatalogIssue>,
    index: usize,
    entry: &CatalogEntry,
    cap: &CapabilityCheck,
)
    ensures
        final(out)@ == old(out)@ + tagged(
            capability_issues(entry.placement_kind, entry.capabilities@, *cap),
            index,
        ),
{
    let on_wall = match entry.placement_kind {
        PlacementKind::WallMounted => true,
        PlacementKind::Floor => false,
    };
    match cap {
        CapabilityCheck::ProductContainer => {
            let found = find_interaction(&entry.capabilities, NpcInteractionKind::BrowseProducts);
            push_issue_if(out, !found, index, CatalogIssueKind::MissingBrowseProductsPoint);
        },
        CapabilityCheck::CheckoutPoint => {
            let found = find_interaction(&entry.capabilities, NpcInteractionKind::Checkout);
            push_issue_if(out, !found, index, CatalogIssueKind::MissingCheckoutPoint);
        },
        CapabilityCheck::WallMounted { size_positive, default_height_valid, allowed_sides_empty } => {
            push_wall_mount_issues(
                out,
                index,
                on_wall,
                *size_positive,
                *default_height_valid,
                *allowed_sides_empty,
            );
        },
        CapabilityCheck::Window { size_positive, glass_alpha_valid } => {
            let mounted = find_wall_mount(&entry.capabilities);
            push_window_issues(out, index, on_wall, *size_positive, *glass_alpha_valid, mounted);
        },
        CapabilityCheck::WallOpening { shape } => {
            let mounted = find_wall_mount(&entry.capabilities);
            push_opening_issues(out, index, on_wall, mounted, *shape);
        },
        _ => {
            proof {
                assert(out@ =~= old(out)@ + tagged(Seq::<CatalogIssueKind>::empty(), index));
            }
        },
    }
}

/// All inconsistencies of the catalog `entries`: for each prototype in order, an empty
/// display name first, then the issues of its capabilities in order.
pub fn validate_object_catalog(entries: &Vec<CatalogEntry>) -> (r: Vec<CatalogIssue>)
    ensures
        r@ == catalog_issues(entries@, entries@.len() as int),
        forall|p: int|
            #![trigger entries@[p]]
            0 <= p < entries@.len() ==> (r@.contains(
                CatalogIssue { prototype_index: p as usize, kind: CatalogIssueKind::WindowWithoutWallMountedSpec },
            ) <==> ((exists|j: int|
                0 <= j < entries@[p].capabilities@.len() && #[trigger] entries@[p].capabilities@[j] is Window)
                && !exists|j: int|
                0 <= j < entries@[p].capabilities@.len() && #[trigger] entries@[p].capabilities@[j] is WallMounted)),
        forall|p: int|
            #![trigger entries@[p]]
            0 <= p < entries@.len() ==> (r@.contains(
                CatalogIssue { prototype_index: p as usize, kind: CatalogIssueKind::OpeningWithoutWallMountedSpec },
            ) <==> ((exists|j: int|
                0 <= j < entries@[p].capabilities@.len() && #[trigger] entries@[p].capabilities@[j] is WallOpening)
                && !exists|j: int|
                0 <= j < entries@[p].capabilities@.len() && #[trigger] entries@[p].capabilities@[j] is WallMounted)),
{
    let mut out: Vec<CatalogIssue> = Vec::new();
    let mut p: usize = 0;
    while p < entries.len()
        invariant
            p <= entries@.len(),
            out@ == catalog_issues(entries@, p as int),
        decreases entries@.len() - p,
    {
        let entry = &entries[p];
        let ghost before = out@;
        let empty_name = entry.display_name.as_str().is_empty();
        push_issue_if(&mut out, empty_name, p, CatalogIssueKind::EmptyDisplayName);
        let mut c: usize = 0;
        while c < entry.capabilities.len()
            invariant
                c <= entry.capabilities@.len(),
                entry == entries@[p as int],
                out@ == before + tagged(
                    issue_if(empty_name, CatalogIssueKind::EmptyDisplayName) + capabilities_issues(
                        entry.placement_kind,
                        entry.capabilities@,
                        c as int,
                    ),
                    p,
                ),
            decreases entry.capabilities@.len() - c,
        {
            push_capability_issues(&mut out, p, entry, &entry.capabilities[c]);
            proof {
                let pre = issue_if(empty_name, CatalogIssueKind::EmptyDisplayName);
                let x = capabilities_issues(entry.placement_kind, entry.capabilities@, c as int);
                let y = capability_issues(entry.placement_kind, entry.capabilities@, entry.capabilities@[c as int]);
                assert(capabilities_issues(entry.placement_kind, entry.capabilities@, c as int + 1) == x + y);
                lemma_tagged_concat(pre + x, y, p);
                assert(pre + x + y =~= pre + (x + y));
            }
            c = c + 1;
        }
        proof {
            assert(out@ =~= catalog_issues(entries@, p as int + 1));
        }
        p = p + 1;
    }
    proof {
        assert forall|p: int| #![trigger entries@[p]] 0 <= p < entries@.len() implies ({
            let caps = entries@[p].capabilities@;
            let issues = catalog_issues(entries@, entries@.len() as int);
            &&& issues.contains(
                CatalogIssue { prototype_index: p as usize, kind: CatalogIssueKind::WindowWithoutWallMountedSpec },
            ) <==> ((exists|j: int| 0 <= j < caps.len() && #[trigger] caps[j] is Window) && !exists|j: int|
                0 <= j < caps.len() && #[trigger] caps[j] is WallMounted)
            &&& issues.contains(
                CatalogIssue { prototype_index: p as usize, kind: CatalogIssueKind::OpeningWithoutWallMountedSpec },
            ) <==> ((exists|j: int| 0 <= j < caps.len() && #[trigger] caps[j] is WallOpening) && !exists|j: int|
                0 <= j < caps.len() && #[trigger] caps[j] is WallMounted)
        }) by {
            lemma_unmounted_windows_and_openings_reported(entries, p as usize);
        }
    }
    out
}

/// Some capability among `caps` cuts into the wall: a window or a wall opening.
pub open spec fn cuts_wall(caps: Seq<CapabilityCheck>) -> bool {
    exists|i: int| 0 <= i < caps.len() && (#[trigger] caps[i] is Window || caps[i] is WallOpening)
}

/// How a wall-mounted prototype occupies its wall: windows and openings make an opening,
/// anything else lies over the wall as decoration.
pub fn wall_occupancy_kind_for_prototype(entry: &CatalogEntry) -> (r: WallOccupancyKind)
    ensures
        r == if cuts_wall(entry.capabilities@) {
            WallOccupancyKind::Opening
        } else {
            WallOccupancyKind::DecorativeOverlay
        },
{
    let mut i: usize = 0;
    while i < entry.capabilities.len()
        invariant
            i <= entry.capabilities@.len(),
            forall|j: int| 0 <= j < i ==> !(#[trigger] entry.capabilities@[j] is Window || entry.capabilities@[j] is WallOpening),
        decreases entry.capabilities@.len() - i,
    {
        match &entry.capabilities[i] {
            CapabilityCheck::Window { .. } | CapabilityCheck::WallOpening { .. } => {
                return WallOccupancyKind::Opening;
            },
            _ => {},
        }
        i = i + 1;
    }
    WallOccupancyKind::DecorativeOverlay
}

} // verus!
