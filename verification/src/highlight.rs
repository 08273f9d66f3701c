//! Which objects show which highlight: the hovered, selected, moved and previewed
//! objects, tracked from one frame to the next. Objects are named by their entity bits.
use vstd::prelude::*;
use crate::objects::HighlightKind;

verus! {

/// The highlight targets of the previous frame, and the objects whose highlight was
/// cleared in it.
#[derive(Debug, Clone, Default)]
pub struct HighlightRuntimeState {
    pub hovered: Option<u64>,
    pub selected: Option<u64>,
    pub move_source: Option<u64>,
    pub preview: Option<u64>,
    pub dirty: Vec<u64>,
}

/// `list` extended by the entity of `entity`, if there is one and `list` lacks it.
pub open spec fn pushed_unique(list: Seq<u64>, entity: Option<u64>) -> Seq<u64> {
    match entity {
        Some(e) => if list.contains(e) {
            list
        } else {
            list.push(e)
        },
        None => list,
    }
}

/// The entities of `opts`, each once, in the order of their first occurrence.
pub open spec fn unique_entities(opts: Seq<Option<u64>>) -> Seq<u64>
    decreases opts.len(),
{
    if opts.len() == 0 {
        Seq::empty()
    } else {
        pushed_unique(unique_entities(opts.drop_last()), opts.last())
    }
}

/// Appends the entity of `entity` to `list` unless it is absent or already listed.
pub fn push_unique(list: &mut Vec<u64>, entity: Option<u64>)
    ensures
        final(list)@ == pushed_unique(old(list)@, entity),
{
    let e = match entity {
        Some(e) => e,
        None => {
            return;
        },
    };
    let mut i: usize = 0;
    while i < list.len()
        invariant
            i <= list@.len(),
            list@ == old(list)@,
            entity == Some(e),
            forall|j: int| 0 <= j < i ==> list@[j] != e,
        decreases list@.len() - i,
    {
        if list[i] == e {
            proof {
                assert(list@[i as int] == e);
            }
            return;
        }
        i = i + 1;
    }
    list.push(e);
}

proof fn lemma_unique_entities(opts: Seq<Option<u64>>)
    ensures
        unique_entities(opts).no_duplicates(),
        forall|x: u64|
            #[trigger] unique_entities(opts).contains(x) <==> opts.contains(Some(x)),
    decreases opts.len(),
{
    if opts.len() > 0 {
        let p = opts.drop_last();
        lemma_unique_entities(p);
        let u = unique_entities(p);
        assert forall|x: u64| #[trigger] unique_entities(opts).contains(x) <==> opts.contains(Some(x)) by {
            if opts.contains(Some(x)) {
                let k = choose|k: int| 0 <= k < opts.len() && opts[k] == Some(x);
                if k < opts.len() - 1 {
                    assert(p[k] == Some(x));
                    assert(p.contains(Some(x)));
                    assert(u.contains(x));
                    if let Some(e) = opts.last() {
                        if !u.contains(e) {
                            let m = choose|m: int| 0 <= m < u.len() && u[m] == x;
                            assert(u.push(e)[m] == x);
                        }
                    }
                } else {
                    if !u.contains(x) {
                        assert(u.push(x)[u.len() as int] == x);
                    }
                }
            }
            if unique_entities(opts).contains(x) {
                if u.contains(x) {
                    let k = choose|k: int| 0 <= k < p.len() && p[k] == Some(x);
                    assert(opts[k] == Some(x));
                } else {
                    let m = choose|m: int| 0 <= m < unique_entities(opts).len() && unique_entities(opts)[m] == x;
                    assert(opts[opts.len() - 1] == Some(x));
                }
            }
        }
        if let Some(e) = opts.last() {
            if !u.contains(e) {
                assert forall|a: int, b: int| 0 <= a < b < u.push(e).len() implies u.push(e)[a] != u.push(e)[b] by {
                    if b == u.len() {
                        assert(u.contains(u[a]));
                    }
                }
            }
        }
    }
}

/// The objects whose highlight must be recomputed: the previous and the current targets,
/// each once, in the order previous hovered, selected, move source, preview, then current
/// hovered, selected, move source, preview.
pub fn collect_dirty_entities(
    previous: &HighlightRuntimeState,
    current_hovered: Option<u64>,
    current_selected: Option<u64>,
    current_move_source: Option<u64>,
    current_preview: Option<u64>,
) -> (r: Vec<u64>)
    ensures
        r@ == unique_entities(
            seq![
                previous.hovered,
                previous.selected,
                previous.move_source,
                previous.preview,
                current_hovered,
                current_selected,
                current_move_source,
                current_preview,
            ],
        ),
        r@.no_duplicates(),
        forall|x: u64|
            #[trigger] r@.contains(x) <==> (previous.hovered == Some(x) || previous.selected == Some(x)
                || previous.move_source == Some(x) || previous.preview == Some(x) || current_hovered
                == Some(x) || current_selected == Some(x) || current_move_source == Some(x)
                || current_preview == Some(x)),
{
    let ghost opts = seq![
        previous.hovered,
        previous.selected,
        previous.move_source,
        previous.preview,
        current_hovered,
        current_selected,
        current_move_source,
        current_preview,
    ];
    let items: [Option<u64>; 8] = [
        previous.hovered,
        previous.selected,
        previous.move_source,
        previous.preview,
        current_hovered,
        current_selected,
        current_move_source,
        current_preview,
    ];
    assert(items@ =~= opts);
    let mut dirty: Vec<u64> = Vec::new();
    let mut i: usize = 0;
    while i < 8
        invariant
            i <= 8,
            items@ == opts,
            opts.len() == 8,
            dirty@ == unique_entities(opts.take(i as int)),
        decreases 8 - i,
    {
        proof {
            assert(opts.take(i as int + 1).drop_last() =~= opts.take(i as int));
        }
        push_unique(&mut dirty, items[i]);
        i = i + 1;
    }
    proof {
        assert(opts.take(8) =~= opts);
        lemma_unique_entities(opts);
        assert forall|x: u64| opts.contains(Some(x)) <==> (previous.hovered == Some(x)
            || previous.selected == Some(x) || previous.move_source == Some(x) || previous.preview
            == Some(x) || current_hovered == Some(x) || current_selected == Some(x)
            || current_move_source == Some(x) || current_preview == Some(x)) by {
            if opts.contains(Some(x)) {
                let k = choose|k: int| 0 <= k < opts.len() && opts[k] == Some(x);
            }
            if previous.hovered == Some(x) { assert(opts[0] == Some(x)); }
            if previous.selected == Some(x) { assert(opts[1] == Some(x)); }
            if previous.move_source == Some(x) { assert(opts[2] == Some(x)); }
            if previous.preview == Some(x) { assert(opts[3] == Some(x)); }
            if current_hovered == Some(x) { assert(opts[4] == Some(x)); }
            if current_selected == Some(x) { assert(opts[5] == Some(x)); }
            if current_move_source == Some(x) { assert(opts[6] == Some(x)); }
            if current_preview == Some(x) { assert(opts[7] == Some(x)); }
        }
    }
    dirty
}

/// The active tool, as far as highlighting cares.
#[derive(Debug, Clone, Copy, PartialEq, Eq, Structural)]
pub enum HighlightToolMode {
    Move,
    Delete,
    Other,
}

/// The highlight of the hovered object: in the move tool only a movable object shows
/// hover, in the delete tool only a deletable one shows danger, in any other tool it
/// shows hover.
pub open spec fn hover_kind(mode: HighlightToolMode, movable: bool, deletable: bool) -> Option<HighlightKind> {
    match mode {
        HighlightToolMode::Move => if movable {
            Some(HighlightKind::Hover)
        } else {
            None
        },
        HighlightToolMode::Delete => if deletable {
            Some(HighlightKind::DeleteDanger)
        } else {
            None
        },
        HighlightToolMode::Other => Some(HighlightKind::Hover),
    }
}

/// The highlights set this frame: the selected object shows `Selected` unless it is being
/// moved; the hovered object, unless it is selected or being moved, shows `hover_kind`.
pub open spec fn planned_intents(
    mode: HighlightToolMode,
    hovered: Option<u64>,
    selected: Option<u64>,
    move_source: Option<u64>,
    hovered_movable: bool,
    hovered_deletable: bool,
) -> Seq<(u64, HighlightKind)> {
    let sel = match selected {
        Some(s) => if Some(s) != move_source {
            seq![(s, HighlightKind::Selected)]
        } else {
            Seq::empty()
        },
        None => Seq::empty(),
    };
    let hov = match hovered {
        Some(h) => if Some(h) != selected && Some(h) != move_source {
            match hover_kind(mode, hovered_movable, hovered_deletable) {
                Some(k) => seq![(h, k)],
                None => Seq::empty(),
            }
        } else {
            Seq::empty()
        },
        None => Seq::empty(),
    };
    sel + hov
}

/// Each object shows at most one highlight this frame: no entity has two intents; the
/// object being moved shows none; the selected object shows `Selected` and nothing else,
/// so hovering it adds no hover highlight; `Selected` goes to the selected object only.
pub proof fn lemma_one_highlight_per_object(
    mode: HighlightToolMode,
    hovered: Option<u64>,
    selected: Option<u64>,
    move_source: Option<u64>,
    hovered_movable: bool,
    hovered_deletable: bool,
)
    ensures
        ({
            let intents = planned_intents(mode, hovered, selected, move_source, hovered_movable, hovered_deletable);
            &&& forall|a: int, b: int| 0 <= a < b < intents.len() ==> intents[a].0 != intents[b].0
            &&& forall|a: int| 0 <= a < intents.len() ==> move_source != Some(#[trigger] intents[a].0)
            &&& forall|a: int| 0 <= a < intents.len() ==> (selected == Some(#[trigger] intents[a].0)
                <==> intents[a].1 == HighlightKind::Selected)
        }),
{
}

/// What to do with highlights this frame: clear those of `state.dirty`, then set
/// `intents`; `state` is carried to the next frame.
#[derive(Debug, Clone)]
pub struct HighlightPlan {
    pub intents: Vec<(u64, HighlightKind)>,
    pub state: HighlightRuntimeState,
}

/// Plans the highlight changes of a frame from the previous targets and the current
/// ones; `hovered_movable` and `hovered_deletable` describe the hovered object.
pub fn plan_highlight_intents(
    previous: &HighlightRuntimeState,
    mode: HighlightToolMode,
    current_hovered: Option<u64>,
    current_selected: Option<u64>,
    current_move_source: Option<u64>,
    current_preview: Option<u64>,
    hovered_movable: bool,
    hovered_deletable: bool,
) -> (r: HighlightPlan)
    ensures
        r.intents@ == planned_intents(
            mode,
            current_hovered,
            current_selected,
            current_move_source,
            hovered_movable,
            hovered_deletable,
        ),
        r.state.hovered == current_hovered,
        r.state.selected == current_selected,
        r.state.move_source == current_move_source,
        r.state.preview == current_preview,
        r.state.dirty@ == unique_entities(
            seq![
                previous.hovered,
                previous.selected,
                previous.move_source,
                previous.preview,
                current_hovered,
                current_selected,
                current_move_source,
                current_preview,
            ],
        ),
        forall|a: int, b: int| 0 <= a < b < r.intents@.len() ==> r.intents@[a].0 != r.intents@[b].0,
        forall|a: int| 0 <= a < r.intents@.len() ==> current_move_source != Some(#[trigger] r.intents@[a].0),
        forall|a: int| 0 <= a < r.intents@.len() ==> (current_selected == Some(#[trigger] r.intents@[a].0)
            <==> r.intents@[a].1 == HighlightKind::Selected),
{
    proof {
        lemma_one_highlight_per_object(
            mode,
            current_hovered,
            current_selected,
            current_move_source,
            hovered_movable,
            hovered_deletable,
        );
    }
    let dirty = collect_dirty_entities(
        previous,
        current_hovered,
        current_selected,
        current_move_source,
        current_preview,
    );
    let mut intents: Vec<(u64, HighlightKind)> = Vec::new();
    match current_selected {
        Some(s) => {
            let moved = match current_move_source {
                Some(m) => m == s,
                None => false,
            };
            if !moved {
                intents.push((s, HighlightKind::Selected));
            }
        },
        None => {},
    }
    let ghost sel = intents@;
    match current_hovered {
        Some(h) => {
            let is_selected = match current_selected {
                Some(s) => s == h,
                None => false,
            };
            let is_moved = match current_move_source {
                Some(m) => m == h,
                None => false,
            };
            if !is_selected && !is_moved {
                let kind = match mode {
                    HighlightToolMode::Move => if hovered_movable {
                        Some(HighlightKind::Hover)
                    } else {
                        None
                    },
                    HighlightToolMode::Delete => if hovered_deletable {
                        Some(HighlightKind::DeleteDanger)
                    } else {
                        None
                    },
                    HighlightToolMode::Other => Some(HighlightKind::Hover),
                };
                match kind {
                    Some(k) => {
                        intents.push((h, k));
                    },
                    None => {},
                }
            }
        },
        None => {},
    }
    proof {
        assert(intents@ =~= planned_intents(
            mode,
            current_hovered,
            current_selected,
            current_move_source,
            hovered_movable,
            hovered_deletable,
        ));
    }
    HighlightPlan {
        intents,
        state: HighlightRuntimeState {
            hovered: current_hovered,
            selected: current_selected,
            move_source: current_move_source,
            preview: current_preview,
            dirty,
        },
    }
}

} // verus!
