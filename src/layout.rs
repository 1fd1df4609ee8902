use vstd::prelude::*;

use crate::direction::Direction;

verus! {

/// Number of cells that stand for one percent of a row `total_cells` wide:
/// a hundredth of the row, but never less than one cell.
pub open spec fn spec_cells_per_percent(total_cells: nat) -> nat {
    if total_cells / 100 >= 1 {
        total_cells / 100
    } else {
        1
    }
}

/// Cells per percent of width for a row of `total_cells` cells.
pub fn cells_per_percent(total_cells: u64) -> (r: u64)
    ensures
        r as nat == spec_cells_per_percent(total_cells as nat),
        r >= 1,
{
    let c = total_cells / 100;
    if c >= 1 {
        c
    } else {
        1
    }
}

/// A row at least a hundred cells wide gives each percent at least one cell,
/// and exactly a hundredth of the row.
pub proof fn lemma_wide_row_cells_per_percent(total_cells: nat)
    requires
        total_cells >= 100,
    ensures
        spec_cells_per_percent(total_cells) == total_cells / 100,
        spec_cells_per_percent(total_cells) >= 1,
{
}

/// One relative resize: move the edge of `pane_id` by `amount` cells towards
/// `direction`.
#[derive(PartialEq, Eq, Structural, Clone, Copy, Debug)]
pub struct ResizeOp {
    pub pane_id: u64,
    pub amount: u128,
    pub direction: Direction,
}

/// Signed excess width of a pane: positive when it is wider than its target.
pub open spec fn width_delta(current: nat, percent: nat, cpp: nat) -> int {
    current as int - (percent * cpp) as int
}

/// Direction in which pane `i` of `n` gives up width. The last pane that is
/// adjusted (the one before the last) borrows from its right-hand neighbour.
pub open spec fn shrink_direction(i: nat, n: nat) -> Direction {
    if i + 2 == n {
        Direction::Right
    } else {
        Direction::Left
    }
}

/// Direction in which pane `i` of `n` gains width.
pub open spec fn grow_direction(i: nat, n: nat) -> Direction {
    if i + 2 == n {
        Direction::Left
    } else {
        Direction::Right
    }
}

/// The resize that brings pane `i` to its target width.
pub open spec fn resize_for(
    panes: Seq<u64>,
    percents: Seq<u64>,
    current: Seq<u64>,
    cpp: nat,
    i: nat,
) -> ResizeOp {
    let d = width_delta(current[i as int] as nat, percents[i as int] as nat, cpp);
    ResizeOp {
        pane_id: panes[i as int],
        amount: (if d >= 0 { d } else { -d }) as u128,
        direction: if d >= 0 { shrink_direction(i, panes.len()) } else { grow_direction(i, panes.len()) },
    }
}

/// The resizes for the first `k` panes, skipping panes already at their target.
pub open spec fn planned_resizes(
    panes: Seq<u64>,
    percents: Seq<u64>,
    current: Seq<u64>,
    cpp: nat,
    k: nat,
) -> Seq<ResizeOp>
    decreases k,
{
    if k == 0 {
        Seq::empty()
    } else {
        let prev = planned_resizes(panes, percents, current, cpp, (k - 1) as nat);
        if width_delta(current[k - 1] as nat, percents[k - 1] as nat, cpp) == 0 {
            prev
        } else {
            prev.push(resize_for(panes, percents, current, cpp, (k - 1) as nat))
        }
    }
}

/// The full plan for a row: every pane but the last, which takes up what the
/// others leave.
pub open spec fn layout_plan(
    panes: Seq<u64>,
    percents: Seq<u64>,
    current: Seq<u64>,
    total_cells: nat,
) -> Seq<ResizeOp> {
    if panes.len() == 0 {
        Seq::empty()
    } else {
        planned_resizes(
            panes,
            percents,
            current,
            spec_cells_per_percent(total_cells),
            (panes.len() - 1) as nat,
        )
    }
}

/// Computes the resizes that bring `panes`, now `current` cells wide, to the
/// widths `percents` ask for in a row of `total_cells` cells.
pub fn resize_panes(
    percents: &Vec<u64>,
    total_cells: u64,
    current: &Vec<u64>,
    panes: &Vec<u64>,
) -> (r: Vec<ResizeOp>)
    requires
        percents.len() == panes.len(),
        current.len() == panes.len(),
    ensures
        r@ == layout_plan(panes@, percents@, current@, total_cells as nat),
{
    let cpp = cells_per_percent(total_cells);
    let n = panes.len();
    let mut ops: Vec<ResizeOp> = Vec::new();
    if n == 0 {
        return ops;
    }
    let mut i: usize = 0;
    while i + 1 < n
        invariant
            n == panes.len(),
            percents.len() == n,
            current.len() == n,
            0 <= i < n,
            cpp as nat == spec_cells_per_percent(total_cells as nat),
            ops@ == planned_resizes(panes@, percents@, current@, cpp as nat, i as nat),
        decreases n - i,
    {
        let p = percents[i];
        let c = cpp;
        assert((p as nat) * (c as nat) <= 0xffff_ffff_ffff_ffff_ffff_ffff_ffff_ffffnat) by (nonlinear_arith)
            requires
                p <= 0xffff_ffff_ffff_ffff,
                c <= 0xffff_ffff_ffff_ffff,
        ;
        let desired: u128 = (p as u128) * (c as u128);
        let width = current[i] as u128;
        if width > desired {
            let dir = if i + 2 == n {
                Direction::Right
            } else {
                Direction::Left
            };
            ops.push(ResizeOp { pane_id: panes[i], amount: width - desired, direction: dir });
        } else if width < desired {
            let dir = if i + 2 == n {
                Direction::Left
            } else {
                Direction::Right
            };
            ops.push(ResizeOp { pane_id: panes[i], amount: desired - width, direction: dir });
        }
        i += 1;
    }
    ops
}

} // verus!

verus! {

proof fn lemma_planned_resizes_from_first(
    panes: Seq<u64>,
    percents: Seq<u64>,
    current: Seq<u64>,
    cpp: nat,
    k: nat,
)
    ensures
        planned_resizes(panes, percents, current, cpp, k).len() <= k,
        forall|j: int|
            0 <= j < planned_resizes(panes, percents, current, cpp, k).len() ==> exists|i: nat|
                i < k && #[trigger] planned_resizes(panes, percents, current, cpp, k)[j]
                    == resize_for(panes, percents, current, cpp, i),
    decreases k,
{
    if k > 0 {
        lemma_planned_resizes_from_first(panes, percents, current, cpp, (k - 1) as nat);
        let prev = planned_resizes(panes, percents, current, cpp, (k - 1) as nat);
        let cur = planned_resizes(panes, percents, current, cpp, k);
        assert forall|j: int| 0 <= j < cur.len() implies exists|i: nat|
            i < k && #[trigger] cur[j] == resize_for(panes, percents, current, cpp, i) by {
            if j < prev.len() {
                let i = choose|i: nat|
                    i < k - 1 && #[trigger] prev[j] == resize_for(
                        panes,
                        percents,
                        current,
                        cpp,
                        i,
                    );
                assert(cur[j] == resize_for(panes, percents, current, cpp, i));
            } else {
                assert(cur[j] == resize_for(panes, percents, current, cpp, (k - 1) as nat));
            }
        }
    }
}

/// A layout of `n` panes issues at most `n - 1` resizes, each for one of the
/// first `n - 1` panes: the last pane is never resized directly, so when the
/// pane ids are distinct no resize names it.
pub proof fn lemma_last_pane_never_resized(
    panes: Seq<u64>,
    percents: Seq<u64>,
    current: Seq<u64>,
    total_cells: nat,
)
    requires
        panes.len() >= 1,
        percents.len() == panes.len(),
        current.len() == panes.len(),
    ensures
        layout_plan(panes, percents, current, total_cells).len() <= panes.len() - 1,
        forall|j: int|
            0 <= j < layout_plan(panes, percents, current, total_cells).len() ==> exists|i: int|
                0 <= i < panes.len() - 1 && #[trigger] layout_plan(
                    panes,
                    percents,
                    current,
                    total_cells,
                )[j].pane_id == panes[i],
        (forall|a: int, b: int| 0 <= a < b < panes.len() ==> panes[a] != panes[b]) ==> forall|
            j: int,
        |
            0 <= j < layout_plan(panes, percents, current, total_cells).len() ==> #[trigger] layout_plan(
                panes,
                percents,
                current,
                total_cells,
            )[j].pane_id != panes[panes.len() - 1],
{
    let cpp = spec_cells_per_percent(total_cells);
    let k = (panes.len() - 1) as nat;
    lemma_planned_resizes_from_first(panes, percents, current, cpp, k);
    let plan = layout_plan(panes, percents, current, total_cells);
    assert forall|j: int| 0 <= j < plan.len() implies exists|i: int|
        0 <= i < panes.len() - 1 && #[trigger] plan[j].pane_id == panes[i] by {
        let i = choose|i: nat| i < k && #[trigger] plan[j] == resize_for(panes, percents, current, cpp, i);
        assert(plan[j].pane_id == panes[i as int]);
    }
    if forall|a: int, b: int| 0 <= a < b < panes.len() ==> panes[a] != panes[b] {
        assert forall|j: int| 0 <= j < plan.len() implies #[trigger] plan[j].pane_id != panes[panes.len() - 1] by {
            let i = choose|i: nat| i < k && #[trigger] plan[j] == resize_for(panes, percents, current, cpp, i);
            assert(plan[j].pane_id == panes[i as int]);
        }
    }
}

} // verus!
