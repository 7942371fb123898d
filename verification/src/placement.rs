//! Planning where a prefab stamp lands on the live grid: the centering and
//! clamping rules, the painted preview, and the commit that merges the stamp.

use vstd::arithmetic::div_mod::{lemma_fundamental_div_mod, lemma_fundamental_div_mod_converse};
use vstd::prelude::*;

use crate::cell::{flipped, Cell};
use crate::engine::AutomatonEngine;
use crate::error::LifeError;
use crate::grid::GridView;
use crate::pattern::Prefab;

verus! {

/// Progress of one drag-and-drop placement interaction.
#[derive(Clone, Copy, Debug, PartialEq, Eq, Structural)]
pub enum PlacementState {
    Idle,
    PrefabHeld,
    Previewing,
}

/// Centered, upper-clamped target origin along one axis.
///
/// `anchor_half` is the drop anchor's fractional grid coordinate in
/// half-cell units (twice the coordinate, truncated), so that both flooring
/// and half-up rounding of the fraction stay integer computations. For an odd
/// prefab dimension the anchor is floored; for an even one, where there is no
/// single center cell, it is rounded half-up. Half the prefab dimension is
/// then subtracted, and the result clamped to at most `grid_dim - 1`. There
/// is no lower clamp: near the top or left edge the origin may be negative,
/// and targets that fall outside the grid are skipped, never wrapped.
pub open spec fn spec_target_origin(anchor_half: int, prefab_dim: int, grid_dim: int) -> int {
    let base = if prefab_dim % 2 == 1 {
        anchor_half / 2
    } else {
        (anchor_half + 1) / 2
    };
    let centered = base - prefab_dim / 2;
    if centered > grid_dim - 1 {
        grid_dim - 1
    } else {
        centered
    }
}

/// Row of the target cell of prefab offset `i` (flat row-major).
pub open spec fn target_row(p: GridView, orow: int, i: int) -> int {
    orow + i / p.width as int
}

/// Column of the target cell of prefab offset `i`.
pub open spec fn target_col(p: GridView, ocol: int, i: int) -> int {
    ocol + i % p.width as int
}

/// Whether prefab offset `i` contributes to the preview: its cell is
/// `Alive` and its target lies inside the live grid.
pub open spec fn offset_kept(p: GridView, orow: int, ocol: int, gw: int, gh: int, i: int) -> bool {
    &&& p.cells[i] == Cell::Alive
    &&& 0 <= target_row(p, orow, i) < gh
    &&& 0 <= target_col(p, ocol, i) < gw
}

/// The target cell of prefab offset `i`, as grid coordinates.
pub open spec fn target_cell(p: GridView, orow: int, ocol: int, i: int) -> (u32, u32) {
    (target_row(p, orow, i) as u32, target_col(p, ocol, i) as u32)
}

/// The painted-preview sequence over the first `n` prefab offsets, in
/// row-major order: the in-bounds targets of the prefab's `Alive` cells.
pub open spec fn preview_seq(
    p: GridView,
    orow: int,
    ocol: int,
    gw: int,
    gh: int,
    n: int,
) -> Seq<(u32, u32)>
    decreases n,
{
    if n <= 0 {
        Seq::empty()
    } else {
        preview_seq(p, orow, ocol, gw, gh, n - 1) + (if offset_kept(p, orow, ocol, gw, gh, n - 1) {
            seq![target_cell(p, orow, ocol, n - 1)]
        } else {
            Seq::empty()
        })
    }
}

/// Out-of-bounds offsets are dropped, never wrapped: every painted-preview
/// coordinate lies inside the live grid.
pub proof fn lemma_preview_in_bounds(p: GridView, orow: int, ocol: int, gw: int, gh: int, n: int)
    requires
        0 < gw <= u32::MAX,
        0 < gh <= u32::MAX,
    ensures
        forall|k: int|
            0 <= k < preview_seq(p, orow, ocol, gw, gh, n).len() ==> ((#[trigger] preview_seq(
                p,
                orow,
                ocol,
                gw,
                gh,
                n,
            )[k]).0 < gh && preview_seq(p, orow, ocol, gw, gh, n)[k].1 < gw),
    decreases n,
{
    if n > 0 {
        lemma_preview_in_bounds(p, orow, ocol, gw, gh, n - 1);
        let s = preview_seq(p, orow, ocol, gw, gh, n - 1);
        let full = preview_seq(p, orow, ocol, gw, gh, n);
        assert forall|k: int| 0 <= k < full.len() implies ((#[trigger] full[k]).0 < gh && full[k].1
            < gw) by {
            if k < s.len() {
                assert(full[k] == s[k]);
            } else {
                assert(offset_kept(p, orow, ocol, gw, gh, n - 1));
                assert(full[k] == target_cell(p, orow, ocol, n - 1));
            }
        }
    }
}

/// Each painted-preview entry is the target of some kept prefab offset.
pub proof fn lemma_preview_elem_source(
    p: GridView,
    orow: int,
    ocol: int,
    gw: int,
    gh: int,
    n: int,
    k: int,
)
    requires
        0 <= k < preview_seq(p, orow, ocol, gw, gh, n).len(),
    ensures
        exists|i: int|
            0 <= i < n && #[trigger] offset_kept(p, orow, ocol, gw, gh, i) && preview_seq(
                p,
                orow,
                ocol,
                gw,
                gh,
                n,
            )[k] == target_cell(p, orow, ocol, i),
    decreases n,
{
    if n > 0 {
        let s = preview_seq(p, orow, ocol, gw, gh, n - 1);
        if k < s.len() {
            lemma_preview_elem_source(p, orow, ocol, gw, gh, n - 1, k);
            let i = choose|i: int|
                0 <= i < n - 1 && #[trigger] offset_kept(p, orow, ocol, gw, gh, i) && s[k]
                    == target_cell(p, orow, ocol, i);
            assert(0 <= i < n && offset_kept(p, orow, ocol, gw, gh, i) && preview_seq(
                p,
                orow,
                ocol,
                gw,
                gh,
                n,
            )[k] == target_cell(p, orow, ocol, i));
        } else {
            assert(offset_kept(p, orow, ocol, gw, gh, n - 1) && preview_seq(
                p,
                orow,
                ocol,
                gw,
                gh,
                n,
            )[k] == target_cell(p, orow, ocol, n - 1));
        }
    }
}

/// Distinct prefab offsets have distinct targets, so the painted preview
/// never lists one coordinate twice.
pub proof fn lemma_preview_distinct(p: GridView, orow: int, ocol: int, gw: int, gh: int, n: int)
    requires
        0 < p.width,
        0 < gw <= u32::MAX,
        0 < gh <= u32::MAX,
    ensures
        forall|k1: int, k2: int|
            #![trigger preview_seq(p, orow, ocol, gw, gh, n)[k1], preview_seq(p, orow, ocol, gw, gh, n)[k2]]
            0 <= k1 < k2 < preview_seq(p, orow, ocol, gw, gh, n).len() ==> preview_seq(
                p,
                orow,
                ocol,
                gw,
                gh,
                n,
            )[k1] != preview_seq(p, orow, ocol, gw, gh, n)[k2],
    decreases n,
{
    if n > 0 {
        lemma_preview_distinct(p, orow, ocol, gw, gh, n - 1);
        let s = preview_seq(p, orow, ocol, gw, gh, n - 1);
        let full = preview_seq(p, orow, ocol, gw, gh, n);
        if offset_kept(p, orow, ocol, gw, gh, n - 1) {
            let x = target_cell(p, orow, ocol, n - 1);
            assert forall|k1: int| 0 <= k1 < s.len() implies s[k1] != x by {
                lemma_preview_elem_source(p, orow, ocol, gw, gh, n - 1, k1);
                let i = choose|i: int|
                    0 <= i < n - 1 && #[trigger] offset_kept(p, orow, ocol, gw, gh, i) && s[k1]
                        == target_cell(p, orow, ocol, i);
                if s[k1] == x {
                    lemma_targets_differ(p, orow, ocol, gw, gh, i, n - 1);
                }
            }
        } else {
            assert(full =~= s);
        }
    }
}

/// Two distinct kept offsets never share a target coordinate.
proof fn lemma_targets_differ(p: GridView, orow: int, ocol: int, gw: int, gh: int, i: int, j: int)
    requires
        0 < p.width,
        gw <= u32::MAX,
        gh <= u32::MAX,
        offset_kept(p, orow, ocol, gw, gh, i),
        offset_kept(p, orow, ocol, gw, gh, j),
        0 <= i,
        0 <= j,
        i != j,
    ensures
        target_cell(p, orow, ocol, i) != target_cell(p, orow, ocol, j),
{
    let pw = p.width as int;
    if target_cell(p, orow, ocol, i) == target_cell(p, orow, ocol, j) {
        assert(target_row(p, orow, i) == target_row(p, orow, j));
        assert(target_col(p, ocol, i) == target_col(p, ocol, j));
        lemma_fundamental_div_mod(i, pw);
        lemma_fundamental_div_mod(j, pw);
        assert(i == j);
    }
}

/// Centered, upper-clamped target origin along one axis; the executable
/// counterpart of `spec_target_origin`.
pub fn target_origin(anchor_half: u64, prefab_dim: u32, grid_dim: u32) -> (o: i64)
    requires
        anchor_half < u64::MAX,
        0 < grid_dim,
    ensures
        o == spec_target_origin(anchor_half as int, prefab_dim as int, grid_dim as int),
        o < grid_dim as int,
        o >= -(prefab_dim as int),
{
    let base: u64 = if prefab_dim % 2 == 1 {
        anchor_half / 2
    } else {
        (anchor_half + 1) / 2
    };
    let centered: i64 = (base as i64) - ((prefab_dim / 2) as i64);
    let gmax: i64 = (grid_dim as i64) - 1;
    if centered > gmax {
        gmax
    } else {
        centered
    }
}

/// An element-by-element copy of a coordinate list.
fn copy_coords(v: &Vec<(u32, u32)>) -> (r: Vec<(u32, u32)>)
    ensures
        r@ == v@,
{
    let mut r: Vec<(u32, u32)> = Vec::new();
    let mut k: usize = 0;
    while k < v.len()
        invariant
            k <= v@.len(),
            r@ == v@.subrange(0, k as int),
        decreases v@.len() - k,
    {
        r.push(v[k]);
        proof {
            assert(r@ =~= v@.subrange(0, k + 1));
        }
        k = k + 1;
    }
    proof {
        assert(r@ =~= v@);
    }
    r
}

/// Mathematical model of a placement planner: the interaction state, the
/// held prefab, the painted preview, and the live-grid dimensions the
/// preview was computed against.
pub ghost struct PlannerView {
    pub state: PlacementState,
    pub prefab: Option<GridView>,
    pub preview: Seq<(u32, u32)>,
    pub grid_width: nat,
    pub grid_height: nat,
}

impl PlannerView {
    /// Well-formedness: the planner is `Idle` exactly when no prefab is
    /// held, a preview exists only while `Previewing`, the held prefab is a
    /// well-formed grid, and the preview holds pairwise-distinct coordinates
    /// inside the recorded live-grid bounds.
    pub open spec fn wf(self) -> bool {
        &&& (self.state == PlacementState::Idle <==> self.prefab is None)
        &&& (self.state != PlacementState::Previewing ==> self.preview.len() == 0)
        &&& (self.prefab matches Some(p) ==> p.wf())
        &&& forall|k: int|
            0 <= k < self.preview.len() ==> ((#[trigger] self.preview[k]).0 < self.grid_height
                && self.preview[k].1 < self.grid_width)
        &&& forall|k1: int, k2: int|
            #![trigger self.preview[k1], self.preview[k2]]
            0 <= k1 < k2 < self.preview.len() ==> self.preview[k1] != self.preview[k2]
    }
}

/// Computes where a held prefab lands on the live grid, keeps the painted
/// preview between drag events, and commits or cancels the placement.
pub struct PlacementPlanner {
    state: PlacementState,
    prefab: Option<Prefab>,
    preview: Vec<(u32, u32)>,
    grid_width: u32,
    grid_height: u32,
}

impl View for PlacementPlanner {
    type V = PlannerView;

    closed spec fn view(&self) -> PlannerView {
        PlannerView {
            state: self.state,
            prefab: match self.prefab {
                Some(p) => Some(p@),
                None => None,
            },
            preview: self.preview@,
            grid_width: self.grid_width as nat,
            grid_height: self.grid_height as nat,
        }
    }
}

impl PlacementPlanner {
    /// A planner with no held prefab and no preview.
    pub fn new() -> (pl: PlacementPlanner)
        ensures
            pl@.wf(),
            pl@.state == PlacementState::Idle,
            pl@.prefab is None,
            pl@.preview.len() == 0,
    {
        PlacementPlanner {
            state: PlacementState::Idle,
            prefab: None,
            preview: Vec::new(),
            grid_width: 0,
            grid_height: 0,
        }
    }

    /// The current interaction state.
    pub fn state(&self) -> (s: PlacementState)
        ensures
            s == self@.state,
    {
        self.state
    }

    /// The painted-preview coordinates of the last `preview_placement`.
    pub fn preview_cells(&self) -> (cs: &Vec<(u32, u32)>)
        ensures
            cs@ == self@.preview,
    {
        &self.preview
    }

    /// Start holding a prefab for placement. Starting a new drag replaces
    /// any prefab already held and discards any pending preview.
    pub fn begin_placement(&mut self, prefab: Prefab)
        requires
            old(self)@.wf(),
            prefab@.wf(),
        ensures
            final(self)@.wf(),
            final(self)@.state == PlacementState::PrefabHeld,
            final(self)@.prefab == Some(prefab@),
            final(self)@.preview.len() == 0,
    {
        self.state = PlacementState::PrefabHeld;
        self.prefab = Some(prefab);
        self.preview = Vec::new();
    }

    /// Recompute the painted preview for a drop anchor given in half-cell
    /// units, against a live grid of the given dimensions. Fails with
    /// `NoActivePrefab` exactly when no prefab is held; otherwise the new
    /// preview — the in-bounds targets of the prefab's `Alive` cells, in
    /// row-major order — is both stored and returned. The preview never
    /// touches the live grid: restoring previously highlighted cells is the
    /// renderer's job, reading the grid itself.
    pub fn preview_placement(
        &mut self,
        anchor_row_half: u64,
        anchor_col_half: u64,
        grid_width: u32,
        grid_height: u32,
    ) -> (r: Result<Vec<(u32, u32)>, LifeError>)
        requires
            old(self)@.wf(),
            anchor_row_half < u64::MAX,
            anchor_col_half < u64::MAX,
            0 < grid_width,
            0 < grid_height,
        ensures
            final(self)@.wf(),
            old(self)@.state == PlacementState::Idle ==> final(self)@ == old(self)@ && r == Err::<
                Vec<(u32, u32)>,
                LifeError,
            >(LifeError::NoActivePrefab),
            old(self)@.state != PlacementState::Idle ==> ({
                let p = old(self)@.prefab.unwrap();
                let orow = spec_target_origin(
                    anchor_row_half as int,
                    p.height as int,
                    grid_height as int,
                );
                let ocol = spec_target_origin(
                    anchor_col_half as int,
                    p.width as int,
                    grid_width as int,
                );
                &&& final(self)@.state == PlacementState::Previewing
                &&& final(self)@.prefab == old(self)@.prefab
                &&& final(self)@.grid_width == grid_width
                &&& final(self)@.grid_height == grid_height
                &&& final(self)@.preview == preview_seq(
                    p,
                    orow,
                    ocol,
                    grid_width as int,
                    grid_height as int,
                    p.cells.len() as int,
                )
                &&& r matches Ok(v) && v@ == final(self)@.preview
            }),
    {
        if self.prefab.is_none() {
            return Err(LifeError::NoActivePrefab);
        }
        let ghost p = self.prefab.unwrap()@;
        let ph = self.prefab.as_ref().unwrap().height();
        let pw = self.prefab.as_ref().unwrap().width();
        let orow = target_origin(anchor_row_half, ph, grid_height);
        let ocol = target_origin(anchor_col_half, pw, grid_width);
        let mut v: Vec<(u32, u32)> = Vec::new();
        let mut pr: u32 = 0;
        while pr < ph
            invariant
                self@ == old(self)@,
                self@.wf(),
                self@.prefab == Some(p),
                p.wf(),
                pw == p.width,
                ph == p.height,
                0 < grid_width,
                0 < grid_height,
                orow >= -(ph as int),
                orow < grid_height as int,
                ocol >= -(pw as int),
                ocol < grid_width as int,
                pr <= ph,
                v@ == preview_seq(
                    p,
                    orow as int,
                    ocol as int,
                    grid_width as int,
                    grid_height as int,
                    (pr as int) * (pw as int),
                ),
            decreases ph - pr,
        {
            let mut pc: u32 = 0;
            while pc < pw
                invariant
                    self@ == old(self)@,
                    self@.wf(),
                    self@.prefab == Some(p),
                    p.wf(),
                    pw == p.width,
                    ph == p.height,
                    0 < grid_width,
                    0 < grid_height,
                    orow >= -(ph as int),
                    orow < grid_height as int,
                    ocol >= -(pw as int),
                    ocol < grid_width as int,
                    pr < ph,
                    pc <= pw,
                    v@ == preview_seq(
                        p,
                        orow as int,
                        ocol as int,
                        grid_width as int,
                        grid_height as int,
                        (pr as int) * (pw as int) + pc as int,
                    ),
                decreases pw - pc,
            {
                let ghost i = (pr as int) * (pw as int) + pc as int;
                proof {
                    lemma_fundamental_div_mod_converse(i, pw as int, pr as int, pc as int);
                    crate::grid::lemma_index_in_range(p, pr as int, pc as int);
                }
                let tr: i64 = orow + (pr as i64);
                let tc: i64 = ocol + (pc as i64);
                let alive = self.prefab.as_ref().unwrap().cell_at(pr, pc) == Cell::Alive;
                let ghost v0 = v@;
                if alive && tr >= 0 && tr < (grid_height as i64) && tc >= 0 && tc < (
                grid_width as i64) {
                    v.push(((tr as u32), (tc as u32)));
                    proof {
                        assert(offset_kept(
                            p,
                            orow as int,
                            ocol as int,
                            grid_width as int,
                            grid_height as int,
                            i,
                        ));
                        assert(target_cell(p, orow as int, ocol as int, i) == ((tr as u32), (
                        tc as u32)));
                        assert(v@ =~= v0 + seq![target_cell(p, orow as int, ocol as int, i)]);
                    }
                } else {
                    proof {
                        assert(!offset_kept(
                            p,
                            orow as int,
                            ocol as int,
                            grid_width as int,
                            grid_height as int,
                            i,
                        ));
                        assert(v@ =~= v0 + Seq::<(u32, u32)>::empty());
                    }
                }
                pc = pc + 1;
            }
            proof {
                assert((pr as int) * (pw as int) + pw as int == (pr as int + 1) * (pw as int))
                    by (nonlinear_arith);
            }
            pr = pr + 1;
        }
        proof {
            vstd::arithmetic::mul::lemma_mul_is_commutative(ph as int, pw as int);
            assert((ph as int) * (pw as int) == p.cells.len());
        }
        let out = copy_coords(&v);
        self.preview = v;
        self.state = PlacementState::Previewing;
        self.grid_width = grid_width;
        self.grid_height = grid_height;
        proof {
            lemma_preview_in_bounds(
                p,
                orow as int,
                ocol as int,
                grid_width as int,
                grid_height as int,
                p.cells.len() as int,
            );
            lemma_preview_distinct(
                p,
                orow as int,
                ocol as int,
                grid_width as int,
                grid_height as int,
                p.cells.len() as int,
            );
        }
        Ok(out)
    }

    /// Toggle every painted-preview coordinate on the live grid, release the
    /// held prefab, and return the coordinates that were toggled. Fails with
    /// `NoActivePrefab` exactly when no prefab is held, changing nothing. A
    /// target cell that was already `Alive` before the drop becomes `Dead`:
    /// commit reuses the toggle primitive rather than forcing cells alive.
    pub fn commit_placement(&mut self, engine: &mut AutomatonEngine) -> (r: Result<
        Vec<(u32, u32)>,
        LifeError,
    >)
        requires
            old(self)@.wf(),
            old(engine)@.wf(),
            old(self)@.preview.len() > 0 ==> old(self)@.grid_width == old(engine)@.width && old(self)@.grid_height == old(engine)@.height,
        ensures
            final(self)@.wf(),
            final(engine)@.wf(),
            old(self)@.state == PlacementState::Idle ==> final(self)@ == old(self)@ && final(engine)@ == old(engine)@ && r == Err::<Vec<(u32, u32)>, LifeError>(LifeError::NoActivePrefab),
            old(self)@.state != PlacementState::Idle ==> ({
                &&& final(self)@.state == PlacementState::Idle
                &&& final(self)@.prefab is None
                &&& final(self)@.preview.len() == 0
                &&& final(engine)@.width == old(engine)@.width
                &&& final(engine)@.height == old(engine)@.height
                &&& forall|rr: int, cc: int|
                    old(engine)@.in_bounds(rr, cc) ==> final(engine)@.cell(rr, cc) == (if old(self)@.preview.contains(((rr as u32), (cc as u32))) {
                        flipped(old(engine)@.cell(rr, cc))
                    } else {
                        old(engine)@.cell(rr, cc)
                    })
                &&& r matches Ok(v) && v@ == old(self)@.preview
            }),
    {
        if self.prefab.is_none() {
            return Err(LifeError::NoActivePrefab);
        }
        let len = self.preview.len();
        let mut k: usize = 0;
        while k < len
            invariant
                self@ == old(self)@,
                self@.wf(),
                len == self@.preview.len(),
                len > 0 ==> self@.grid_width == old(engine)@.width && self@.grid_height == old(engine)@.height,
                k <= len,
                engine@.wf(),
                engine@.width == old(engine)@.width,
                engine@.height == old(engine)@.height,
                forall|rr: int, cc: int|
                    old(engine)@.in_bounds(rr, cc) ==> engine@.cell(rr, cc) == (if (exists|j: int|
                        0 <= j < k && #[trigger] self@.preview[j] == ((rr as u32), (cc as u32))) {
                        flipped(old(engine)@.cell(rr, cc))
                    } else {
                        old(engine)@.cell(rr, cc)
                    }),
            decreases len - k,
        {
            let (r0, c0) = self.preview[k];
            let ghost before = engine@;
            engine.toggle_cell(r0, c0);
            proof {
                crate::grid::lemma_index_in_range(before, r0 as int, c0 as int);
                assert forall|rr: int, cc: int| old(engine)@.in_bounds(rr, cc) implies engine@.cell(
                    rr,
                    cc,
                ) == (if (exists|j: int|
                    0 <= j < k + 1 && #[trigger] self@.preview[j] == ((rr as u32), (cc as u32))) {
                    flipped(old(engine)@.cell(rr, cc))
                } else {
                    old(engine)@.cell(rr, cc)
                }) by {
                    crate::grid::lemma_index_in_range(before, rr, cc);
                    if rr == r0 as int && cc == c0 as int {
                        assert(!(exists|j: int|
                            0 <= j < k && #[trigger] self@.preview[j] == ((rr as u32), (
                            cc as u32))));
                        assert(self@.preview[k as int] == ((rr as u32), (cc as u32)));
                    } else {
                        if before.index_of(rr, cc) == before.index_of(r0 as int, c0 as int) {
                            crate::grid::lemma_flat_index_injective(
                                rr,
                                cc,
                                r0 as int,
                                c0 as int,
                                before.width as int,
                            );
                        }
                        assert(engine@.cell(rr, cc) == before.cell(rr, cc));
                        assert forall|j: int|
                            0 <= j < k + 1 && #[trigger] self@.preview[j] == ((rr as u32), (
                            cc as u32)) implies j < k by {}
                    }
                }
            }
            k = k + 1;
        }
        let mut out: Vec<(u32, u32)> = Vec::new();
        core::mem::swap(&mut out, &mut self.preview);
        self.prefab = None;
        self.state = PlacementState::Idle;
        Ok(out)
    }

    /// Drop the held prefab and any pending preview, returning to `Idle`.
    pub fn cancel_placement(&mut self)
        requires
            old(self)@.wf(),
        ensures
            final(self)@.wf(),
            final(self)@.state == PlacementState::Idle,
            final(self)@.prefab is None,
            final(self)@.preview.len() == 0,
    {
        self.state = PlacementState::Idle;
        self.prefab = None;
        self.preview = Vec::new();
    }
}

} // verus!
