//! The entity store: every entity of the simulation, with its attached
//! attributes, plus the fixed construction parameters (grid extent, cell
//! size, easing step). Entities are addressed by the index the store
//! handed out at creation; none is ever destroyed.

use vstd::prelude::*;
use crate::entity::Entity;

verus! {

/// The whole simulation state.
pub struct World {
    /// Grid extent in cells, horizontally. Informational: the core never
    /// clamps coordinates to it.
    pub grid_width: i64,
    /// Grid extent in cells, vertically. Informational, as above.
    pub grid_height: i64,
    /// Side length of one cell, in pixels; also the side of each emitted
    /// square.
    pub cell_size: i64,
    /// How far one easer pass moves a pixel coordinate on each axis.
    pub step: i64,
    /// All entities, in creation order.
    pub entities: Vec<Entity>,
}

/// Which attribute kinds a query asks for.
#[derive(Clone, Copy, PartialEq, Eq, Structural, Debug)]
pub struct AttributeMask {
    pub tile: bool,
    pub pixel: bool,
    pub intent: bool,
    pub color: bool,
    pub role: bool,
}

/// Whether `e` carries every attribute kind that `m` asks for.
pub open spec fn matches_mask(e: Entity, m: AttributeMask) -> bool {
    &&& (m.tile ==> e.tile is Some)
    &&& (m.pixel ==> e.pixel is Some)
    &&& (m.intent ==> e.intent is Some)
    &&& (m.color ==> e.color is Some)
    &&& (m.role ==> e.role is Some)
}

/// The construction parameters a usable world must have: a positive grid
/// extent and an easing step of at least one pixel that is no larger than
/// a cell, so easing glides over several ticks instead of snapping.
pub open spec fn wf_params(w: World) -> bool {
    &&& 1 <= w.grid_width
    &&& 1 <= w.grid_height
    &&& 1 <= w.step <= w.cell_size
}

impl World {
    /// An empty world with the given construction parameters.
    pub fn new(grid_width: i64, grid_height: i64, cell_size: i64, step: i64) -> (w: World)
        requires
            1 <= grid_width,
            1 <= grid_height,
            1 <= step <= cell_size,
        ensures
            wf_params(w),
            w.grid_width == grid_width,
            w.grid_height == grid_height,
            w.cell_size == cell_size,
            w.step == step,
            w.entities@ == Seq::<Entity>::empty(),
    {
        let w = World { grid_width, grid_height, cell_size, step, entities: Vec::new() };
        proof {
            assert(w.entities@ =~= Seq::<Entity>::empty());
        }
        w
    }

    /// Adds one entity, with whatever subset of attributes it carries,
    /// and returns its identifier: its index in the store, stable for
    /// the rest of the run.
    pub fn create(&mut self, e: Entity) -> (id: usize)
        requires
            old(self).entities@.len() < usize::MAX,
        ensures
            final(self).entities@ == old(self).entities@.push(e),
            id == old(self).entities@.len(),
            final(self).grid_width == old(self).grid_width,
            final(self).grid_height == old(self).grid_height,
            final(self).cell_size == old(self).cell_size,
            final(self).step == old(self).step,
    {
        let id = self.entities.len();
        self.entities.push(e);
        id
    }

    /// How many entities the store holds.
    pub fn len(&self) -> (n: usize)
        ensures
            n == self.entities@.len(),
    {
        self.entities.len()
    }

    /// The entity with identifier `id`.
    pub fn entity(&self, id: usize) -> (e: Entity)
        requires
            id < self.entities@.len(),
        ensures
            e == self.entities@[id as int],
    {
        self.entities[id]
    }

    /// The identifiers of every entity that carries all the attribute
    /// kinds `m` asks for, in increasing order: exactly the match set,
    /// each identifier once.
    pub fn query_ids(&self, m: AttributeMask) -> (ids: Vec<usize>)
        ensures
            forall|j: int|
                0 <= j < ids@.len() ==> #[trigger] ids@[j] < self.entities@.len() && matches_mask(
                    self.entities@[ids@[j] as int],
                    m,
                ),
            forall|j1: int, j2: int| 0 <= j1 < j2 < ids@.len() ==> ids@[j1] < ids@[j2],
            forall|i: int|
                0 <= i < self.entities@.len() && matches_mask(#[trigger] self.entities@[i], m)
                    ==> ids@.contains(i as usize),
    {
        let n = self.entities.len();
        let mut ids: Vec<usize> = Vec::new();
        let mut i: usize = 0;
        while i < n
            invariant
                n == self.entities@.len(),
                i <= n,
                forall|j: int|
                    0 <= j < ids@.len() ==> #[trigger] ids@[j] < i && matches_mask(
                        self.entities@[ids@[j] as int],
                        m,
                    ),
                forall|j1: int, j2: int| 0 <= j1 < j2 < ids@.len() ==> ids@[j1] < ids@[j2],
                forall|k: int|
                    0 <= k < i && matches_mask(#[trigger] self.entities@[k], m) ==> ids@.contains(
                        k as usize,
                    ),
            decreases n - i,
        {
            let e = &self.entities[i];
            let hit = (!m.tile || e.tile.is_some()) && (!m.pixel || e.pixel.is_some()) && (!m.intent
                || e.intent.is_some()) && (!m.color || e.color.is_some()) && (!m.role
                || e.role.is_some());
            if hit {
                let ghost prev = ids@;
                ids.push(i);
                proof {
                    assert(ids@[ids@.len() - 1] == i);
                    assert forall|k: int|
                        0 <= k < i + 1 && matches_mask(
                            #[trigger] self.entities@[k],
                            m,
                        ) implies ids@.contains(k as usize) by {
                        if k < i {
                            assert(prev.contains(k as usize));
                            let jj = choose|jj: int|
                                0 <= jj < prev.len() && prev[jj] == (k as usize);
                            assert(ids@[jj] == k as usize);
                        } else {
                            assert(ids@[ids@.len() - 1] == k as usize);
                        }
                    }
                }
            }
            i = i + 1;
        }
        ids
    }
}

} // verus!
