//! The particle store with its spatial partition: a `regions_x × regions_y`
//! grid of cells over the domain, each holding the indices of the particles
//! inside it.
use crate::geometry::{in_coord_range, BoundingBox, BoundingBoxType, Vec3};
use crate::particle::ParticleInstance;
use vstd::prelude::*;

verus! {

/// The cell coordinate of `p` along an axis from `lo` to `hi` cut into `n`
/// cells: its offset from `lo` scaled to `[0, n)`, with everything at or
/// below `lo` in the first cell and everything at or above `hi` in the last.
pub open spec fn cell_coord(p: int, lo: int, hi: int, n: int) -> int {
    if p <= lo {
        0
    } else if p >= hi {
        n - 1
    } else {
        (p - lo) * n / (hi - lo)
    }
}

/// The row-major cell index of a position.
pub open spec fn cell_index(bb: BoundingBox, rx: int, ry: int, p: Vec3) -> int {
    cell_coord(p.y as int, bb.min_pos.y as int, bb.max_pos.y as int, ry) * rx + cell_coord(
        p.x as int,
        bb.min_pos.x as int,
        bb.max_pos.x as int,
        rx,
    )
}

/// The indices below `n`, in increasing order, of the particles that lie in
/// cell `c`.
pub open spec fn cell_members(
    inst: Seq<ParticleInstance>,
    bb: BoundingBox,
    rx: int,
    ry: int,
    c: int,
    n: nat,
) -> Seq<usize>
    decreases n,
{
    if n == 0 {
        seq![]
    } else {
        let prev = cell_members(inst, bb, rx, ry, c, (n - 1) as nat);
        if cell_index(bb, rx, ry, inst[n - 1].position) == c {
            prev.push((n - 1) as usize)
        } else {
            prev
        }
    }
}

proof fn lemma_cell_coord_bound(p: int, lo: int, hi: int, n: int)
    requires
        lo <= hi,
        0 < n,
    ensures
        0 <= cell_coord(p, lo, hi, n) < n,
{
    if lo < p && p < hi {
        let a = p - lo;
        let w = hi - lo;
        assert(a * n < w * n) by (nonlinear_arith)
            requires
                0 < a < w,
                0 < n,
        ;
        assert(0 <= a * n) by (nonlinear_arith)
            requires
                0 < a,
                0 < n,
        ;
        vstd::arithmetic::div_mod::lemma_multiply_divide_lt(a * n, w, n);
        vstd::arithmetic::div_mod::lemma_div_pos_is_pos(a * n, w);
    }
}

/// A row-major index of a cell on the grid is below the cell count.
pub proof fn lemma_row_major_bound(cx: int, cy: int, rx: int, ry: int)
    requires
        0 <= cx < rx,
        0 <= cy < ry,
    ensures
        0 <= cy * rx + cx < rx * ry,
{
    assert(0 <= cy * rx + cx < rx * ry) by (nonlinear_arith)
        requires
            0 <= cx < rx,
            0 <= cy < ry,
    ;
}

/// Every cell index of a position inside the grid's range of cells.
pub proof fn lemma_cell_index_bound(bb: BoundingBox, rx: int, ry: int, p: Vec3)
    requires
        bb.wf(),
        0 < rx,
        0 < ry,
    ensures
        0 <= cell_index(bb, rx, ry, p) < rx * ry,
{
    lemma_cell_coord_bound(p.x as int, bb.min_pos.x as int, bb.max_pos.x as int, rx);
    lemma_cell_coord_bound(p.y as int, bb.min_pos.y as int, bb.max_pos.y as int, ry);
    lemma_row_major_bound(
        cell_coord(p.x as int, bb.min_pos.x as int, bb.max_pos.x as int, rx),
        cell_coord(p.y as int, bb.min_pos.y as int, bb.max_pos.y as int, ry),
        rx,
        ry,
    );
}

/// The members of a cell are increasing indices below `n`, each of a particle
/// in that cell, and every such index is among them.
pub proof fn lemma_cell_members(
    inst: Seq<ParticleInstance>,
    bb: BoundingBox,
    rx: int,
    ry: int,
    c: int,
    n: nat,
)
    requires
        n <= inst.len(),
        n <= usize::MAX,
    ensures
        forall|j: int|
            0 <= j < cell_members(inst, bb, rx, ry, c, n).len() ==> {
                let m = #[trigger] cell_members(inst, bb, rx, ry, c, n)[j];
                &&& m < n
                &&& cell_index(bb, rx, ry, inst[m as int].position) == c
            },
        forall|j: int, k: int|
            0 <= j < k < cell_members(inst, bb, rx, ry, c, n).len() ==> cell_members(
                inst,
                bb,
                rx,
                ry,
                c,
                n,
            )[j] < cell_members(inst, bb, rx, ry, c, n)[k],
        forall|i: int|
            0 <= i < n && cell_index(bb, rx, ry, inst[i].position) == c ==> cell_members(
                inst,
                bb,
                rx,
                ry,
                c,
                n,
            ).contains(i as usize),
    decreases n,
{
    if n > 0 {
        lemma_cell_members(inst, bb, rx, ry, c, (n - 1) as nat);
        let prev = cell_members(inst, bb, rx, ry, c, (n - 1) as nat);
        let cur = cell_members(inst, bb, rx, ry, c, n);
        assert forall|i: int|
            0 <= i < n && cell_index(bb, rx, ry, inst[i].position) == c implies cur.contains(
            i as usize,
        ) by {
            if i < n - 1 {
                let j = choose|j: int| 0 <= j < prev.len() && prev[j] == i as usize;
                assert(cur[j] == i as usize);
            } else {
                assert(cur[cur.len() - 1] == i as usize);
            }
        }
    }
}

/// After a rebuild, every particle index lies in the cell of its position,
/// and in no other; it appears there once; and every index that a cell holds
/// is that of a particle in it. So the cells together hold each index exactly
/// once.
pub proof fn lemma_grid_complete(g: InstanceContainer)
    requires
        g.partitioned(),
        g.instances@.len() <= usize::MAX,
    ensures
        forall|i: int|
            0 <= i < g.instances@.len() ==> {
                &&& 0 <= #[trigger] g.cell_of(i) < g.regions@.len()
                &&& g.regions@[g.cell_of(i)]@.contains(i as usize)
            },
        forall|i: int, c: int|
            0 <= i < g.instances@.len() && 0 <= c < g.regions@.len() && #[trigger] g.regions@[
                c
            ]@.contains(i as usize) ==> c == g.cell_of(i),
        forall|c: int, j: int, k: int|
            0 <= c < g.regions@.len() && 0 <= j < k < g.regions@[c]@.len() ==> #[trigger] g.regions@[
                c
            ]@[j] != #[trigger] g.regions@[c]@[k],
        forall|c: int, j: int|
            0 <= c < g.regions@.len() && 0 <= j < g.regions@[c]@.len() ==> #[trigger] g.regions@[
                c
            ]@[j] < g.instances@.len(),
        cells_bounded(g.regions@, g.instances@.len() as int),
{
    let n = g.instances@.len();
    let rx = g.regions_x as int;
    let ry = g.regions_y as int;
    assert forall|c: int, j: int, k: int|
        0 <= c < g.regions@.len() && 0 <= j < k < g.regions@[c]@.len() implies #[trigger] g.regions@[
            c
        ]@[j] != #[trigger] g.regions@[c]@[k] by {
        lemma_cell_members(g.instances@, g.bounding_box, rx, ry, c, n);
    }
    assert forall|c: int, j: int|
        0 <= c < g.regions@.len() && 0 <= j < g.regions@[c]@.len() implies #[trigger] g.regions@[
            c
        ]@[j] < n by {
        lemma_cell_members(g.instances@, g.bounding_box, rx, ry, c, n);
    }
    assert forall|i: int| 0 <= i < n implies {
        &&& 0 <= #[trigger] g.cell_of(i) < g.regions@.len()
        &&& g.regions@[g.cell_of(i)]@.contains(i as usize)
    } by {
        lemma_cell_index_bound(g.bounding_box, rx, ry, g.instances@[i].position);
        lemma_cell_members(g.instances@, g.bounding_box, rx, ry, g.cell_of(i), n);
    }
    assert forall|i: int, c: int|
        0 <= i < n && 0 <= c < g.regions@.len() && #[trigger] g.regions@[c]@.contains(
            i as usize,
        ) implies c == g.cell_of(i) by {
        lemma_cell_members(g.instances@, g.bounding_box, rx, ry, c, n);
        let j = choose|j: int| 0 <= j < g.regions@[c]@.len() && g.regions@[c]@[j] == i as usize;
        assert(g.cell_of(g.regions@[c]@[j] as int) == c);
    }
}

/// The particles, the domain they live in, and the grid of cells over it.
pub struct InstanceContainer {
    pub instances: Vec<ParticleInstance>,
    pub bounding_box: BoundingBox,
    pub regions_x: usize,
    pub regions_y: usize,
    pub regions: Vec<Vec<usize>>,
}

impl InstanceContainer {
    pub open spec fn grid_ready(self) -> bool {
        &&& self.bounding_box.wf()
        &&& 0 < self.regions_x
        &&& 0 < self.regions_y
        &&& self.regions@.len() == self.regions_x * self.regions_y
    }

    /// The cell that particle `i` belongs in.
    pub open spec fn cell_of(self, i: int) -> int {
        cell_index(
            self.bounding_box,
            self.regions_x as int,
            self.regions_y as int,
            self.instances@[i].position,
        )
    }

    /// Every cell holds exactly the indices of the particles inside it, in
    /// increasing order.
    pub open spec fn partitioned(self) -> bool {
        &&& self.grid_ready()
        &&& forall|c: int|
            0 <= c < self.regions@.len() ==> (#[trigger] self.regions@[c])@ == cell_members(
                self.instances@,
                self.bounding_box,
                self.regions_x as int,
                self.regions_y as int,
                c,
                self.instances@.len(),
            )
    }

    /// The indices in cell `(x2, y2)`, or none where that lies off the grid.
    pub open spec fn cell_or_empty(self, x2: int, y2: int) -> Seq<usize> {
        if 0 <= x2 < self.regions_x && 0 <= y2 < self.regions_y {
            self.regions@[y2 * self.regions_x + x2]@
        } else {
            seq![]
        }
    }

    /// The cells of column `x2` from row `ylo` up to (not including) `yhi`,
    /// concatenated.
    pub open spec fn column_run(self, x2: int, ylo: int, yhi: int) -> Seq<usize>
        decreases yhi - ylo,
    {
        if yhi <= ylo {
            seq![]
        } else {
            self.column_run(x2, ylo, yhi - 1) + self.cell_or_empty(x2, yhi - 1)
        }
    }

    /// The columns from `xlo` up to (not including) `xhi`, each over rows
    /// `ylo..yhi`, concatenated.
    pub open spec fn block_run(self, xlo: int, xhi: int, ylo: int, yhi: int) -> Seq<usize>
        decreases xhi - xlo,
    {
        if xhi <= xlo {
            seq![]
        } else {
            self.block_run(xlo, xhi - 1, ylo, yhi) + self.column_run(xhi - 1, ylo, yhi)
        }
    }

    /// The neighbourhood of cell `(x, y)` of the given radius.
    pub open spec fn neighborhood(self, x: int, y: int, range: int) -> Seq<usize> {
        self.block_run(x - range, x + range + 1, y - range, y + range + 1)
    }

    /// A store of the given particles with an empty grid of `regions_x ×
    /// regions_y` cells over an empty domain.
    pub fn new(instances: Vec<ParticleInstance>, regions_x: usize, regions_y: usize) -> (r: Self)
        requires
            regions_x * regions_y <= usize::MAX,
        ensures
            r.instances@ == instances@,
            r.regions_x == regions_x,
            r.regions_y == regions_y,
            r.regions@.len() == regions_x * regions_y,
            forall|c: int| 0 <= c < r.regions@.len() ==> (#[trigger] r.regions@[c])@.len() == 0,
            r.bounding_box.wf(),
            r.bounding_box == (BoundingBox {
                min_pos: Vec3 { x: 0, y: 0, z: 0 },
                max_pos: Vec3 { x: 0, y: 0, z: 0 },
                bound_type: BoundingBoxType::Ignore,
            }),
    {
        let total = regions_x * regions_y;
        let regions = empty_cells(total);
        InstanceContainer {
            instances,
            bounding_box: BoundingBox::new(Vec3::zero(), Vec3::zero(), BoundingBoxType::Ignore),
            regions_x,
            regions_y,
            regions,
        }
    }

    pub fn instances(&self) -> (r: &Vec<ParticleInstance>)
        ensures
            r@ == self.instances@,
    {
        &self.instances
    }

    pub fn instances_mut(&mut self) -> (r: &mut Vec<ParticleInstance>)
        ensures
            *r == old(self).instances,
            *final(self) == (InstanceContainer { instances: *final(r), ..*old(self) }),
    {
        &mut self.instances
    }

    pub fn regions_mut(&mut self) -> (r: &mut Vec<Vec<usize>>)
        ensures
            *r == old(self).regions,
            *final(self) == (InstanceContainer { regions: *final(r), ..*old(self) }),
    {
        &mut self.regions
    }

    pub fn regions(&self) -> (r: &Vec<Vec<usize>>)
        ensures
            r@ == self.regions@,
    {
        &self.regions
    }

    pub fn len(&self) -> (r: usize)
        ensures
            r == self.instances@.len(),
    {
        self.instances.len()
    }

    pub fn is_empty(&self) -> (r: bool)
        ensures
            r == (self.instances@.len() == 0),
    {
        self.instances.len() == 0
    }

    pub fn clear(&mut self)
        ensures
            final(self).instances@.len() == 0,
            final(self).regions@ == old(self).regions@,
            final(self).bounding_box == old(self).bounding_box,
            final(self).regions_x == old(self).regions_x,
            final(self).regions_y == old(self).regions_y,
    {
        self.instances.clear();
    }

    pub fn push(&mut self, instance: ParticleInstance)
        ensures
            final(self).instances@ == old(self).instances@.push(instance),
            final(self).regions@ == old(self).regions@,
            final(self).bounding_box == old(self).bounding_box,
            final(self).regions_x == old(self).regions_x,
            final(self).regions_y == old(self).regions_y,
    {
        self.instances.push(instance);
    }

    pub fn remove(&mut self, index: usize)
        requires
            index < old(self).instances@.len(),
        ensures
            final(self).instances@ == old(self).instances@.remove(index as int),
            final(self).regions@ == old(self).regions@,
            final(self).bounding_box == old(self).bounding_box,
            final(self).regions_x == old(self).regions_x,
            final(self).regions_y == old(self).regions_y,
    {
        self.instances.remove(index);
    }

    /// The indices held by cell `(x, y)`.
    pub fn get_region(&self, x: usize, y: usize) -> (r: &Vec<usize>)
        requires
            self.regions@.len() == self.regions_x * self.regions_y,
            x < self.regions_x,
            y < self.regions_y,
        ensures
            r@ == self.regions@[y * self.regions_x + x]@,
            r@ == self.cell_or_empty(x as int, y as int),
    {
        let cells = self.regions.len();
        proof {
            lemma_row_major_bound(x as int, y as int, self.regions_x as int, self.regions_y as int);
            assert(y * self.regions_x + x < cells);
        }
        &self.regions[y * self.regions_x + x]
    }

    /// The indices held by cell `(x, y)`, to change in place.
    pub fn get_region_mut(&mut self, x: usize, y: usize) -> (r: &mut Vec<usize>)
        requires
            old(self).regions@.len() == old(self).regions_x * old(self).regions_y,
            x < old(self).regions_x,
            y < old(self).regions_y,
        ensures
            *r == old(self).regions@[y * old(self).regions_x + x],
            final(self).regions@ == old(self).regions@.update(y * old(self).regions_x + x, *final(r)),
            final(self).instances == old(self).instances,
            final(self).bounding_box == old(self).bounding_box,
            final(self).regions_x == old(self).regions_x,
            final(self).regions_y == old(self).regions_y,
    {
        let cells = self.regions.len();
        proof {
            lemma_row_major_bound(x as int, y as int, self.regions_x as int, self.regions_y as int);
            assert(y * self.regions_x + x < cells);
        }
        let k = y * self.regions_x + x;
        &mut self.regions[k]
    }

    /// A copy of the indices held by cell `(x, y)`.
    pub fn copy_region(&self, x: usize, y: usize) -> (r: Vec<usize>)
        requires
            self.regions@.len() == self.regions_x * self.regions_y,
            x < self.regions_x,
            y < self.regions_y,
        ensures
            r@ == self.regions@[y * self.regions_x + x]@,
    {
        let mut r: Vec<usize> = Vec::new();
        append_all(&mut r, self.get_region(x, y));
        r
    }

    /// The concatenation, column by column and row by row within a column,
    /// of the cells within `range` of `(x, y)` in both directions that lie on
    /// the grid.
    pub fn get_regions_in_range(&self, x: usize, y: usize, range: u32) -> (r: Vec<usize>)
        requires
            self.regions@.len() == self.regions_x * self.regions_y,
            x < self.regions_x,
            y < self.regions_y,
        ensures
            r@ == self.neighborhood(x as int, y as int, range as int),
    {
        let xlo: i128 = x as i128 - range as i128;
        let xhi: i128 = x as i128 + range as i128 + 1;
        let ylo: i128 = y as i128 - range as i128;
        let yhi: i128 = y as i128 + range as i128 + 1;
        let mut instances: Vec<usize> = Vec::new();
        let mut x2: i128 = xlo;
        while x2 < xhi
            invariant
                xlo <= x2 <= xhi,
                xhi == x + range + 1,
                ylo == y - range,
                yhi == y + range + 1,
                xlo == x - range,
                self.regions@.len() == self.regions_x * self.regions_y,
                instances@ == self.block_run(xlo as int, x2 as int, ylo as int, yhi as int),
            decreases xhi - x2,
        {
            let mut y2: i128 = ylo;
            while y2 < yhi
                invariant
                    xlo <= x2 < xhi,
                    ylo <= y2 <= yhi,
                    yhi == y + range + 1,
                    ylo == y - range,
                    self.regions@.len() == self.regions_x * self.regions_y,
                    instances@ == self.block_run(xlo as int, x2 as int, ylo as int, yhi as int)
                        + self.column_run(x2 as int, ylo as int, y2 as int),
                decreases yhi - y2,
            {
                if 0 <= x2 && x2 < self.regions_x as i128 && 0 <= y2 && y2 < self.regions_y as i128 {
                    let cell = self.get_region(x2 as usize, y2 as usize);
                    append_all(&mut instances, cell);
                }
                proof {
                    assert(self.column_run(x2 as int, ylo as int, y2 + 1) == self.column_run(
                        x2 as int,
                        ylo as int,
                        y2 as int,
                    ) + self.cell_or_empty(x2 as int, y2 as int));
                }
                y2 = y2 + 1;
                assert(instances@ == self.block_run(xlo as int, x2 as int, ylo as int, yhi as int)
                    + self.column_run(x2 as int, ylo as int, y2 as int));
            }
            x2 = x2 + 1;
        }
        instances
    }

    /// Clears every cell and puts each particle's index into the cell of its
    /// position.
    pub fn rebuild_regions(&mut self)
        requires
            old(self).bounding_box.wf(),
            0 < old(self).regions_x,
            0 < old(self).regions_y,
            old(self).regions_x * old(self).regions_y <= usize::MAX,
        ensures
            final(self).partitioned(),
            final(self).instances@ == old(self).instances@,
            final(self).bounding_box == old(self).bounding_box,
            final(self).regions_x == old(self).regions_x,
            final(self).regions_y == old(self).regions_y,
    {
        let total = self.regions_x * self.regions_y;
        let mut regions = empty_cells(total);
        let n = self.instances.len();
        let ghost inst = self.instances@;
        let ghost bb = self.bounding_box;
        let ghost rx = self.regions_x as int;
        let ghost ry = self.regions_y as int;
        let mut i: usize = 0;
        while i < n
            invariant
                0 <= i <= n,
                n == inst.len(),
                inst == self.instances@,
                bb == self.bounding_box,
                bb.wf(),
                rx == self.regions_x,
                ry == self.regions_y,
                0 < rx,
                0 < ry,
                total == rx * ry,
                regions@.len() == total,
                forall|c: int|
                    0 <= c < total ==> (#[trigger] regions@[c])@ == cell_members(
                        inst,
                        bb,
                        rx,
                        ry,
                        c,
                        i as nat,
                    ),
            decreases n - i,
        {
            let position = self.instances[i].position;
            let c = self.cell_index_of(position);
            let ghost before = regions@;
            let mut cell: Vec<usize> = Vec::new();
            regions.set_and_swap(c, &mut cell);
            cell.push(i);
            regions.set_and_swap(c, &mut cell);
            assert forall|c2: int| 0 <= c2 < total implies (#[trigger] regions@[c2])@
                == cell_members(inst, bb, rx, ry, c2, (i + 1) as nat) by {
                assert(before[c2]@ == cell_members(inst, bb, rx, ry, c2, i as nat));
            }
            i = i + 1;
        }
        self.regions = regions;
    }

    /// The cell index of a position under this grid.
    pub fn cell_index_of(&self, p: Vec3) -> (r: usize)
        requires
            self.bounding_box.wf(),
            0 < self.regions_x,
            0 < self.regions_y,
            self.regions_x * self.regions_y <= usize::MAX,
        ensures
            r == cell_index(self.bounding_box, self.regions_x as int, self.regions_y as int, p),
            r < self.regions_x * self.regions_y,
    {
        let cx = cell_coord_exec(
            p.x,
            self.bounding_box.min_pos.x,
            self.bounding_box.max_pos.x,
            self.regions_x,
        );
        let cy = cell_coord_exec(
            p.y,
            self.bounding_box.min_pos.y,
            self.bounding_box.max_pos.y,
            self.regions_y,
        );
        proof {
            lemma_row_major_bound(cx as int, cy as int, self.regions_x as int, self.regions_y as int);
        }
        cy * self.regions_x + cx
    }
}

/// The cell coordinate of `p` along one axis.
pub fn cell_coord_exec(p: i64, lo: i64, hi: i64, n: usize) -> (r: usize)
    requires
        lo <= hi,
        in_coord_range(lo as int),
        in_coord_range(hi as int),
        0 < n,
    ensures
        r == cell_coord(p as int, lo as int, hi as int, n as int),
        r < n,
{
    proof {
        lemma_cell_coord_bound(p as int, lo as int, hi as int, n as int);
    }
    if p <= lo {
        0
    } else if p >= hi {
        n - 1
    } else {
        let a: u128 = (p - lo) as u128;
        let w: u128 = (hi - lo) as u128;
        let m: u128 = n as u128;
        assert(a * m < 0x1_0000_0000_0000_0000_0000_0000_0000 as int) by (nonlinear_arith)
            requires
                a < 0x1_0000_0000_0000,
                m <= 0xffff_ffff_ffff_ffff,
        ;
        ((a * m) / w) as usize
    }
}

/// `total` empty cells.
fn empty_cells(total: usize) -> (r: Vec<Vec<usize>>)
    ensures
        r@.len() == total,
        forall|c: int| 0 <= c < total ==> (#[trigger] r@[c])@.len() == 0,
{
    let mut regions: Vec<Vec<usize>> = Vec::new();
    let mut c: usize = 0;
    while c < total
        invariant
            c <= total,
            regions@.len() == c,
            forall|k: int| 0 <= k < c ==> (#[trigger] regions@[k])@.len() == 0,
        decreases total - c,
    {
        regions.push(Vec::new());
        c = c + 1;
    }
    regions
}

/// Appends every element of `src` to `dst`, in order.
fn append_all(dst: &mut Vec<usize>, src: &Vec<usize>)
    ensures
        final(dst)@ == old(dst)@ + src@,
{
    let mut k: usize = 0;
    while k < src.len()
        invariant
            k <= src@.len(),
            dst@ == old(dst)@ + src@.subrange(0, k as int),
        decreases src@.len() - k,
    {
        dst.push(src[k]);
        k = k + 1;
        assert(src@.subrange(0, k as int) == src@.subrange(0, k - 1).push(src@[k - 1]));
    }
    assert(src@.subrange(0, src@.len() as int) == src@);
}

/// Every index held by any cell is below `n`.
pub open spec fn cells_bounded(regions: Seq<Vec<usize>>, n: int) -> bool {
    forall|c: int, k: int|
        0 <= c < regions.len() && 0 <= k < regions[c]@.len() ==> #[trigger] regions[c]@[k] < n
}

impl InstanceContainer {
    proof fn lemma_column_run_bounded(self, x2: int, ylo: int, yhi: int, n: int)
        requires
            cells_bounded(self.regions@, n),
            self.regions@.len() == self.regions_x * self.regions_y,
        ensures
            forall|k: int|
                0 <= k < self.column_run(x2, ylo, yhi).len() ==> #[trigger] self.column_run(
                    x2,
                    ylo,
                    yhi,
                )[k] < n,
        decreases yhi - ylo,
    {
        if yhi > ylo {
            self.lemma_column_run_bounded(x2, ylo, yhi - 1, n);
            let a = self.column_run(x2, ylo, yhi - 1);
            let b = self.cell_or_empty(x2, yhi - 1);
            if 0 <= x2 < self.regions_x && 0 <= yhi - 1 < self.regions_y {
                lemma_row_major_bound(x2, yhi - 1, self.regions_x as int, self.regions_y as int);
            }
            assert forall|k: int| 0 <= k < (a + b).len() implies #[trigger] (a + b)[k] < n by {
                if k >= a.len() {
                    assert((a + b)[k] == b[k - a.len()]);
                }
            }
        }
    }

    /// Every index in a neighbourhood is below `n` when every cell's is.
    pub proof fn lemma_block_run_bounded(self, xlo: int, xhi: int, ylo: int, yhi: int, n: int)
        requires
            cells_bounded(self.regions@, n),
            self.regions@.len() == self.regions_x * self.regions_y,
        ensures
            forall|k: int|
                0 <= k < self.block_run(xlo, xhi, ylo, yhi).len() ==> #[trigger] self.block_run(
                    xlo,
                    xhi,
                    ylo,
                    yhi,
                )[k] < n,
        decreases xhi - xlo,
    {
        if xhi > xlo {
            self.lemma_block_run_bounded(xlo, xhi - 1, ylo, yhi, n);
            self.lemma_column_run_bounded(xhi - 1, ylo, yhi, n);
            let a = self.block_run(xlo, xhi - 1, ylo, yhi);
            let b = self.column_run(xhi - 1, ylo, yhi);
            assert forall|k: int| 0 <= k < (a + b).len() implies #[trigger] (a + b)[k] < n by {
                if k >= a.len() {
                    assert((a + b)[k] == b[k - a.len()]);
                }
            }
        }
    }
}

} // verus!
