//! Index arithmetic on the world's chunk grid.
//!
//! Chunks live in a row-major grid; these helpers convert between a
//! chunk's index and its position, and enumerate the cells around a
//! chunk — its eight neighbors, and the wider block used by cubic
//! interpolation — clipped to the grid and in ascending index order.

use vstd::prelude::*;
use vstd::arithmetic::div_mod::lemma_fundamental_div_mod;

verus! {

/// A position on the chunk grid.
#[derive(Clone, Copy, Debug, PartialEq, Eq, Structural)]
pub struct Vec2i {
    pub x: i32,
    pub y: i32,
}

/// The dimensions of a chunk grid.
#[derive(Clone, Copy, Debug, PartialEq, Eq, Structural)]
pub struct GridSize {
    pub x: usize,
    pub y: usize,
}

impl GridSize {
    /// A size the index arithmetic can live with: no axis is empty,
    /// each coordinate fits a signed position, and the cell count fits
    /// an index.
    pub open spec fn wf(self) -> bool {
        0 < self.x <= i32::MAX && 0 < self.y <= i32::MAX && self.x * self.y <= usize::MAX
    }

    /// How many cells the grid holds.
    pub open spec fn spec_cells(self) -> int {
        self.x * self.y
    }

    /// Whether the position lies on the grid.
    pub open spec fn contains(self, p: Vec2i) -> bool {
        0 <= p.x < self.x && 0 <= p.y < self.y
    }
}

/// The position of a chunk from its row-major index.
pub fn uniform_idx_as_vec2(size: GridSize, posi: usize) -> (r: Vec2i)
    requires
        size.wf(),
        posi < size.spec_cells(),
    ensures
        r.x == posi as int % size.x as int,
        r.y == posi as int / size.x as int,
        size.contains(r),
{
    proof {
        assert((posi as int) / (size.x as int) < (size.y as int)) by (nonlinear_arith)
            requires
                posi < size.x * size.y,
                0 < size.x,
                0 < size.y,
        ;
    }
    let x = (posi % size.x) as i32;
    let y = (posi / size.x) as i32;
    Vec2i { x, y }
}

/// The row-major index of an in-bounds position.
pub fn vec2_as_uniform_idx(size: GridSize, idx: Vec2i) -> (r: usize)
    requires
        size.wf(),
        size.contains(idx),
    ensures
        r == idx.y * size.x + idx.x,
        r < size.spec_cells(),
{
    proof {
        assert(idx.y * size.x + idx.x < size.x * size.y) by (nonlinear_arith)
            requires
                0 <= idx.x < size.x,
                0 <= idx.y < size.y,
        ;
    }
    (idx.y as usize) * size.x + (idx.x as usize)
}

/// The two conversions invert each other: a chunk's index names exactly
/// its position.
pub proof fn lemma_grid_index_round_trip(size: GridSize, posi: int)
    requires
        size.wf(),
        0 <= posi < size.spec_cells(),
    ensures
        (posi / size.x as int) * size.x as int + posi % size.x as int == posi,
{
    lemma_fundamental_div_mod(posi, size.x as int);
}

/// The eight neighbor offsets, in ascending row-major order.
pub open spec fn spec_neighbor_offset(k: int) -> (int, int) {
    if k == 0 {
        (-1, -1)
    } else if k == 1 {
        (0, -1)
    } else if k == 2 {
        (1, -1)
    } else if k == 3 {
        (-1, 0)
    } else if k == 4 {
        (1, 0)
    } else if k == 5 {
        (-1, 1)
    } else if k == 6 {
        (0, 1)
    } else {
        (1, 1)
    }
}

/// The indexes the first `k` of the given offsets produce around `pos`,
/// keeping only cells on the grid.
pub open spec fn spec_offset_cells(
    size: GridSize,
    pos: Vec2i,
    offset_of: spec_fn(int) -> (int, int),
    k: int,
) -> Seq<usize>
    decreases k,
{
    if k <= 0 {
        Seq::empty()
    } else {
        let (dx, dy) = offset_of(k - 1);
        let nx = pos.x + dx;
        let ny = pos.y + dy;
        spec_offset_cells(size, pos, offset_of, k - 1) + (if 0 <= nx < size.x as int && 0 <= ny
            < size.y as int {
            seq![(ny * size.x as int + nx) as usize]
        } else {
            Seq::empty()
        })
    }
}

/// Steps from `pos` by the given offset and yields the cell's index if
/// it lies on the grid.
fn offset_cell(size: GridSize, pos: Vec2i, dx: i32, dy: i32) -> (r: Option<usize>)
    requires
        size.wf(),
        size.contains(pos),
        -8 <= dx <= 8,
        -8 <= dy <= 8,
    ensures
        ({
            let nx = pos.x + dx;
            let ny = pos.y + dy;
            if 0 <= nx < size.x as int && 0 <= ny < size.y as int {
                r == Some((ny * size.x as int + nx) as usize)
            } else {
                r is None
            }
        }),
        r matches Some(c) ==> c < size.spec_cells(),
{
    let nx = pos.x as i64 + dx as i64;
    let ny = pos.y as i64 + dy as i64;
    if 0 <= nx && nx < size.x as i64 && 0 <= ny && ny < size.y as i64 {
        let cell = vec2_as_uniform_idx(size, Vec2i { x: nx as i32, y: ny as i32 });
        Some(cell)
    } else {
        None
    }
}

/// The cells adjacent to the chunk at `posi`, ascending.
pub fn neighbors(size: GridSize, posi: usize) -> (r: Vec<usize>)
    requires
        size.wf(),
        posi < size.spec_cells(),
    ensures
        r@ == spec_offset_cells(
            size,
            Vec2i {
                x: (posi as int % size.x as int) as i32,
                y: (posi as int / size.x as int) as i32,
            },
            |k: int| spec_neighbor_offset(k),
            8,
        ),
        forall|j: int| 0 <= j < r@.len() ==> #[trigger] r@[j] < size.spec_cells(),
{
    let pos = uniform_idx_as_vec2(size, posi);
    let ghost f = |k: int| spec_neighbor_offset(k);
    let mut r: Vec<usize> = Vec::new();
    let mut k: usize = 0;
    proof {
        assert(r@ =~= spec_offset_cells(size, pos, f, 0));
    }
    loop
        invariant
            size.wf(),
            size.contains(pos),
            0 <= k <= 8,
            forall|i: int| #[trigger] f(i) == spec_neighbor_offset(i),
            r@ == spec_offset_cells(size, pos, f, k as int),
            forall|j: int| 0 <= j < r@.len() ==> #[trigger] r@[j] < size.spec_cells(),
        ensures
            r@ == spec_offset_cells(size, pos, f, 8),
            forall|j: int| 0 <= j < r@.len() ==> #[trigger] r@[j] < size.spec_cells(),
        decreases 8 - k,
    {
        if k == 8 {
            break;
        }
        let (dx, dy): (i32, i32) = if k == 0 {
            (-1, -1)
        } else if k == 1 {
            (0, -1)
        } else if k == 2 {
            (1, -1)
        } else if k == 3 {
            (-1, 0)
        } else if k == 4 {
            (1, 0)
        } else if k == 5 {
            (-1, 1)
        } else if k == 6 {
            (0, 1)
        } else {
            (1, 1)
        };
        proof {
            assert(f(k as int) == (dx as int, dy as int));
        }
        match offset_cell(size, pos, dx, dy) {
            Some(cell) => {
                r.push(cell);
            },
            None => {},
        }
        proof {
            assert(r@ =~= spec_offset_cells(size, pos, f, k as int + 1));
        }
        k = k + 1;
    }
    r
}

/// The offsets of the interpolation block: every cell within three
/// steps on both axes, in ascending row-major order.
pub open spec fn spec_local_offset(k: int) -> (int, int) {
    (k % 7 - 3, k / 7 - 3)
}

/// The cells of the interpolation block around the chunk at `posi`:
/// all cells at most three steps away on each axis, clipped to the
/// grid, ascending.  This covers the perimeter that cubic interpolation
/// between the chunk and its lower-right neighbors inspects.
pub fn local_cells(size: GridSize, posi: usize) -> (r: Vec<usize>)
    requires
        size.wf(),
        posi < size.spec_cells(),
    ensures
        r@ == spec_offset_cells(
            size,
            Vec2i {
                x: (posi as int % size.x as int) as i32,
                y: (posi as int / size.x as int) as i32,
            },
            |k: int| spec_local_offset(k),
            49,
        ),
        forall|j: int| 0 <= j < r@.len() ==> #[trigger] r@[j] < size.spec_cells(),
{
    let pos = uniform_idx_as_vec2(size, posi);
    let ghost f = |k: int| spec_local_offset(k);
    let mut r: Vec<usize> = Vec::new();
    let mut k: usize = 0;
    proof {
        assert(r@ =~= spec_offset_cells(size, pos, f, 0));
    }
    loop
        invariant
            size.wf(),
            size.contains(pos),
            0 <= k <= 49,
            forall|i: int| #[trigger] f(i) == spec_local_offset(i),
            r@ == spec_offset_cells(size, pos, f, k as int),
            forall|j: int| 0 <= j < r@.len() ==> #[trigger] r@[j] < size.spec_cells(),
        ensures
            r@ == spec_offset_cells(size, pos, f, 49),
            forall|j: int| 0 <= j < r@.len() ==> #[trigger] r@[j] < size.spec_cells(),
        decreases 49 - k,
    {
        if k == 49 {
            break;
        }
        let dx = (k % 7) as i32 - 3;
        let dy = (k / 7) as i32 - 3;
        proof {
            assert(f(k as int) == (dx as int, dy as int));
        }
        match offset_cell(size, pos, dx, dy) {
            Some(cell) => {
                r.push(cell);
            },
            None => {},
        }
        proof {
            assert(r@ =~= spec_offset_cells(size, pos, f, k as int + 1));
        }
        k = k + 1;
    }
    r
}

/// The members of the first `k` candidate cells whose downhill entry
/// points back at `posi`.
pub open spec fn spec_uphill_prefix(dh: Seq<i64>, posi: int, cells: Seq<usize>, k: int) -> Seq<
    usize,
>
    decreases k,
{
    if k <= 0 {
        Seq::empty()
    } else {
        spec_uphill_prefix(dh, posi, cells, k - 1) + (if dh[cells[k - 1] as int] == posi {
            seq![cells[k - 1]]
        } else {
            Seq::empty()
        })
    }
}

/// The neighbors of `posi` whose downhill points at `posi`.  The
/// downhill map gives, per cell, the index it drains to, or a negative
/// marker for oceans and pits.
pub fn uphill(size: GridSize, dh: &Vec<i64>, posi: usize) -> (r: Vec<usize>)
    requires
        size.wf(),
        posi < size.spec_cells(),
        dh@.len() == size.spec_cells(),
    ensures
        ({
            let ns = spec_offset_cells(
                size,
                Vec2i {
                    x: (posi as int % size.x as int) as i32,
                    y: (posi as int / size.x as int) as i32,
                },
                |k: int| spec_neighbor_offset(k),
                8,
            );
            r@ == spec_uphill_prefix(dh@, posi as int, ns, ns.len() as int)
        }),
{
    let ns = neighbors(size, posi);
    proof {
        assert((posi as int) < 0x4000_0000_0000_0000) by (nonlinear_arith)
            requires
                posi < size.x * size.y,
                size.x <= i32::MAX,
                size.y <= i32::MAX,
        ;
    }
    let mut r: Vec<usize> = Vec::new();
    let mut i: usize = 0;
    proof {
        assert(r@ =~= spec_uphill_prefix(dh@, posi as int, ns@, 0));
    }
    loop
        invariant
            0 <= i <= ns@.len(),
            posi < 0x4000_0000_0000_0000,
            dh@.len() == size.spec_cells(),
            forall|j: int| 0 <= j < ns@.len() ==> #[trigger] ns@[j] < size.spec_cells(),
            r@ == spec_uphill_prefix(dh@, posi as int, ns@, i as int),
        ensures
            r@ == spec_uphill_prefix(dh@, posi as int, ns@, ns@.len() as int),
        decreases ns@.len() - i,
    {
        if i == ns.len() {
            break;
        }
        let cell = ns[i];
        if dh[cell] == posi as i64 {
            r.push(cell);
        }
        proof {
            assert(r@ =~= spec_uphill_prefix(dh@, posi as int, ns@, i as int + 1));
        }
        i = i + 1;
    }
    r
}

} // verus!
