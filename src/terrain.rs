//! Terrain volumes: a chunk of 16 x 16 columns, each solid up to a surface
//! derived from a per-column height offset, held in an `ndarray` array.

use ndarray::Array3;
use vstd::prelude::*;

verus! {

/// A dense three-dimensional grid of material ids.
#[verifier::external_body]
pub struct HeightVolume {
    cells: Array3<u32>,
}

/// The elements of a volume in logical (row-major) order.
pub uninterp spec fn volume_cells(v: HeightVolume) -> Seq<u32>;

/// The lengths of the three axes of a volume.
pub uninterp spec fn volume_shape(v: HeightVolume) -> Seq<usize>;

/// Position of index `(i, j, k)` in the row-major order of a grid of shape `shape`.
pub open spec fn row_major(shape: Seq<usize>, i: int, j: int, k: int) -> int {
    (i * shape[1] + j) * shape[2] + k
}

/// Relies on ndarray's `Array::from_shape_vec` with a plain (C-order) shape: it
/// fails exactly when the shape's size differs from the vector's length, and
/// otherwise keeps the vector's elements as the array's row-major order.
#[verifier::external_body]
fn volume_from_vec(d0: usize, d1: usize, d2: usize, v: Vec<u32>) -> (r: Option<HeightVolume>)
    requires
        0 < d0 && 0 < d1 && 0 < d2,
        (d0 as int) * (d1 as int) * (d2 as int) <= isize::MAX,
    ensures
        r is Some <==> (d0 as int) * (d1 as int) * (d2 as int) == v@.len(),
        r matches Some(a) ==> volume_shape(a) == seq![d0, d1, d2] && volume_cells(a) == v@,
{
    Array3::from_shape_vec((d0, d1, d2), v).ok().map(|cells| HeightVolume { cells })
}

/// Relies on ndarray's `ArrayBase::get`: `None` for an index outside the shape,
/// else the element at that index.
#[verifier::external_body]
fn volume_get(a: &HeightVolume, i: usize, j: usize, k: usize) -> (r: Option<u32>)
    ensures
        r is Some <==> (i < volume_shape(*a)[0] && j < volume_shape(*a)[1] && k
            < volume_shape(*a)[2]),
        r matches Some(x) ==> x == volume_cells(*a)[row_major(volume_shape(*a), i as int, j as int, k as int)],
{
    a.cells.get([i, j, k]).copied()
}

/// Relies on ndarray's `ArrayBase::dim`: the lengths of the three axes, whose
/// product is the number of elements.
#[verifier::external_body]
fn volume_dim(a: &HeightVolume) -> (r: (usize, usize, usize))
    ensures
        volume_shape(*a) == seq![r.0, r.1, r.2],
        volume_cells(*a).len() == (r.0 as int) * (r.1 as int) * (r.2 as int),
{
    a.cells.dim()
}


/// Columns along each horizontal axis of a chunk.
pub const CHUNK_SIZE: usize = 16;

/// Cells in each column of a chunk.
pub const VOLUME_HEIGHT: usize = 256;

/// Cells in a chunk's volume.
pub const CHUNK_CELLS: usize = 65536;

/// Index of the surface cell of a column whose height offset is zero.
pub const BASE_HEIGHT: i32 = 63;

/// Material id of an empty cell.
pub const AIR: u32 = 0;

/// Material id of a solid stone cell.
pub const STONE: u32 = 2;

/// Material of cell `y` of a column with height offset `offset`: stone up to
/// and including `BASE_HEIGHT + offset`, air above.
pub open spec fn column_material(offset: int, y: int) -> u32 {
    if y <= BASE_HEIGHT + offset {
        STONE
    } else {
        AIR
    }
}

/// The cells of a chunk, in row-major order over (x, y, z), whose column
/// `(i, j)` has height offset `offsets[i * CHUNK_SIZE + j]`.
pub open spec fn chunk_cells(offsets: Seq<i32>) -> Seq<u32> {
    Seq::new(
        CHUNK_CELLS as nat,
        |n: int|
            column_material(
                offsets[(n / 4096) * 16 + n % 16] as int,
                (n / 16) % 256,
            ),
    )
}

/// The shape of a chunk's volume: x, y (vertical), z.
pub open spec fn chunk_shape() -> Seq<usize> {
    seq![CHUNK_SIZE, VOLUME_HEIGHT, CHUNK_SIZE]
}

/// Material of cell `(i, y, j)` of a volume.
pub open spec fn cell(v: HeightVolume, i: int, y: int, j: int) -> u32 {
    volume_cells(v)[row_major(volume_shape(v), i, y, j)]
}

/// `t` is the highest non-empty cell of column `(i, j)`.
pub open spec fn is_column_top(v: HeightVolume, i: int, j: int, t: int) -> bool {
    &&& 0 <= t < volume_shape(v)[1]
    &&& cell(v, i, t, j) != AIR
    &&& forall|y: int| t < y < volume_shape(v)[1] ==> #[trigger] cell(v, i, y, j) == AIR
}

/// Every cell of column `(i, j)` is empty.
pub open spec fn is_column_empty(v: HeightVolume, i: int, j: int) -> bool {
    forall|y: int| 0 <= y < volume_shape(v)[1] ==> #[trigger] cell(v, i, y, j) == AIR
}

/// World coordinates of the columns of the chunk whose corner column is
/// `(x0, z0)`, in the order in which `height_generator` reads its offsets.
pub open spec fn chunk_column(x0: int, z0: int, k: int) -> (i64, i64) {
    ((x0 + k / 16) as i64, (z0 + k % 16) as i64)
}

/// The world coordinates of the 16 x 16 columns of the chunk whose corner is
/// `(x0, z0)`: entry `i * 16 + j` is `(x0 + i, z0 + j)`.
pub fn chunk_columns(x0: i32, z0: i32) -> (r: Vec<(i64, i64)>)
    ensures
        r@.len() == CHUNK_SIZE * CHUNK_SIZE,
        forall|k: int| 0 <= k < r@.len() ==> #[trigger] r@[k] == chunk_column(x0 as int, z0 as int, k),
{
    let mut r: Vec<(i64, i64)> = Vec::new();
    let mut k: usize = 0;
    while k < CHUNK_SIZE * CHUNK_SIZE
        invariant
            k <= CHUNK_SIZE * CHUNK_SIZE,
            r@.len() == k,
            forall|m: int| 0 <= m < k ==> #[trigger] r@[m] == chunk_column(x0 as int, z0 as int, m),
        decreases CHUNK_SIZE * CHUNK_SIZE - k,
    {
        let x = x0 as i64 + (k / CHUNK_SIZE) as i64;
        let z = z0 as i64 + (k % CHUNK_SIZE) as i64;
        r.push((x, z));
        k += 1;
    }
    r
}

/// Builds the material volume of a chunk from the height offsets of its
/// columns: column `(i, j)` takes `offsets[i * 16 + j]`, and is stone from the
/// floor up to `BASE_HEIGHT` plus that offset, air above. Offsets beyond the
/// volume's range leave the column full or empty; no index leaves the volume.
pub fn height_generator(offsets: &Vec<i32>) -> (r: HeightVolume)
    requires
        offsets@.len() == CHUNK_SIZE * CHUNK_SIZE,
    ensures
        volume_shape(r) == chunk_shape(),
        volume_cells(r) == chunk_cells(offsets@),
{
    let mut cells: Vec<u32> = Vec::new();
    let mut n: usize = 0;
    while n < CHUNK_CELLS
        invariant
            n <= CHUNK_CELLS,
            offsets@.len() == CHUNK_SIZE * CHUNK_SIZE,
            cells@.len() == n,
            forall|m: int| 0 <= m < n ==> #[trigger] cells@[m] == chunk_cells(offsets@)[m],
        decreases CHUNK_CELLS - n,
    {
        let i = n / 4096;
        let y = (n / 16) % 256;
        let j = n % 16;
        let h = offsets[i * 16 + j];
        let material = if (y as i64) <= BASE_HEIGHT as i64 + h as i64 {
            STONE
        } else {
            AIR
        };
        cells.push(material);
        n += 1;
    }
    assert(cells@ =~= chunk_cells(offsets@));
    volume_from_vec(CHUNK_SIZE, VOLUME_HEIGHT, CHUNK_SIZE, cells).unwrap()
}

/// The highest non-empty cell of column `(i, j)`: `None` when the column is
/// empty or lies outside the volume.
pub fn column_top(v: &HeightVolume, i: usize, j: usize) -> (r: Option<usize>)
    ensures
        (i as int) < volume_shape(*v)[0] && (j as int) < volume_shape(*v)[2] ==> match r {
            Some(t) => is_column_top(*v, i as int, j as int, t as int),
            None => is_column_empty(*v, i as int, j as int),
        },
        !((i as int) < volume_shape(*v)[0] && (j as int) < volume_shape(*v)[2]) ==> r is None,
{
    let (d0, d1, d2) = volume_dim(v);
    if i >= d0 || j >= d2 {
        return None;
    }
    let mut y = d1;
    while y > 0
        invariant
            y <= d1,
            i < d0,
            j < d2,
            volume_shape(*v) == seq![d0, d1, d2],
            forall|k: int| y <= k < d1 ==> #[trigger] cell(*v, i as int, k, j as int) == AIR,
        decreases y,
    {
        if let Some(m) = volume_get(v, i, y - 1, j) {
            if m != AIR {
                return Some(y - 1);
            }
        }
        y -= 1;
    }
    None
}

/// The material at `(i, y, j)`, or `None` outside the volume.
pub fn material_at(v: &HeightVolume, i: usize, y: usize, j: usize) -> (r: Option<u32>)
    ensures
        r is Some <==> ((i as int) < volume_shape(*v)[0] && (y as int) < volume_shape(*v)[1]
            && (j as int) < volume_shape(*v)[2]),
        r matches Some(m) ==> m == cell(*v, i as int, y as int, j as int),
{
    volume_get(v, i, y, j)
}

/// The lengths of a volume's axes: x, y (vertical), z.
pub fn dimensions(v: &HeightVolume) -> (r: (usize, usize, usize))
    ensures
        volume_shape(*v) == seq![r.0, r.1, r.2],
{
    volume_dim(v)
}


proof fn lemma_cell_index(i: int, y: int, j: int)
    requires
        0 <= i < 16,
        0 <= y < 256,
        0 <= j < 16,
    ensures
        0 <= (i * 256 + y) * 16 + j < 65536,
        ((i * 256 + y) * 16 + j) / 4096 == i,
        (((i * 256 + y) * 16 + j) / 16) % 256 == y,
        ((i * 256 + y) * 16 + j) % 16 == j,
{
    let n = (i * 256 + y) * 16 + j;
    assert(n == 4096 * i + 16 * y + j);
    assert(n / 16 == 256 * i + y);
    assert((256 * i + y) % 256 == y);
}

/// In a chunk generated from `offsets`, column `(i, j)` is stone exactly up to
/// `BASE_HEIGHT + offsets[i * 16 + j]`: that is its top index whenever it lies
/// inside the volume; below the floor the column is empty, and above the
/// ceiling it is full up to the last cell.
pub proof fn lemma_chunk_column_top(offsets: Seq<i32>, v: HeightVolume, i: int, j: int)
    requires
        offsets.len() == CHUNK_SIZE * CHUNK_SIZE,
        volume_shape(v) == chunk_shape(),
        volume_cells(v) == chunk_cells(offsets),
        0 <= i < CHUNK_SIZE,
        0 <= j < CHUNK_SIZE,
    ensures
        forall|y: int|
            0 <= y < VOLUME_HEIGHT ==> (#[trigger] cell(v, i, y, j) == STONE <==> y <= BASE_HEIGHT
                + offsets[i * 16 + j]),
        0 <= BASE_HEIGHT + offsets[i * 16 + j] < VOLUME_HEIGHT ==> is_column_top(
            v,
            i,
            j,
            BASE_HEIGHT + offsets[i * 16 + j],
        ),
        BASE_HEIGHT + offsets[i * 16 + j] < 0 ==> is_column_empty(v, i, j),
        BASE_HEIGHT + offsets[i * 16 + j] >= VOLUME_HEIGHT ==> is_column_top(
            v,
            i,
            j,
            VOLUME_HEIGHT - 1,
        ),
{
    let h = offsets[i * 16 + j] as int;
    assert forall|y: int| 0 <= y < VOLUME_HEIGHT implies (#[trigger] cell(v, i, y, j) == if y
        <= BASE_HEIGHT + h {
        STONE
    } else {
        AIR
    }) by {
        lemma_cell_index(i, y, j);
    }
}


/// Generation is deterministic: two volumes generated from the same column
/// offsets have the same shape and the same material in every cell.
pub proof fn lemma_generation_deterministic(offsets: Seq<i32>, a: HeightVolume, b: HeightVolume)
    requires
        offsets.len() == CHUNK_SIZE * CHUNK_SIZE,
        volume_shape(a) == chunk_shape(),
        volume_cells(a) == chunk_cells(offsets),
        volume_shape(b) == chunk_shape(),
        volume_cells(b) == chunk_cells(offsets),
    ensures
        volume_shape(a) == volume_shape(b),
        volume_cells(a) == volume_cells(b),
        forall|i: int, y: int, j: int| #[trigger] cell(a, i, y, j) == cell(b, i, y, j),
{
}

} // verus!
