//! The layout of the terrain: six faces of a cube around the planet, each cut into a grid of square
//! chunks.
//!
//! The cube reaches from -1 to 1 along each axis. Positions of chunks on it are whole numbers here, in
//! units of `1 / SUBDIV`. The unit is a power of two, so they are exact in binary floating point too.
//!
//! The mesh of a chunk is a square plane with `SUBDIV_PER_TILE` subdivisions. The tiles of a chunk are
//! looked up at samples, one at each vertex of its mesh.
use vstd::prelude::*;

verus! {

/// Chunks along each side of a face.
pub const SUBDIV: u32 = 8192;

/// Chunks on a face.
pub const CHUNKS: u32 = SUBDIV * SUBDIV;

/// Subdivisions of a chunk's mesh along each axis: vertices between those on its sides.
pub const SUBDIV_PER_TILE: u32 = 64;

/// Samples along each axis of a chunk.
pub const STEPS: u32 = SUBDIV_PER_TILE + 2;

/// Samples of a chunk.
#[verifier::nonlinear]
pub const SAMPLES: u32 = STEPS * STEPS;

/// A face of the cube, by the direction that it faces.
#[derive(Clone, Copy, Debug, PartialEq, Eq, Structural)]
pub enum Face {
    X,
    Y,
    Z,
    NegX,
    NegY,
    NegZ,
}

impl Face {
    /// Where the middle of the face is.
    pub open spec fn middle(self) -> (int, int, int) {
        match self {
            Face::X => (SUBDIV as int, 0, 0),
            Face::Y => (0, SUBDIV as int, 0),
            Face::Z => (0, 0, SUBDIV as int),
            Face::NegX => (-SUBDIV, 0, 0),
            Face::NegY => (0, -SUBDIV, 0),
            Face::NegZ => (0, 0, -SUBDIV),
        }
    }

    /// The face on the other side of the cube.
    pub open spec fn opposite(self) -> Face {
        match self {
            Face::X => Face::NegX,
            Face::Y => Face::NegY,
            Face::Z => Face::NegZ,
            Face::NegX => Face::X,
            Face::NegY => Face::Y,
            Face::NegZ => Face::Z,
        }
    }
}

/// The faces, in the order in which their chunks are spawned.
pub fn faces() -> (faces: Vec<Face>)
    ensures
        faces@ == seq![Face::X, Face::Y, Face::Z, Face::NegX, Face::NegY, Face::NegZ],
{
    let faces = vec![Face::X, Face::Y, Face::Z, Face::NegX, Face::NegY, Face::NegZ];
    assert(faces@ =~= seq![Face::X, Face::Y, Face::Z, Face::NegX, Face::NegY, Face::NegZ]);
    faces
}

/// Where the centre of the `n`th of the `SUBDIV` chunks along a side lies, from the middle of the
/// face.
pub open spec fn offset(n: int) -> int {
    2 * n - (SUBDIV - 1)
}

/// The offsets of the centre of chunk `i`, along the face's first axis and its second. The chunks
/// are counted along the first axis, row after row.
pub open spec fn offsets(i: int) -> (int, int) {
    (offset(i % SUBDIV as int), offset(i / SUBDIV as int))
}

/// Where the centre of chunk `i` of the face is: in the plane of the face, at its offsets along the
/// two other axes.
pub open spec fn centre(face: Face, i: int) -> (int, int, int) {
    let (a, b) = offsets(i);
    match face {
        Face::X | Face::NegX => (face.middle().0, a, b),
        Face::Y | Face::NegY => (a, face.middle().1, b),
        Face::Z | Face::NegZ => (a, b, face.middle().2),
    }
}

/// Where a chunk is, in units of `1 / SUBDIV`.
#[derive(Clone, Copy, Debug, PartialEq, Eq, Structural)]
pub struct ChunkTranslation {
    pub x: i32,
    pub y: i32,
    pub z: i32,
}

/// Where the centre of chunk `i` of the face is.
pub fn chunk_translation(face: Face, i: u32) -> (translation: ChunkTranslation)
    requires
        i < CHUNKS,
    ensures
        (translation.x as int, translation.y as int, translation.z as int) == centre(
            face,
            i as int,
        ),
{
    let a: i32 = 2 * (i % SUBDIV) as i32 - (SUBDIV as i32 - 1);
    let b: i32 = 2 * (i / SUBDIV) as i32 - (SUBDIV as i32 - 1);
    let side: i32 = SUBDIV as i32;
    match face {
        Face::X => ChunkTranslation { x: side, y: a, z: b },
        Face::Y => ChunkTranslation { x: a, y: side, z: b },
        Face::Z => ChunkTranslation { x: a, y: b, z: side },
        Face::NegX => ChunkTranslation { x: -side, y: a, z: b },
        Face::NegY => ChunkTranslation { x: a, y: -side, z: b },
        Face::NegZ => ChunkTranslation { x: a, y: b, z: -side },
    }
}

/// The samples of a chunk, by their numbers along its first axis and its second, in the order in
/// which their tiles are looked up.
pub open spec fn spec_sample_points() -> Seq<(u32, u32)> {
    Seq::new(SAMPLES as nat, |k: int| ((k / STEPS as int) as u32, (k % STEPS as int) as u32))
}

/// The samples of a chunk, by their numbers along its first axis and its second: `STEPS` of them along
/// each axis, evenly spaced from one side of the chunk to the other.
pub fn sample_points() -> (points: Vec<(u32, u32)>)
    ensures
        points@ == spec_sample_points(),
{
    let mut points: Vec<(u32, u32)> = Vec::new();
    let mut k: u32 = 0;
    while k < SAMPLES
        invariant
            k <= SAMPLES,
            points@.len() == k,
            forall|j: int| 0 <= j < k ==> points@[j] == #[trigger] spec_sample_points()[j],
        decreases SAMPLES - k,
    {
        points.push((k / STEPS, k % STEPS));
        k = k + 1;
    }
    assert(points@ =~= spec_sample_points());
    points
}

/// Where sample `n` along an axis lies, from the middle of the face, in units of
/// `1 / (SUBDIV * (STEPS - 1))`, if the chunk's centre lies at `offset`. In these units a chunk reaches
/// `STEPS - 1` to each side of its centre.
pub open spec fn sample_position(offset: int, n: int) -> int {
    (STEPS - 1) * offset + 2 * n - (STEPS - 1)
}

/// Whether vertex `n` along a side of a plane lies at `position`, if the plane reaches from `from` to
/// `to` and has the given number of subdivisions: its `subdivisions + 2` vertices along a side are
/// evenly spaced, the first at one end and the last at the other.
pub open spec fn vertex_is_at(
    subdivisions: int,
    n: int,
    from: int,
    to: int,
    position: int,
) -> bool {
    &&& 0 <= n < subdivisions + 2
    &&& (subdivisions + 1) * (position - from) == n * (to - from)
}

/// The cube has six faces, and each of them is there once.
pub proof fn law_each_face_once(all: Vec<Face>, face: Face)
    requires
        call_ensures(faces, (), all),
    ensures
        all@.len() == 6,
        all@.contains(face),
        all@.no_duplicates(),
{
    let named = seq![Face::X, Face::Y, Face::Z, Face::NegX, Face::NegY, Face::NegZ];
    assert(all@ == named);
    assert(named[0] == Face::X && named[1] == Face::Y && named[2] == Face::Z && named[3]
        == Face::NegX && named[4] == Face::NegY && named[5] == Face::NegZ);
}

/// A chunk lies in the plane of its face, which is a whole `SUBDIV` away from the middle of the cube,
/// on the side that the face faces. The one in the given column and row is that many chunks, and half
/// a chunk more, away from the edges where the columns and the rows begin. Columns run along the first
/// of the two other axes and rows along the second.
pub proof fn law_chunk_is_in_plane_of_face(face: Face, column: u32, row: u32)
    requires
        column < SUBDIV,
        row < SUBDIV,
    ensures
        ({
            let (x, y, z) = centre(face, row * SUBDIV + column);
            let (first, second) = (2 * column + 1, 2 * row + 1);
            match face {
                Face::X => x == SUBDIV && y + SUBDIV == first && z + SUBDIV == second,
                Face::Y => y == SUBDIV && x + SUBDIV == first && z + SUBDIV == second,
                Face::Z => z == SUBDIV && x + SUBDIV == first && y + SUBDIV == second,
                Face::NegX => x == -SUBDIV && y + SUBDIV == first && z + SUBDIV == second,
                Face::NegY => y == -SUBDIV && x + SUBDIV == first && z + SUBDIV == second,
                Face::NegZ => z == -SUBDIV && x + SUBDIV == first && y + SUBDIV == second,
            }
        }),
{
    let i = row * SUBDIV + column;
    assert(i % SUBDIV as int == column && i / SUBDIV as int == row);
}

/// [`chunk_translation`] puts a chunk on the surface of the cube: in the plane of its face and within
/// its edges. Another chunk of the face lies as far from it as there are columns and rows between them.
pub proof fn law_chunks_are_laid_out(
    face: Face,
    column: u32,
    row: u32,
    at: ChunkTranslation,
    other_column: u32,
    other_row: u32,
    other: ChunkTranslation,
)
    requires
        column < SUBDIV,
        row < SUBDIV,
        other_column < SUBDIV,
        other_row < SUBDIV,
        call_ensures(chunk_translation, (face, (row * SUBDIV + column) as u32), at),
        call_ensures(chunk_translation, (face, (other_row * SUBDIV + other_column) as u32), other),
    ensures
        match face {
            Face::X => at.x == SUBDIV && -SUBDIV < at.y < SUBDIV && -SUBDIV < at.z < SUBDIV,
            Face::Y => at.y == SUBDIV && -SUBDIV < at.x < SUBDIV && -SUBDIV < at.z < SUBDIV,
            Face::Z => at.z == SUBDIV && -SUBDIV < at.x < SUBDIV && -SUBDIV < at.y < SUBDIV,
            Face::NegX => at.x == -SUBDIV && -SUBDIV < at.y < SUBDIV && -SUBDIV < at.z < SUBDIV,
            Face::NegY => at.y == -SUBDIV && -SUBDIV < at.x < SUBDIV && -SUBDIV < at.z < SUBDIV,
            Face::NegZ => at.z == -SUBDIV && -SUBDIV < at.x < SUBDIV && -SUBDIV < at.y < SUBDIV,
        },
        match face {
            Face::X | Face::NegX => {
                &&& other.x == at.x
                &&& other.y - at.y == 2 * (other_column - column)
                &&& other.z - at.z == 2 * (other_row - row)
            },
            Face::Y | Face::NegY => {
                &&& other.y == at.y
                &&& other.x - at.x == 2 * (other_column - column)
                &&& other.z - at.z == 2 * (other_row - row)
            },
            Face::Z | Face::NegZ => {
                &&& other.z == at.z
                &&& other.x - at.x == 2 * (other_column - column)
                &&& other.y - at.y == 2 * (other_row - row)
            },
        },
{
    law_chunk_is_in_plane_of_face(face, column, row);
    law_chunk_is_in_plane_of_face(face, other_column, other_row);
}

/// Every chunk lies within its face: its centre is half a chunk or more away from each edge.
pub proof fn law_chunk_is_within_face(i: int)
    requires
        0 <= i < CHUNKS,
    ensures
        -SUBDIV + 1 <= offsets(i).0 <= SUBDIV - 1,
        -SUBDIV + 1 <= offsets(i).1 <= SUBDIV - 1,
{
}

/// The chunks of a face do not overlap: along one axis at least, the centres of two of them are as
/// far apart as a chunk is wide.
pub proof fn law_chunks_do_not_overlap(i: int, j: int)
    requires
        0 <= i < CHUNKS,
        0 <= j < CHUNKS,
        i != j,
    ensures
        ({
            let (a, b) = offsets(i);
            let (c, d) = offsets(j);
            a - c >= 2 || c - a >= 2 || b - d >= 2 || d - b >= 2
        }),
{
}

/// No two chunks of the cube are in the same place.
pub proof fn law_centres_differ(face: Face, i: int, other: Face, j: int)
    requires
        0 <= i < CHUNKS,
        0 <= j < CHUNKS,
        centre(face, i) == centre(other, j),
    ensures
        face == other,
        i == j,
{
    law_chunk_is_within_face(i);
    law_chunk_is_within_face(j);
    if i != j {
        law_chunks_do_not_overlap(i, j);
    }
}

/// Whether the point with coordinates `p / m` and `q / m` on the face belongs to chunk `i`.
pub open spec fn chunk_has(i: int, p: int, q: int, m: int) -> bool {
    let (a, b) = offsets(i);
    &&& m * (a - 1) <= p <= m * (a + 1)
    &&& m * (b - 1) <= q <= m * (b + 1)
}

/// Which chunk along a side the coordinate `p / m` belongs to.
proof fn lemma_column(p: int, m: int) -> (n: int)
    requires
        m > 0,
        -(SUBDIV * m) <= p <= SUBDIV * m,
    ensures
        0 <= n < SUBDIV,
        m * (offset(n) - 1) <= p <= m * (offset(n) + 1),
{
    let r = p + SUBDIV * m;
    let k = r / (2 * m);
    vstd::arithmetic::div_mod::lemma_fundamental_div_mod(r, 2 * m);
    assert(0 <= k <= SUBDIV && (2 * m) * k <= r < (2 * m) * k + 2 * m) by (nonlinear_arith)
        requires
            m > 0,
            0 <= r <= 2 * (SUBDIV * m),
            r == (2 * m) * k + r % (2 * m),
            0 <= r % (2 * m) < 2 * m,
    ;
    let n = if k < SUBDIV {
        k
    } else {
        SUBDIV - 1
    };
    assert(m * (2 * n - SUBDIV) <= p <= m * (2 * n - SUBDIV + 2)) by (nonlinear_arith)
        requires
            m > 0,
            p <= SUBDIV * m,
            r == p + SUBDIV * m,
            (2 * m) * k <= r < (2 * m) * k + 2 * m,
            n == k || (k == SUBDIV && n == SUBDIV - 1),
    ;
    assert(offset(n) - 1 == 2 * n - SUBDIV);
    n
}

/// The chunks cover their face: every point of it whose coordinates are fractions belongs to one.
pub proof fn law_chunks_cover_face(p: int, q: int, m: int)
    requires
        m > 0,
        -(SUBDIV * m) <= p <= SUBDIV * m,
        -(SUBDIV * m) <= q <= SUBDIV * m,
    ensures
        exists|i: int| 0 <= i < CHUNKS && #[trigger] chunk_has(i, p, q, m),
{
    let x = lemma_column(p, m);
    let y = lemma_column(q, m);
    let i = y * SUBDIV + x;
    assert(i % SUBDIV as int == x && i / SUBDIV as int == y);
    assert(chunk_has(i, p, q, m));
}

/// The samples of a chunk are those of a square grid, each of them once.
pub proof fn law_samples_fill_chunk(first: u32, second: u32)
    ensures
        spec_sample_points().contains((first, second)) <==> first < STEPS && second < STEPS,
        spec_sample_points().no_duplicates(),
{
    if first < STEPS && second < STEPS {
        let k = first * STEPS + second;
        assert(spec_sample_points()[k] == (first, second));
    }
}

/// [`sample_points`] gives one sample for each vertex of a chunk's mesh, of which there are two more
/// along each axis than subdivisions, and no other. A sample comes before those of higher numbers
/// along the first axis and, of the same number there, before those of higher numbers along the
/// second.
pub proof fn law_samples_are_in_order(points: Vec<(u32, u32)>, k: int, l: int)
    requires
        call_ensures(sample_points, (), points),
        0 <= k < l < points@.len(),
    ensures
        points@.len() == (SUBDIV_PER_TILE + 2) * (SUBDIV_PER_TILE + 2),
        points@[k].0 < SUBDIV_PER_TILE + 2,
        points@[k].1 < SUBDIV_PER_TILE + 2,
        points@[k].0 < points@[l].0 || (points@[k].0 == points@[l].0 && points@[k].1
            < points@[l].1),
{
    assert(points@[k] == spec_sample_points()[k]);
    assert(points@[l] == spec_sample_points()[l]);
}

/// A vertex lies where the sample of its number lies, along an axis along which the chunk's centre
/// lies at `offset`.
proof fn lemma_vertex_is_at_sample(offset: int, n: int)
    requires
        0 <= n < SUBDIV_PER_TILE + 2,
    ensures
        vertex_is_at(
            SUBDIV_PER_TILE as int,
            n,
            (STEPS - 1) * (offset - 1),
            (STEPS - 1) * (offset + 1),
            sample_position(offset, n),
        ),
{
    let gaps = STEPS - 1;
    assert(gaps == SUBDIV_PER_TILE + 1);
    assert(gaps * (gaps * offset + 2 * n - gaps - gaps * (offset - 1)) == n * (gaps * (offset + 1)
        - gaps * (offset - 1))) by (nonlinear_arith);
}

/// Every vertex of a chunk's mesh is a sample, and lies where the sample lies.
pub proof fn law_vertices_are_samples(i: int, column: u32, row: u32)
    requires
        0 <= i < CHUNKS,
        column < SUBDIV_PER_TILE + 2,
        row < SUBDIV_PER_TILE + 2,
    ensures
        spec_sample_points().contains((column, row)),
        vertex_is_at(
            SUBDIV_PER_TILE as int,
            column as int,
            (STEPS - 1) * (offsets(i).0 - 1),
            (STEPS - 1) * (offsets(i).0 + 1),
            sample_position(offsets(i).0, column as int),
        ),
        vertex_is_at(
            SUBDIV_PER_TILE as int,
            row as int,
            (STEPS - 1) * (offsets(i).1 - 1),
            (STEPS - 1) * (offsets(i).1 + 1),
            sample_position(offsets(i).1, row as int),
        ),
{
    law_samples_fill_chunk(column, row);
    lemma_vertex_is_at_sample(offsets(i).0, column as int);
    lemma_vertex_is_at_sample(offsets(i).1, row as int);
}

/// Neighbouring chunks sample the side that they share at the same points: the last samples of one
/// lie where the first of the other do.
pub proof fn law_neighbours_share_samples(i: int)
    requires
        0 <= i < CHUNKS,
    ensures
        (i + 1) % SUBDIV as int != 0 ==> {
            &&& sample_position(offsets(i).0, STEPS - 1) == sample_position(offsets(i + 1).0, 0)
            &&& offsets(i).1 == offsets(i + 1).1
        },
        i + SUBDIV < CHUNKS ==> {
            &&& sample_position(offsets(i).1, STEPS - 1) == sample_position(
                offsets(i + SUBDIV).1,
                0,
            )
            &&& offsets(i).0 == offsets(i + SUBDIV).0
        },
{
}

/// The cube is symmetric: opposite each chunk lies the chunk of the opposite face that is counted
/// from the other end.
pub proof fn law_opposite_chunks(face: Face, i: int)
    requires
        0 <= i < CHUNKS,
    ensures
        ({
            let (x, y, z) = centre(face, i);
            centre(face.opposite(), CHUNKS - 1 - i) == (-x, -y, -z)
        }),
{
    let j = CHUNKS - 1 - i;
    assert(j == (SUBDIV - 1 - i / SUBDIV as int) * SUBDIV + (SUBDIV - 1 - i % SUBDIV as int));
    assert(j % SUBDIV as int == SUBDIV - 1 - i % SUBDIV as int);
    assert(j / SUBDIV as int == SUBDIV - 1 - i / SUBDIV as int);
}

} // verus!
