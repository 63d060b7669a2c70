//! Topology of the procedural meshes: index buffers and vertex counts of the
//! plane, sphere, torus, box-like shells and star, and the packing of
//! quantised normals.

use vstd::prelude::*;
use vstd::arithmetic::div_mod::lemma_fundamental_div_mod_converse;

verus! {

/// Corner `k` (0..6) of the two triangles of grid cell (`row`, `col`) in a
/// vertex grid `w` vertices wide. Unflipped: `v00 v01 v10, v10 v01 v11`;
/// flipped: `v00 v10 v01, v10 v11 v01`.
pub open spec fn grid_corner(row: int, col: int, w: int, k: int, flip: bool) -> int {
    let v00 = row * w + col;
    let v01 = v00 + 1;
    let v10 = v00 + w;
    let v11 = v10 + 1;
    if !flip {
        if k == 0 { v00 } else if k == 1 { v01 } else if k == 2 { v10 }
        else if k == 3 { v10 } else if k == 4 { v01 } else { v11 }
    } else {
        if k == 0 { v00 } else if k == 1 { v10 } else if k == 2 { v01 }
        else if k == 3 { v10 } else if k == 4 { v11 } else { v01 }
    }
}

/// Entry `i` of the index buffer of a grid with `cols` cells per row: cells
/// are listed row by row, six indices each.
pub open spec fn grid_index(cols: int, flip: bool, i: int) -> int {
    grid_corner((i / 6) / cols, (i / 6) % cols, cols + 1, i % 6, flip)
}

proof fn lemma_cell_bound(row: int, col: int, rows: int, cols: int)
    requires
        0 <= row < rows,
        0 <= col < cols,
    ensures
        (row + 1) * (cols + 1) + col + 1 < (rows + 1) * (cols + 1),
        row * (cols + 1) + col >= 0,
{
    assert((row + 1) * (cols + 1) <= rows * (cols + 1)) by (nonlinear_arith)
        requires row + 1 <= rows, cols + 1 >= 0;
    assert(rows * (cols + 1) + (cols + 1) == (rows + 1) * (cols + 1)) by (nonlinear_arith);
    assert(row * (cols + 1) >= 0) by (nonlinear_arith) requires row >= 0, cols + 1 >= 0;
}

/// Index buffer of a `rows` x `cols` cell grid over a `(rows + 1)` x
/// `(cols + 1)` vertex grid.
fn grid_indices(rows: u32, cols: u32, flip: bool) -> (out: Vec<u32>)
    requires
        cols < u32::MAX,
        (rows + 1) * (cols + 1) <= 0x1_0000_0000,
    ensures
        out@.len() == 6 * rows * cols,
        forall|i: int| 0 <= i < out@.len() ==> out@[i] as int == grid_index(cols as int, flip, i),
        forall|i: int| 0 <= i < out@.len() ==> (out@[i] as int) < (rows + 1) * (cols + 1),
{
    let w: u32 = cols + 1;
    let mut out: Vec<u32> = Vec::new();
    let mut row: u32 = 0;
    while row < rows
        invariant
            w == cols + 1,
            cols < u32::MAX,
            (rows + 1) * (cols + 1) <= 0x1_0000_0000,
            row <= rows,
            out@.len() == 6 * (row * cols),
            forall|i: int| 0 <= i < out@.len() ==> out@[i] as int == grid_index(cols as int, flip, i),
            forall|i: int| 0 <= i < out@.len() ==> (out@[i] as int) < (rows + 1) * (cols + 1),
        decreases rows - row,
    {
        let mut col: u32 = 0;
        while col < cols
            invariant
                w == cols + 1,
                cols < u32::MAX,
                (rows + 1) * (cols + 1) <= 0x1_0000_0000,
                row < rows,
                col <= cols,
                out@.len() == 6 * (row * cols + col),
                forall|i: int| 0 <= i < out@.len() ==> out@[i] as int == grid_index(cols as int, flip, i),
                forall|i: int| 0 <= i < out@.len() ==> (out@[i] as int) < (rows + 1) * (cols + 1),
            decreases cols - col,
        {
            proof {
                lemma_cell_bound(row as int, col as int, rows as int, cols as int);
                assert((row + 1) * (cols + 1) == row * (cols + 1) + (cols + 1)) by (nonlinear_arith);
            }
            let v00 = row * w + col;
            let v01 = v00 + 1;
            let v10 = v00 + w;
            let v11 = v10 + 1;
            let ghost q: int = row * cols + col;
            let ghost start: int = out@.len() as int;
            if !flip {
                out.push(v00);
                out.push(v01);
                out.push(v10);
                out.push(v10);
                out.push(v01);
                out.push(v11);
            } else {
                out.push(v00);
                out.push(v10);
                out.push(v01);
                out.push(v10);
                out.push(v11);
                out.push(v01);
            }
            proof {
                assert(start == 6 * q);
                lemma_fundamental_div_mod_converse(q, cols as int, row as int, col as int);
                assert forall|i: int| start <= i < start + 6 implies out@[i] as int == grid_index(
                    cols as int,
                    flip,
                    i,
                ) by {
                    lemma_fundamental_div_mod_converse(i, 6, q, i - start);
                }
                assert((row * cols + col) + 1 == row * cols + (col + 1));
            }
            col = col + 1;
        }
        proof {
            assert(row * cols + cols == (row + 1) * cols) by (nonlinear_arith);
        }
        row = row + 1;
    }
    assert(6 * (rows * cols) == 6 * rows * cols) by (nonlinear_arith);
    out
}

/// Number of vertices of a sphere with `lat` latitude bands and `lon`
/// longitude segments: `(lat + 1) * (lon + 1)`, the seam duplicated.
pub open spec fn sphere_vertex_count(lat: int, lon: int) -> int {
    (lat + 1) * (lon + 1)
}

/// Index buffer of a UV sphere: `lat * lon` quads, each as two triangles
/// `v00 v01 v10, v10 v01 v11`, over a vertex grid `lon + 1` wide.
pub fn sphere_indices(lat: u32, lon: u32) -> (out: Vec<u32>)
    requires
        lon < u32::MAX,
        sphere_vertex_count(lat as int, lon as int) <= 0x1_0000_0000,
    ensures
        out@.len() == 6 * lat * lon,
        forall|i: int| 0 <= i < out@.len() ==> out@[i] as int == grid_index(lon as int, false, i),
        forall|i: int| 0 <= i < out@.len() ==> (out@[i] as int) < sphere_vertex_count(lat as int, lon as int),
{
    grid_indices(lat, lon, false)
}

/// Number of vertices of the ground plane with `divs` subdivisions per side.
pub open spec fn plane_vertex_count(divs: int) -> int {
    (divs + 1) * (divs + 1)
}

/// Index buffer of the ground plane: `divs * divs` quads, each as two
/// triangles `i00 i10 i01, i10 i11 i01`.
pub fn plane_indices(divs: u32) -> (out: Vec<u32>)
    requires
        divs < u32::MAX,
        plane_vertex_count(divs as int) <= 0x1_0000_0000,
    ensures
        out@.len() == 6 * divs * divs,
        forall|i: int| 0 <= i < out@.len() ==> out@[i] as int == grid_index(divs as int, true, i),
        forall|i: int| 0 <= i < out@.len() ==> (out@[i] as int) < plane_vertex_count(divs as int),
{
    grid_indices(divs, divs, true)
}

/// Corner `k` of the two triangles of torus cell (`i`, `j`): `maj` rings of
/// `mn` vertices, both directions wrapping around.
pub open spec fn torus_corner(i: int, j: int, maj: int, mn: int, k: int) -> int {
    let i_next = (i + 1) % maj;
    let j_next = (j + 1) % mn;
    let v00 = i * mn + j;
    let v01 = i * mn + j_next;
    let v10 = i_next * mn + j;
    let v11 = i_next * mn + j_next;
    if k == 0 { v00 } else if k == 1 { v01 } else if k == 2 { v10 }
    else if k == 3 { v10 } else if k == 4 { v01 } else { v11 }
}

/// Entry `idx` of the torus index buffer: cells ring by ring, six indices each.
pub open spec fn torus_index(maj: int, mn: int, idx: int) -> int {
    torus_corner((idx / 6) / mn, (idx / 6) % mn, maj, mn, idx % 6)
}

proof fn lemma_ring_bound(a: int, b: int, n: int, m: int)
    requires
        0 <= a < n,
        0 <= b < m,
    ensures
        0 <= a * m + b < n * m,
{
    assert(a * m + m <= n * m) by (nonlinear_arith) requires a + 1 <= n, m >= 0;
    assert(a * m >= 0) by (nonlinear_arith) requires a >= 0, m >= 0;
}

/// Index buffer of a torus with `maj` segments around the ring and `min_segs`
/// around the tube; there are `maj * min_segs` vertices and no seam copies,
/// so the last ring and the last tube segment connect back to the first.
pub fn torus_indices(maj: u32, min_segs: u32) -> (out: Vec<u32>)
    requires
        maj * min_segs <= 0x1_0000_0000,
    ensures
        out@.len() == 6 * maj * min_segs,
        forall|i: int| 0 <= i < out@.len() ==> out@[i] as int == torus_index(maj as int, min_segs as int, i),
        forall|i: int| 0 <= i < out@.len() ==> (out@[i] as int) < maj * min_segs,
{
    let mut out: Vec<u32> = Vec::new();
    let mut i: u32 = 0;
    while i < maj
        invariant
            maj * min_segs <= 0x1_0000_0000,
            i <= maj,
            out@.len() == 6 * (i * min_segs),
            forall|x: int| 0 <= x < out@.len() ==> out@[x] as int == torus_index(maj as int, min_segs as int, x),
            forall|x: int| 0 <= x < out@.len() ==> (out@[x] as int) < maj * min_segs,
        decreases maj - i,
    {
        let i_next = (i + 1) % maj;
        let mut j: u32 = 0;
        while j < min_segs
            invariant
                maj * min_segs <= 0x1_0000_0000,
                i < maj,
                i_next == (i + 1) % (maj as int),
                j <= min_segs,
                out@.len() == 6 * (i * min_segs + j),
                forall|x: int| 0 <= x < out@.len() ==> out@[x] as int == torus_index(maj as int, min_segs as int, x),
                forall|x: int| 0 <= x < out@.len() ==> (out@[x] as int) < maj * min_segs,
            decreases min_segs - j,
        {
            let j_next = (j + 1) % min_segs;
            proof {
                lemma_ring_bound(i as int, j as int, maj as int, min_segs as int);
                lemma_ring_bound(i as int, j_next as int, maj as int, min_segs as int);
                lemma_ring_bound(i_next as int, j as int, maj as int, min_segs as int);
                lemma_ring_bound(i_next as int, j_next as int, maj as int, min_segs as int);
            }
            let v00 = i * min_segs + j;
            let v01 = i * min_segs + j_next;
            let v10 = i_next * min_segs + j;
            let v11 = i_next * min_segs + j_next;
            let ghost q: int = i * min_segs + j;
            let ghost start: int = out@.len() as int;
            out.push(v00);
            out.push(v01);
            out.push(v10);
            out.push(v10);
            out.push(v01);
            out.push(v11);
            proof {
                lemma_fundamental_div_mod_converse(q, min_segs as int, i as int, j as int);
                assert forall|x: int| start <= x < start + 6 implies out@[x] as int == torus_index(
                    maj as int,
                    min_segs as int,
                    x,
                ) by {
                    lemma_fundamental_div_mod_converse(x, 6, q, x - start);
                }
            }
            j = j + 1;
        }
        proof {
            assert(i * min_segs + min_segs == (i + 1) * min_segs) by (nonlinear_arith);
        }
        i = i + 1;
    }
    assert(6 * (maj * min_segs) == 6 * maj * min_segs) by (nonlinear_arith);
    out
}

/// Entry `i` of the index buffer of `faces` separate quads, four vertices
/// each, every quad as the triangles `b b+1 b+2, b b+2 b+3`.
pub open spec fn quad_face_index(i: int) -> int {
    let b = 4 * (i / 6);
    let c = i % 6;
    if c == 0 { b } else if c == 1 { b + 1 } else if c == 2 { b + 2 }
    else if c == 3 { b } else if c == 4 { b + 2 } else { b + 3 }
}

/// Index buffer of a box-like mesh made of `faces` quads with their own four
/// vertices each (the cube has six faces, the open room shell five).
pub fn quad_face_indices(faces: u32) -> (out: Vec<u32>)
    requires
        4 * faces <= 0x1_0000_0000,
    ensures
        out@.len() == 6 * faces,
        forall|i: int| 0 <= i < out@.len() ==> out@[i] as int == quad_face_index(i),
        forall|i: int| 0 <= i < out@.len() ==> (out@[i] as int) < 4 * faces,
{
    let mut out: Vec<u32> = Vec::new();
    let mut f: u32 = 0;
    while f < faces
        invariant
            4 * faces <= 0x1_0000_0000,
            f <= faces,
            out@.len() == 6 * f,
            forall|i: int| 0 <= i < out@.len() ==> out@[i] as int == quad_face_index(i),
            forall|i: int| 0 <= i < out@.len() ==> (out@[i] as int) < 4 * faces,
        decreases faces - f,
    {
        let base = f * 4;
        let ghost start: int = out@.len() as int;
        out.push(base);
        out.push(base + 1);
        out.push(base + 2);
        out.push(base);
        out.push(base + 2);
        out.push(base + 3);
        proof {
            assert forall|i: int| start <= i < start + 6 implies out@[i] as int == quad_face_index(i) by {
                lemma_fundamental_div_mod_converse(i, 6, f as int, i - start);
            }
        }
        f = f + 1;
    }
    out
}

/// Number of vertices of a star with `n` ring points (twice its spikes): a
/// centre and `n` ring points on top and bottom, and four per side wall.
pub open spec fn star_vertex_count(n: int) -> int {
    2 + 6 * n
}

/// Entry `i` of the star index buffer for `n` ring points: the top fan, the
/// bottom fan with reversed winding, then one quad per side wall.
pub open spec fn star_index(n: int, i: int) -> int {
    if i < 3 * n {
        let k = i / 3;
        let c = i % 3;
        if c == 0 { 0 } else if c == 1 { 1 + k } else { 1 + (k + 1) % n }
    } else if i < 6 * n {
        let k = (i - 3 * n) / 3;
        let c = (i - 3 * n) % 3;
        let bb = 1 + n;
        if c == 0 { bb } else if c == 1 { bb + 1 + (k + 1) % n } else { bb + 1 + k }
    } else {
        let k = (i - 6 * n) / 6;
        let c = (i - 6 * n) % 6;
        let s = 2 + 2 * n + 4 * k;
        if c == 0 { s } else if c == 1 { s + 1 } else if c == 2 { s + 2 }
        else if c == 3 { s } else if c == 4 { s + 2 } else { s + 3 }
    }
}

/// Index buffer of a star with `points` spikes (`2 * points` ring points).
pub fn star_indices(points: u32) -> (out: Vec<u32>)
    requires
        2 * points <= u32::MAX,
        star_vertex_count(2 * points) <= 0x1_0000_0000,
    ensures
        out@.len() == 12 * (2 * points),
        forall|i: int| 0 <= i < out@.len() ==> out@[i] as int == star_index(2 * points, i),
        forall|i: int| 0 <= i < out@.len() ==> (out@[i] as int) < star_vertex_count(2 * points),
{
    let n_ring: u32 = points * 2;
    let ghost n: int = n_ring as int;
    let mut out: Vec<u32> = Vec::new();
    let top_base: u32 = 0;
    let mut k: u32 = 0;
    while k < n_ring
        invariant
            n == n_ring,
            2 + 6 * n <= 0x1_0000_0000,
            top_base == 0,
            k <= n_ring,
            out@.len() == 3 * k,
            forall|i: int| 0 <= i < out@.len() ==> out@[i] as int == star_index(n, i),
            forall|i: int| 0 <= i < out@.len() ==> (out@[i] as int) < star_vertex_count(n),
        decreases n_ring - k,
    {
        let a = 1 + k;
        let b = 1 + (k + 1) % n_ring;
        let ghost start: int = out@.len() as int;
        out.push(top_base);
        out.push(top_base + a);
        out.push(top_base + b);
        proof {
            assert forall|i: int| start <= i < start + 3 implies out@[i] as int == star_index(n, i) by {
                lemma_fundamental_div_mod_converse(i, 3, k as int, i - start);
            }
        }
        k = k + 1;
    }
    let bot_base: u32 = 1 + n_ring;
    let mut k: u32 = 0;
    while k < n_ring
        invariant
            n == n_ring,
            2 + 6 * n <= 0x1_0000_0000,
            bot_base == 1 + n,
            k <= n_ring,
            out@.len() == 3 * n + 3 * k,
            forall|i: int| 0 <= i < out@.len() ==> out@[i] as int == star_index(n, i),
            forall|i: int| 0 <= i < out@.len() ==> (out@[i] as int) < star_vertex_count(n),
        decreases n_ring - k,
    {
        let a = 1 + k;
        let b = 1 + (k + 1) % n_ring;
        let ghost start: int = out@.len() as int;
        out.push(bot_base);
        out.push(bot_base + b);
        out.push(bot_base + a);
        proof {
            assert forall|i: int| start <= i < start + 3 implies out@[i] as int == star_index(n, i) by {
                lemma_fundamental_div_mod_converse(i - 3 * n, 3, k as int, i - start);
            }
        }
        k = k + 1;
    }
    let mut k: u32 = 0;
    while k < n_ring
        invariant
            n == n_ring,
            2 + 6 * n <= 0x1_0000_0000,
            k <= n_ring,
            out@.len() == 6 * n + 6 * k,
            forall|i: int| 0 <= i < out@.len() ==> out@[i] as int == star_index(n, i),
            forall|i: int| 0 <= i < out@.len() ==> (out@[i] as int) < star_vertex_count(n),
        decreases n_ring - k,
    {
        let base: u32 = 2 + 2 * n_ring + 4 * k;
        let ghost start: int = out@.len() as int;
        out.push(base);
        out.push(base + 1);
        out.push(base + 2);
        out.push(base);
        out.push(base + 2);
        out.push(base + 3);
        proof {
            assert forall|i: int| start <= i < start + 6 implies out@[i] as int == star_index(n, i) by {
                lemma_fundamental_div_mod_converse(i - 6 * n, 6, k as int, i - start);
            }
        }
        k = k + 1;
    }
    out
}

/// Packs three quantised components and a fixed `127` into a little-endian
/// word: `x | y << 8 | z << 16 | 127 << 24`.
pub open spec fn snorm_word(x: u8, y: u8, z: u8) -> int {
    x + 256 * y + 65536 * z + 127 * 16777216
}

/// Packs three already-quantised normal components (the `i8` bytes of
/// `round(127 * clamp(v, -1, 1))`) with a fourth byte of 127.
pub fn pack_snorm_bytes(x: u8, y: u8, z: u8) -> (w: u32)
    ensures
        w as int == snorm_word(x, y, z),
        w & 0xff == x as u32,
        (w >> 8u32) & 0xff == y as u32,
        (w >> 16u32) & 0xff == z as u32,
        w >> 24u32 == 127,
{
    let w: u32 = (x as u32) | ((y as u32) << 8u32) | ((z as u32) << 16u32) | (127u32 << 24u32);
    assert(w == (x as u32) + 256 * (y as u32) + 65536 * (z as u32) + 127 * 16777216) by (bit_vector)
        requires w == (x as u32) | ((y as u32) << 8u32) | ((z as u32) << 16u32) | (127u32 << 24u32);
    assert(w & 0xff == x as u32 && (w >> 8u32) & 0xff == y as u32 && (w >> 16u32) & 0xff == z as u32
        && w >> 24u32 == 127) by (bit_vector)
        requires w == (x as u32) | ((y as u32) << 8u32) | ((z as u32) << 16u32) | (127u32 << 24u32);
    w
}

/// Cell (`row`, `col`) of a sphere or plane grid `cols` cells wide covers the
/// six entries from `6 * (row * cols + col)`: with `v00 = row * (cols + 1) +
/// col` the neighbour to the right is `v00 + 1` and the one a row further
/// `v00 + cols + 1`. The sphere lists `v00 v01 v10, v10 v01 v11`; the plane
/// lists `v00 v10 v01, v10 v11 v01`.
pub proof fn lemma_grid_cells(rows: int, cols: int, row: int, col: int)
    requires
        0 <= row < rows,
        0 <= col < cols,
    ensures
        ({
            let b = 6 * (row * cols + col);
            let v00 = row * (cols + 1) + col;
            &&& 0 <= b && b + 6 <= 6 * rows * cols
            &&& grid_index(cols, false, b) == v00
            &&& grid_index(cols, false, b + 1) == v00 + 1
            &&& grid_index(cols, false, b + 2) == v00 + cols + 1
            &&& grid_index(cols, false, b + 3) == v00 + cols + 1
            &&& grid_index(cols, false, b + 4) == v00 + 1
            &&& grid_index(cols, false, b + 5) == v00 + cols + 2
            &&& grid_index(cols, true, b) == v00
            &&& grid_index(cols, true, b + 1) == v00 + cols + 1
            &&& grid_index(cols, true, b + 2) == v00 + 1
            &&& grid_index(cols, true, b + 3) == v00 + cols + 1
            &&& grid_index(cols, true, b + 4) == v00 + cols + 2
            &&& grid_index(cols, true, b + 5) == v00 + 1
        }),
{
    let q = row * cols + col;
    assert(q + 1 <= rows * cols) by (nonlinear_arith)
        requires 0 <= row < rows, 0 <= col < cols, q == row * cols + col;
    assert(q >= 0) by (nonlinear_arith) requires 0 <= row, 0 <= col < cols, q == row * cols + col;
    assert(6 * rows * cols == 6 * (rows * cols)) by (nonlinear_arith);
    lemma_fundamental_div_mod_converse(q, cols, row, col);
    assert(row * (cols + 1) + col + (cols + 1) == (row + 1) * (cols + 1) + col) by (nonlinear_arith);
    let b = 6 * q;
    lemma_fundamental_div_mod_converse(b, 6, q, 0);
    lemma_fundamental_div_mod_converse(b + 1, 6, q, 1);
    lemma_fundamental_div_mod_converse(b + 2, 6, q, 2);
    lemma_fundamental_div_mod_converse(b + 3, 6, q, 3);
    lemma_fundamental_div_mod_converse(b + 4, 6, q, 4);
    lemma_fundamental_div_mod_converse(b + 5, 6, q, 5);
}

/// Cell (`i`, `j`) of the torus covers the six entries from `6 * (i * mn +
/// j)` and joins ring `i` to the next ring `(i + 1) % maj`, and tube segment
/// `j` to the next segment `(j + 1) % mn`, in the order `v00 v01 v10, v10 v01
/// v11`; every cell is wound the same way.
pub proof fn lemma_torus_cells(maj: int, mn: int, i: int, j: int)
    requires
        0 <= i < maj,
        0 <= j < mn,
    ensures
        ({
            let b = 6 * (i * mn + j);
            let v00 = i * mn + j;
            let v01 = i * mn + (j + 1) % mn;
            let v10 = ((i + 1) % maj) * mn + j;
            let v11 = ((i + 1) % maj) * mn + (j + 1) % mn;
            &&& 0 <= b && b + 6 <= 6 * maj * mn
            &&& torus_index(maj, mn, b) == v00
            &&& torus_index(maj, mn, b + 1) == v01
            &&& torus_index(maj, mn, b + 2) == v10
            &&& torus_index(maj, mn, b + 3) == v10
            &&& torus_index(maj, mn, b + 4) == v01
            &&& torus_index(maj, mn, b + 5) == v11
            &&& (i + 1 < maj ==> v10 == v00 + mn && v11 == v01 + mn)
            &&& (i + 1 == maj ==> v10 == j && v11 == (j + 1) % mn)
            &&& (j + 1 < mn ==> v01 == v00 + 1)
            &&& (j + 1 == mn ==> v01 == i * mn)
        }),
{
    let q = i * mn + j;
    assert(q + 1 <= maj * mn) by (nonlinear_arith)
        requires 0 <= i < maj, 0 <= j < mn, q == i * mn + j;
    assert(q >= 0) by (nonlinear_arith) requires 0 <= i, 0 <= j < mn, q == i * mn + j;
    assert(6 * maj * mn == 6 * (maj * mn)) by (nonlinear_arith);
    lemma_fundamental_div_mod_converse(q, mn, i, j);
    let b = 6 * q;
    lemma_fundamental_div_mod_converse(b, 6, q, 0);
    lemma_fundamental_div_mod_converse(b + 1, 6, q, 1);
    lemma_fundamental_div_mod_converse(b + 2, 6, q, 2);
    lemma_fundamental_div_mod_converse(b + 3, 6, q, 3);
    lemma_fundamental_div_mod_converse(b + 4, 6, q, 4);
    lemma_fundamental_div_mod_converse(b + 5, 6, q, 5);
    if i + 1 < maj {
        lemma_fundamental_div_mod_converse(i + 1, maj, 0, i + 1);
        assert((i + 1) * mn == i * mn + mn) by (nonlinear_arith);
    } else {
        lemma_fundamental_div_mod_converse(i + 1, maj, 1, 0);
    }
    if j + 1 < mn {
        lemma_fundamental_div_mod_converse(j + 1, mn, 0, j + 1);
    } else {
        lemma_fundamental_div_mod_converse(j + 1, mn, 1, 0);
    }
}

/// Face `f` of a box-like mesh is the quad `4f .. 4f + 3`, listed as the
/// triangles `4f 4f+1 4f+2, 4f 4f+2 4f+3`.
pub proof fn lemma_quad_faces(faces: int, f: int)
    requires
        0 <= f < faces,
    ensures
        6 * f + 6 <= 6 * faces,
        quad_face_index(6 * f) == 4 * f,
        quad_face_index(6 * f + 1) == 4 * f + 1,
        quad_face_index(6 * f + 2) == 4 * f + 2,
        quad_face_index(6 * f + 3) == 4 * f,
        quad_face_index(6 * f + 4) == 4 * f + 2,
        quad_face_index(6 * f + 5) == 4 * f + 3,
{
    lemma_fundamental_div_mod_converse(6 * f, 6, f, 0);
    lemma_fundamental_div_mod_converse(6 * f + 1, 6, f, 1);
    lemma_fundamental_div_mod_converse(6 * f + 2, 6, f, 2);
    lemma_fundamental_div_mod_converse(6 * f + 3, 6, f, 3);
    lemma_fundamental_div_mod_converse(6 * f + 4, 6, f, 4);
    lemma_fundamental_div_mod_converse(6 * f + 5, 6, f, 5);
}

/// The star with `n` ring points: top-fan triangle `k` is the centre `0` and
/// the consecutive ring points `1 + k`, `1 + (k + 1) % n`; bottom-fan
/// triangle `k` is the bottom centre `n + 1` with the same two ring points of
/// the bottom ring in the opposite order; side wall `k` is the quad
/// `s .. s + 3` with `s = 2 + 2n + 4k`. With at least two ring points no fan
/// triangle is degenerate.
pub proof fn lemma_star_triangles(n: int, k: int)
    requires
        0 <= k < n,
    ensures
        star_index(n, 3 * k) == 0,
        star_index(n, 3 * k + 1) == 1 + k,
        star_index(n, 3 * k + 2) == 1 + (k + 1) % n,
        star_index(n, 3 * n + 3 * k) == n + 1,
        star_index(n, 3 * n + 3 * k + 1) == n + 2 + (k + 1) % n,
        star_index(n, 3 * n + 3 * k + 2) == n + 2 + k,
        star_index(n, 6 * n + 6 * k) == 2 + 2 * n + 4 * k,
        star_index(n, 6 * n + 6 * k + 1) == 3 + 2 * n + 4 * k,
        star_index(n, 6 * n + 6 * k + 2) == 4 + 2 * n + 4 * k,
        star_index(n, 6 * n + 6 * k + 3) == 2 + 2 * n + 4 * k,
        star_index(n, 6 * n + 6 * k + 4) == 4 + 2 * n + 4 * k,
        star_index(n, 6 * n + 6 * k + 5) == 5 + 2 * n + 4 * k,
        k + 1 < n ==> (k + 1) % n == k + 1,
        k + 1 == n ==> (k + 1) % n == 0,
        n >= 2 ==> (1 + k != 1 + (k + 1) % n && 1 + k != 0 && 1 + (k + 1) % n != 0),
        1 + (k + 1) % n <= n,
{
    lemma_fundamental_div_mod_converse(3 * k, 3, k, 0);
    lemma_fundamental_div_mod_converse(3 * k + 1, 3, k, 1);
    lemma_fundamental_div_mod_converse(3 * k + 2, 3, k, 2);
    lemma_fundamental_div_mod_converse(6 * k, 6, k, 0);
    lemma_fundamental_div_mod_converse(6 * k + 1, 6, k, 1);
    lemma_fundamental_div_mod_converse(6 * k + 2, 6, k, 2);
    lemma_fundamental_div_mod_converse(6 * k + 3, 6, k, 3);
    lemma_fundamental_div_mod_converse(6 * k + 4, 6, k, 4);
    lemma_fundamental_div_mod_converse(6 * k + 5, 6, k, 5);
    if k + 1 < n {
        lemma_fundamental_div_mod_converse(k + 1, n, 0, k + 1);
    } else {
        lemma_fundamental_div_mod_converse(k + 1, n, 1, 0);
    }
}

} // verus!
