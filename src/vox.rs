use vstd::prelude::*;
use vstd::arithmetic::div_mod::lemma_fundamental_div_mod_converse;

verus! {

/// A dense grid of voxels; a cell is `true` where it is solid.
pub struct VoxelObject {
    pub width: u32,
    pub height: u32,
    pub depth: u32,
    pub data: Vec<bool>,
}

/// Position of cell `(x, y, z)` in a grid `w` wide and `h` high, row by row
/// and layer by layer.
pub open spec fn cell_index(w: int, h: int, x: int, y: int, z: int) -> int {
    z * w * h + y * w + x
}

proof fn lemma_cell_index_bound(w: int, h: int, d: int, x: int, y: int, z: int)
    requires
        0 <= x < w,
        0 <= y < h,
        0 <= z < d,
    ensures
        0 <= cell_index(w, h, x, y, z) < w * h * d,
{
    assert(0 <= y * w + x < w * h) by (nonlinear_arith)
        requires
            0 <= x < w,
            0 <= y < h,
    ;
    assert(0 <= z * w * h <= (d - 1) * w * h) by (nonlinear_arith)
        requires
            0 <= z < d,
            0 < w,
            0 < h,
    ;
    assert((d - 1) * w * h + w * h == w * h * d) by (nonlinear_arith);
}

/// Distinct cells of a grid have distinct positions.
pub proof fn lemma_cell_index_injective(
    w: int,
    h: int,
    x1: int,
    y1: int,
    z1: int,
    x2: int,
    y2: int,
    z2: int,
)
    requires
        0 <= x1 < w,
        0 <= y1 < h,
        0 <= z1,
        0 <= x2 < w,
        0 <= y2 < h,
        0 <= z2,
        cell_index(w, h, x1, y1, z1) == cell_index(w, h, x2, y2, z2),
    ensures
        x1 == x2 && y1 == y2 && z1 == z2,
{
    let i = cell_index(w, h, x1, y1, z1);
    assert(i == (z1 * h + y1) * w + x1) by (nonlinear_arith)
        requires
            i == z1 * w * h + y1 * w + x1,
    ;
    assert(i == (z2 * h + y2) * w + x2) by (nonlinear_arith)
        requires
            i == z2 * w * h + y2 * w + x2,
    ;
    lemma_fundamental_div_mod_converse(i, w, z1 * h + y1, x1);
    lemma_fundamental_div_mod_converse(i, w, z2 * h + y2, x2);
    let q = z1 * h + y1;
    lemma_fundamental_div_mod_converse(q, h, z1, y1);
    lemma_fundamental_div_mod_converse(q, h, z2, y2);
}

impl VoxelObject {
    /// The grid holds exactly one cell for each position.
    pub open spec fn wf(&self) -> bool {
        self.data.len() == self.width * self.height * self.depth
    }

    pub open spec fn in_grid(&self, x: u32, y: u32, z: u32) -> bool {
        x < self.width && y < self.height && z < self.depth
    }

    /// Whether cell `(x, y, z)` is solid.
    pub fn get(&self, x: u32, y: u32, z: u32) -> (r: bool)
        requires
            self.wf(),
            self.in_grid(x, y, z),
        ensures
            r == self.data@[cell_index(
                self.width as int,
                self.height as int,
                x as int,
                y as int,
                z as int,
            )],
    {
        let index = self.index(x, y, z);
        self.data[index]
    }

    /// Marks cell `(x, y, z)` solid and leaves every other cell as it is.
    pub fn set(&mut self, x: u32, y: u32, z: u32)
        requires
            old(self).wf(),
            old(self).in_grid(x, y, z),
        ensures
            final(self).wf(),
            final(self).width == old(self).width,
            final(self).height == old(self).height,
            final(self).depth == old(self).depth,
            final(self).data@ == old(self).data@.update(
                cell_index(
                    old(self).width as int,
                    old(self).height as int,
                    x as int,
                    y as int,
                    z as int,
                ),
                true,
            ),
    {
        let index = self.index(x, y, z);
        self.data.set(index, true);
    }

    fn index(&self, x: u32, y: u32, z: u32) -> (r: usize)
        requires
            self.wf(),
            self.in_grid(x, y, z),
        ensures
            r as int == cell_index(
                self.width as int,
                self.height as int,
                x as int,
                y as int,
                z as int,
            ),
            r < self.data.len(),
    {
        proof {
            lemma_cell_index_bound(
                self.width as int,
                self.height as int,
                self.depth as int,
                x as int,
                y as int,
                z as int,
            );
            assert(z * self.width * self.height <= cell_index(
                self.width as int,
                self.height as int,
                x as int,
                y as int,
                z as int,
            )) by (nonlinear_arith)
                requires
                    0 <= y,
                    0 <= x,
                    0 <= self.width,
            ;
            assert(y * self.width <= y * self.width + x);
            assert(z * self.width <= z * self.width * self.height) by (nonlinear_arith)
                requires
                    0 <= z,
                    0 <= self.width,
                    1 <= self.height,
            ;
        }
        let zwh = (z as usize) * (self.width as usize) * (self.height as usize);
        let yw = (y as usize) * (self.width as usize);
        zwh + yw + x as usize
    }
}

/// The little-endian 32-bit number in the four bytes from `at`.
pub open spec fn u32_le(b: Seq<u8>, at: int) -> int {
    b[at] + 256 * b[at + 1] + 65536 * b[at + 2] + 16777216 * b[at + 3]
}

/// Whether the four bytes from `at` are `t0 t1 t2 t3`.
pub open spec fn tag_at(b: Seq<u8>, at: int, t0: u8, t1: u8, t2: u8, t3: u8) -> bool {
    b[at] == t0 && b[at + 1] == t1 && b[at + 2] == t2 && b[at + 3] == t3
}

/// Offset of the first voxel entry: after the file header (`VOX `, version),
/// the `MAIN`, `SIZE` and `XYZI` chunk headers, the three sizes and the count.
pub open spec fn first_entry() -> int {
    60
}

pub open spec fn size_x(b: Seq<u8>) -> int {
    u32_le(b, 32)
}

pub open spec fn size_y(b: Seq<u8>) -> int {
    u32_le(b, 36)
}

pub open spec fn size_z(b: Seq<u8>) -> int {
    u32_le(b, 40)
}

pub open spec fn entry_count(b: Seq<u8>) -> int {
    u32_le(b, 56)
}

/// The file header, the chunk names and sizes, and room for every entry.
/// Chunk byte counts are not consulted. The grid must fit in memory.
pub open spec fn vox_header_ok(b: Seq<u8>) -> bool {
    &&& b.len() >= first_entry()
    &&& tag_at(b, 0, 0x56, 0x4f, 0x58, 0x20)
    &&& u32_le(b, 4) == 150
    &&& tag_at(b, 8, 0x4d, 0x41, 0x49, 0x4e)
    &&& tag_at(b, 20, 0x53, 0x49, 0x5a, 0x45)
    &&& tag_at(b, 44, 0x58, 0x59, 0x5a, 0x49)
    &&& b.len() >= first_entry() + 4 * entry_count(b)
    &&& size_x(b) * size_y(b) * size_z(b) <= usize::MAX
}

/// Whether entry `k` (x, y, z, colour index) lies inside the grid.
pub open spec fn entry_in_grid(b: Seq<u8>, k: int) -> bool {
    let at = first_entry() + 4 * k;
    b[at] < size_x(b) && b[at + 1] < size_y(b) && b[at + 2] < size_z(b)
}

/// The grid cell of entry `k`.
pub open spec fn entry_cell(b: Seq<u8>, k: int) -> int {
    let at = first_entry() + 4 * k;
    cell_index(size_x(b), size_y(b), b[at] as int, b[at + 1] as int, b[at + 2] as int)
}

/// Whether entry `k` lists cell `(x, y, z)`.
pub open spec fn entry_at(b: Seq<u8>, k: int, x: u32, y: u32, z: u32) -> bool {
    let at = first_entry() + 4 * k;
    b[at] == x && b[at + 1] == y && b[at + 2] == z
}

/// A voxel file this reader takes: a sound header and every entry in the grid.
pub open spec fn is_vox_file(b: Seq<u8>) -> bool {
    &&& vox_header_ok(b)
    &&& forall|k: int| 0 <= k < entry_count(b) ==> #[trigger] entry_in_grid(b, k)
}

fn read_u32_le(b: &[u8], at: usize) -> (r: u32)
    requires
        at + 4 <= b@.len(),
    ensures
        r == u32_le(b@, at as int),
{
    b[at] as u32 + (b[at + 1] as u32) * 256 + (b[at + 2] as u32) * 65536 + (b[at + 3] as u32)
        * 16777216
}

fn tag_is(b: &[u8], at: usize, t0: u8, t1: u8, t2: u8, t3: u8) -> (r: bool)
    requires
        at + 4 <= b@.len(),
    ensures
        r == tag_at(b@, at as int, t0, t1, t2, t3),
{
    b[at] == t0 && b[at + 1] == t1 && b[at + 2] == t2 && b[at + 3] == t3
}

fn try_parse_voxels(bytes: &[u8]) -> (r: Option<VoxelObject>)
    ensures
        r is Some <==> is_vox_file(bytes@),
        r matches Some(v) ==> {
            &&& v.wf()
            &&& v.width == size_x(bytes@)
            &&& v.height == size_y(bytes@)
            &&& v.depth == size_z(bytes@)
            &&& forall|i: int|
                0 <= i < v.data.len() ==> (v.data@[i] <==> exists|k: int|
                    0 <= k < entry_count(bytes@) && #[trigger] entry_cell(bytes@, k) == i)
            &&& forall|x: u32, y: u32, z: u32|
                #![trigger v.data@[cell_index(v.width as int, v.height as int, x as int, y as int, z as int)]]
                v.in_grid(x, y, z) ==> (v.data@[cell_index(
                    v.width as int,
                    v.height as int,
                    x as int,
                    y as int,
                    z as int,
                )] <==> exists|k: int|
                    0 <= k < entry_count(bytes@) && #[trigger] entry_at(bytes@, k, x, y, z))
        },
{
    let ghost b = bytes@;
    if bytes.len() < 60 {
        return None;
    }
    if !tag_is(bytes, 0, 0x56, 0x4f, 0x58, 0x20) || read_u32_le(bytes, 4) != 150 || !tag_is(
        bytes,
        8,
        0x4d,
        0x41,
        0x49,
        0x4e,
    ) || !tag_is(bytes, 20, 0x53, 0x49, 0x5a, 0x45) || !tag_is(bytes, 44, 0x58, 0x59, 0x5a, 0x49) {
        return None;
    }
    let count = read_u32_le(bytes, 56) as usize;
    if (bytes.len() - 60) / 4 < count {
        return None;
    }
    let sx = read_u32_le(bytes, 32);
    let sy = read_u32_le(bytes, 36);
    let sz = read_u32_le(bytes, 40);
    assert(sx * sy <= 0xffff_ffff_ffff_ffffu128) by (nonlinear_arith)
        requires
            sx <= u32::MAX,
            sy <= u32::MAX,
    ;
    assert(sx * sy * sz <= 0xffff_ffff_ffff_ffff_ffff_ffff_ffff_ffffu128) by (nonlinear_arith)
        requires
            sx * sy <= 0xffff_ffff_ffff_ffffu128,
            sz <= u32::MAX,
    ;
    let total = (sx as u128) * (sy as u128) * (sz as u128);
    if total > usize::MAX as u128 {
        return None;
    }
    let total = total as usize;
    let mut data: Vec<bool> = Vec::new();
    while data.len() < total
        invariant
            data.len() <= total,
            forall|i: int| 0 <= i < data.len() ==> !data@[i],
        decreases total - data.len(),
    {
        data.push(false);
    }
    let mut result = VoxelObject { width: sx, height: sy, depth: sz, data };
    let mut k: usize = 0;
    while k < count
        invariant
            b == bytes@,
            vox_header_ok(b),
            count == entry_count(b),
            60 + 4 * count <= bytes.len(),
            k <= count,
            result.wf(),
            result.width == size_x(b),
            result.height == size_y(b),
            result.depth == size_z(b),
            sx == result.width,
            sy == result.height,
            sz == result.depth,
            forall|j: int| 0 <= j < k ==> #[trigger] entry_in_grid(b, j),
            forall|i: int|
                0 <= i < result.data.len() ==> (result.data@[i] <==> exists|j: int|
                    0 <= j < k && #[trigger] entry_cell(b, j) == i),
        decreases count - k,
    {
        let at = 60 + 4 * k;
        let x = bytes[at] as u32;
        let y = bytes[at + 1] as u32;
        let z = bytes[at + 2] as u32;
        if x >= sx || y >= sy || z >= sz {
            assert(!entry_in_grid(b, k as int));
            return None;
        }
        let ghost before = result.data@;
        result.set(x, y, z);
        assert(entry_in_grid(b, k as int));
        proof {
            lemma_cell_index_bound(
                sx as int,
                sy as int,
                sz as int,
                x as int,
                y as int,
                z as int,
            );
        }
        assert(result.data@ == before.update(entry_cell(b, k as int), true));
        assert forall|i: int| 0 <= i < result.data.len() implies (result.data@[i] <==> exists|j: int|
            0 <= j < k + 1 && #[trigger] entry_cell(b, j) == i) by {
            if i == entry_cell(b, k as int) {
                assert(entry_cell(b, k as int) == i);
            } else {
                if before[i] {
                    let j = choose|j: int| 0 <= j < k && #[trigger] entry_cell(b, j) == i;
                    assert(0 <= j < k + 1 && entry_cell(b, j) == i);
                }
                if exists|j: int| 0 <= j < k + 1 && #[trigger] entry_cell(b, j) == i {
                    let j = choose|j: int| 0 <= j < k + 1 && #[trigger] entry_cell(b, j) == i;
                    assert(j != k);
                    assert(0 <= j < k && entry_cell(b, j) == i);
                }
            }
        }
        k = k + 1;
    }
    assert forall|x: u32, y: u32, z: u32| #[trigger] result.in_grid(x, y, z) implies (result.data@[cell_index(
        sx as int,
        sy as int,
        x as int,
        y as int,
        z as int,
    )] <==> exists|j: int| 0 <= j < count && #[trigger] entry_at(b, j, x, y, z)) by {
        let c = cell_index(sx as int, sy as int, x as int, y as int, z as int);
        lemma_cell_index_bound(sx as int, sy as int, sz as int, x as int, y as int, z as int);
        if result.data@[c] {
            let j = choose|j: int| 0 <= j < count && #[trigger] entry_cell(b, j) == c;
            assert(entry_in_grid(b, j));
            let at = 60 + 4 * j;
            lemma_cell_index_injective(
                sx as int,
                sy as int,
                b[at] as int,
                b[at + 1] as int,
                b[at + 2] as int,
                x as int,
                y as int,
                z as int,
            );
            assert(entry_at(b, j, x, y, z));
        }
        if exists|j: int| 0 <= j < count && #[trigger] entry_at(b, j, x, y, z) {
            let j = choose|j: int| 0 <= j < count && #[trigger] entry_at(b, j, x, y, z);
            assert(entry_cell(b, j) == c);
        }
    }
    Some(result)
}

/// Whether `bytes` are a voxel file this reader takes (see `is_vox_file`).
pub fn is_vox(bytes: &[u8]) -> (r: bool)
    ensures
        r == is_vox_file(bytes@),
{
    try_parse_voxels(bytes).is_some()
}

/// Reads a voxel file: a grid of the size it gives, in which exactly the
/// cells of its entries are solid (the colour index is not used). Only for
/// bytes that are such a file; `is_vox` tells.
pub fn parse_voxels(bytes: &[u8]) -> (v: VoxelObject)
    requires
        is_vox_file(bytes@),
    ensures
        v.wf(),
        v.width == size_x(bytes@),
        v.height == size_y(bytes@),
        v.depth == size_z(bytes@),
        forall|i: int|
            0 <= i < v.data.len() ==> (v.data@[i] <==> exists|k: int|
                0 <= k < entry_count(bytes@) && #[trigger] entry_cell(bytes@, k) == i),
        forall|x: u32, y: u32, z: u32|
            #![trigger v.data@[cell_index(v.width as int, v.height as int, x as int, y as int, z as int)]]
            v.in_grid(x, y, z) ==> (v.data@[cell_index(
                v.width as int,
                v.height as int,
                x as int,
                y as int,
                z as int,
            )] <==> exists|k: int|
                0 <= k < entry_count(bytes@) && #[trigger] entry_at(bytes@, k, x, y, z)),
{
    match try_parse_voxels(bytes) {
        Some(v) => v,
        None => unreached(),
    }
}

} // verus!
