use vstd::prelude::*;

verus! {

/// A full-resolution region map: `map[row][column]` holds a 16-bit region index.
pub type RegionMapU16 = Vec<Vec<u16>>;

/// A region map with 8-bit region indices, as kept in memory while editing.
pub type RegionMapU8 = Vec<Vec<u8>>;

/// The part of a region map that is currently loaded.
pub struct SubRegionMapU16(pub Vec<Vec<u16>>);

/// The rows of a grid as mathematical sequences.
pub open spec fn grid_u16(m: Seq<Vec<u16>>) -> Seq<Seq<u16>> {
    m.map_values(|row: Vec<u16>| row@)
}

/// The smaller of two integers.
pub open spec fn min_int(a: int, b: int) -> int {
    if a <= b {
        a
    } else {
        b
    }
}

/// The number of indices in `start..end`, zero when the range is empty.
pub open spec fn range_len(start: int, end: int) -> nat {
    if start < end {
        (end - start) as nat
    } else {
        0
    }
}

/// The rows `x0..x1` of `m`, each cut down to the columns `y0..y1`.
pub open spec fn sub_grid(m: Seq<Seq<u16>>, x0: int, x1: int, y0: int, y1: int) -> Seq<Seq<u16>> {
    Seq::new(range_len(x0, x1), |i: int| Seq::new(range_len(y0, y1), |j: int| m[x0 + i][y0 + j]))
}

/// First row past the cut for bounds `bounds`: the end bound plus one extra row,
/// but not past the map's last row.
pub open spec fn sub_region_row_end(m: Seq<Seq<u16>>, bounds: [[usize; 2]; 2]) -> int {
    min_int(bounds[1][0] + 1, m.len() as int)
}

/// First column past the cut: the end bound plus one extra column, but not past
/// the width of the first row.
pub open spec fn sub_region_col_end(m: Seq<Seq<u16>>, bounds: [[usize; 2]; 2]) -> int {
    min_int(bounds[1][1] + 1, m[0].len() as int)
}

/// Every row that the cut reads is long enough for every column that it reads.
pub open spec fn sub_region_readable(m: Seq<Seq<u16>>, bounds: [[usize; 2]; 2]) -> bool {
    bounds[0][1] < sub_region_col_end(m, bounds) ==> forall|x: int|
        bounds[0][0] <= x < sub_region_row_end(m, bounds) ==> sub_region_col_end(m, bounds)
            <= #[trigger] m[x].len()
}

/// What a cut with the cell bounds `bounds` holds: `bounds[0]` is the first
/// (row, column) taken, `bounds[1]` the last one asked for; one more row and one
/// more column are taken past it, clamped to the map.
pub open spec fn sub_region_of(m: Seq<Seq<u16>>, bounds: [[usize; 2]; 2]) -> Seq<Seq<u16>> {
    sub_grid(
        m,
        bounds[0][0] as int,
        sub_region_row_end(m, bounds),
        bounds[0][1] as int,
        sub_region_col_end(m, bounds),
    )
}

/// A cut takes the rows from the start row up to the end row plus one, and the
/// columns from the start column up to the end column plus one, both stopping
/// at the edge of the map (its height, and the width of its first row); cell
/// `(i, j)` of the cut is cell `(start_row + i, start_col + j)` of the map.
pub proof fn lemma_sub_region_shape(m: Seq<Vec<u16>>, bounds: [[usize; 2]; 2])
    requires
        m.len() > 0,
    ensures
        sub_region_of(grid_u16(m), bounds).len() == vstd::math::max(
            0,
            vstd::math::min(bounds[1][0] + 1, m.len() as int) - bounds[0][0],
        ),
        forall|i: int|
            0 <= i < sub_region_of(grid_u16(m), bounds).len() ==> #[trigger] sub_region_of(
                grid_u16(m),
                bounds,
            )[i].len() == vstd::math::max(
                0,
                vstd::math::min(bounds[1][1] + 1, m[0]@.len() as int) - bounds[0][1],
            ),
        forall|i: int, j: int|
            0 <= i < sub_region_of(grid_u16(m), bounds).len() && 0 <= j < sub_region_of(
                grid_u16(m),
                bounds,
            )[i].len() ==> #[trigger] sub_region_of(grid_u16(m), bounds)[i][j] == m[bounds[0][0]
                + i]@[bounds[0][1] + j],
{
    let g = grid_u16(m);
    assert(g.len() == m.len());
    assert(g[0] == m[0]@);
    assert forall|i: int, j: int|
        0 <= i < sub_region_of(g, bounds).len() && 0 <= j < sub_region_of(g, bounds)[i].len()
        implies #[trigger] sub_region_of(g, bounds)[i][j] == m[bounds[0][0] + i]@[bounds[0][1]
        + j] by {
        assert(g[bounds[0][0] + i] == m[bounds[0][0] + i]@);
    }
}

impl SubRegionMapU16 {
    /// The rows of the sub-region, as sequences.
    pub open spec fn rows(&self) -> Seq<Seq<u16>> {
        grid_u16(self.0@)
    }

    /// Cuts the sub-region with cell bounds `bounds` out of `regionmap`.
    ///
    /// `bounds[0]` is the first (row, column) to take and `bounds[1]` the last
    /// one asked for; the cut reaches one row and one column further, and
    /// stops at the edges of the map (its height, and the width of its first row).
    pub fn from_regionmap_u16(regionmap: &RegionMapU16, bounds: [[usize; 2]; 2]) -> (sub: Self)
        requires
            regionmap.len() > 0,
            bounds[1][0] < usize::MAX,
            bounds[1][1] < usize::MAX,
            sub_region_readable(grid_u16(regionmap@), bounds),
        ensures
            sub.rows() == sub_region_of(grid_u16(regionmap@), bounds),
            sub.rows().len() == vstd::math::max(
                0,
                vstd::math::min(bounds[1][0] + 1, regionmap@.len() as int) - bounds[0][0],
            ),
            forall|i: int|
                0 <= i < sub.rows().len() ==> #[trigger] sub.rows()[i].len() == vstd::math::max(
                    0,
                    vstd::math::min(bounds[1][1] + 1, regionmap@[0]@.len() as int)
                        - bounds[0][1],
                ),
            forall|i: int, j: int|
                0 <= i < sub.rows().len() && 0 <= j < sub.rows()[i].len() ==> #[trigger] sub.rows()[i][j]
                    == regionmap@[bounds[0][0] + i]@[bounds[0][1] + j],
    {
        let ghost m = grid_u16(regionmap@);
        proof {
            lemma_sub_region_shape(regionmap@, bounds);
        }
        let width = regionmap.len();
        let height = regionmap[0].len();
        let start_x = bounds[0][0];
        let start_y = bounds[0][1];
        let end_x = if bounds[1][0] + 1 < width { bounds[1][0] + 1 } else { width };
        let end_y = if bounds[1][1] + 1 < height { bounds[1][1] + 1 } else { height };
        assert(end_x == sub_region_row_end(m, bounds));
        assert(end_y == sub_region_col_end(m, bounds));
        let mut pixel_data: Vec<Vec<u16>> = Vec::new();
        let mut x = start_x;
        while x < end_x
            invariant
                m == grid_u16(regionmap@),
                start_x <= x,
                x == start_x || x <= end_x,
                end_x <= regionmap.len(),
                end_y == sub_region_col_end(m, bounds),
                start_y == bounds[0][1],
                end_x == sub_region_row_end(m, bounds),
                start_x == bounds[0][0],
                sub_region_readable(m, bounds),
                pixel_data.len() == x - start_x,
                forall|i: int|
                    0 <= i < x - start_x ==> #[trigger] pixel_data@[i]@ == sub_region_of(
                        m,
                        bounds,
                    )[i],
            decreases end_x - x,
        {
            let mut row: Vec<u16> = Vec::new();
            let mut y = start_y;
            assert(m[x as int] == regionmap@[x as int]@);
            while y < end_y
                invariant
                    m == grid_u16(regionmap@),
                    start_x <= x < end_x,
                    end_x <= regionmap.len(),
                    start_y <= y,
                    y == start_y || y <= end_y,
                    start_y < end_y ==> end_y <= regionmap@[x as int].len(),
                    row.len() == y - start_y,
                    forall|j: int|
                        0 <= j < y - start_y ==> #[trigger] row@[j] == regionmap@[x as int]@[start_y
                            + j],
                decreases end_y - y,
            {
                row.push(regionmap[x][y]);
                y += 1;
            }
            proof {
                let target = sub_region_of(m, bounds)[x - start_x];
                assert(m[x as int] == regionmap@[x as int]@);
                assert forall|j: int| 0 <= j < row@.len() implies target[j] == row@[j] by {
                    assert(target[j] == m[x as int][start_y + j]);
                }
                assert(target =~= row@);
            }
            pixel_data.push(row);
            x += 1;
        }
        let sub = SubRegionMapU16(pixel_data);
        assert(sub.rows().len() == sub_region_of(m, bounds).len());
        assert forall|i: int| 0 <= i < sub.rows().len() implies sub.rows()[i] == sub_region_of(
            m,
            bounds,
        )[i] by {
            assert(sub.rows()[i] == pixel_data@[i]@);
        }
        assert(sub.rows() =~= sub_region_of(m, bounds));
        sub
    }

    /// Appends one more row at the end.
    pub fn append_x_row(&mut self, row: Vec<u16>)
        ensures
            final(self).rows() == old(self).rows().push(row@),
    {
        let ghost r = row@;
        self.0.push(row);
        assert(self.rows() =~= old(self).rows().push(r));
    }

    /// Appends one value to the end of every row; `col[i]` goes to row `i`.
    pub fn append_y_col(&mut self, col: Vec<u16>)
        requires
            col.len() == old(self).0.len(),
        ensures
            final(self).rows().len() == old(self).rows().len(),
            forall|i: int|
                0 <= i < old(self).rows().len() ==> #[trigger] final(self).rows()[i] == old(
                    self,
                ).rows()[i].push(col@[i]),
    {
        let n = self.0.len();
        let mut i: usize = 0;
        while i < n
            invariant
                n == self.0.len(),
                n == old(self).0.len(),
                col.len() == n,
                i <= n,
                forall|k: int| 0 <= k < i ==> #[trigger] self.0@[k]@ == old(self).0@[k]@.push(col@[k]),
                forall|k: int| i <= k < n ==> #[trigger] self.0@[k]@ == old(self).0@[k]@,
            decreases n - i,
        {
            let v = col[i];
            self.0[i].push(v);
            i += 1;
        }
    }
}


/// Every row of `m` is as wide as its first row.
pub open spec fn rectangular_u16(m: Seq<Seq<u16>>) -> bool {
    m.len() > 0 && forall|x: int| 0 <= x < m.len() ==> #[trigger] m[x].len() == m[0].len()
}

/// Cutting a rectangular map with bounds that start at the first cell and reach
/// its last row and column gives back the whole map.
pub proof fn lemma_sub_region_of_whole_map(m: Seq<Seq<u16>>, bounds: [[usize; 2]; 2])
    requires
        rectangular_u16(m),
        bounds[0][0] == 0,
        bounds[0][1] == 0,
        bounds[1][0] + 1 >= m.len(),
        bounds[1][1] + 1 >= m[0].len(),
    ensures
        sub_region_readable(m, bounds),
        sub_region_of(m, bounds) == m,
{
    let r = sub_region_of(m, bounds);
    assert(sub_region_row_end(m, bounds) == m.len());
    assert(sub_region_col_end(m, bounds) == m[0].len());
    assert forall|x: int| 0 <= x < m.len() implies #[trigger] r[x] == m[x] by {
        assert(r[x] =~= m[x]);
    }
    assert(r =~= m);
}

/// Appending a column to a sub-region whose rows all have `width` values makes
/// every row `width + 1` long, with the column's values at the end.
pub proof fn lemma_append_col_widens(
    before: Seq<Seq<u16>>,
    after: Seq<Seq<u16>>,
    col: Seq<u16>,
    width: int,
)
    requires
        col.len() == before.len(),
        after.len() == before.len(),
        forall|i: int| 0 <= i < before.len() ==> #[trigger] after[i] == before[i].push(col[i]),
        forall|i: int| 0 <= i < before.len() ==> #[trigger] before[i].len() == width,
    ensures
        forall|i: int| 0 <= i < after.len() ==> #[trigger] after[i].len() == width + 1,
        forall|i: int| 0 <= i < after.len() ==> #[trigger] after[i][width] == col[i],
{
    assert forall|i: int| 0 <= i < after.len() implies #[trigger] after[i].len() == width + 1 by {
        assert(after[i] == before[i].push(col[i]));
    }
    assert forall|i: int| 0 <= i < after.len() implies #[trigger] after[i][width] == col[i] by {
        assert(after[i] == before[i].push(col[i]));
    }
}

/// The pixel format of an image handed to the region-map loader.
#[derive(Debug, Clone, Copy, PartialEq, Eq, Structural)]
pub enum RegionTextureFormat {
    /// One unsigned 16-bit channel per pixel, little-endian.
    R16Uint,
    /// Four unsigned 8-bit channels per pixel.
    Rgba8Uint,
    /// Any other format.
    Other,
}

/// The plain contents of an image: its size, pixel format and raw bytes.
pub struct RegionImage {
    pub width: u32,
    pub height: u32,
    pub format: RegionTextureFormat,
    pub data: Vec<u8>,
}

/// Why a region map could not be made from an image.
#[derive(Debug, Clone, Copy, PartialEq, Eq, Structural)]
pub enum RegionMapError {
    LoadingError,
}

impl RegionMapError {
    /// The human-readable message of the error.
    pub fn message(&self) -> (msg: String)
        ensures
            msg@ == "failed to load the image"@,
    {
        "failed to load the image".to_owned()
    }
}

/// The 16-bit value whose little-endian bytes are `lo`, `hi`.
pub open spec fn u16_from_le(lo: u8, hi: u8) -> u16 {
    (lo as int + 256 * (hi as int)) as u16
}

/// Byte offset of the pixel in column `x` of row `y`, for an R16 image of width `width`.
pub open spec fn r16_offset(width: int, x: int, y: int) -> int {
    2 * (y * width + x)
}

/// The region index that an R16 image stores for column `x` of row `y`.
pub open spec fn r16_pixel(data: Seq<u8>, width: int, x: int, y: int) -> u16 {
    u16_from_le(data[r16_offset(width, x, y)], data[r16_offset(width, x, y) + 1])
}

/// `map` is the decoding of the R16 image `image`: one row per image row,
/// each as wide as the image, each value read little-endian from the bytes.
pub open spec fn decodes_r16(map: Seq<Seq<u16>>, image: RegionImage) -> bool {
    &&& map.len() == image.height
    &&& forall|y: int| 0 <= y < image.height ==> #[trigger] map[y].len() == image.width
    &&& forall|y: int, x: int|
        0 <= y < image.height && 0 <= x < image.width ==> #[trigger] map[y][x] == r16_pixel(
            image.data@,
            image.width as int,
            x,
            y,
        )
}

/// Decoding an R16 image reads each pixel from its own two bytes, low byte
/// first: the value in column `x` of row `y` is `lo + 256 * hi`, where `lo` and
/// `hi` are the bytes at `2 * (y * width + x)` and the one after it.
pub proof fn lemma_decoded_pixels(map: Seq<Seq<u16>>, image: RegionImage)
    requires
        decodes_r16(map, image),
    ensures
        map.len() == image.height,
        forall|y: int, x: int|
            0 <= y < image.height && 0 <= x < image.width ==> #[trigger] map[y][x] as int
                == image.data@[2 * (y * image.width + x)] as int + 256 * (image.data@[2 * (y
                * image.width + x) + 1] as int),
{
    assert forall|y: int, x: int|
        0 <= y < image.height && 0 <= x < image.width implies #[trigger] map[y][x] as int
        == image.data@[2 * (y * image.width + x)] as int + 256 * (image.data@[2 * (y
        * image.width + x) + 1] as int) by {
        let lo = image.data@[2 * (y * image.width + x)];
        let hi = image.data@[2 * (y * image.width + x) + 1];
        assert(map[y][x] == u16_from_le(lo, hi));
        assert(lo as int + 256 * (hi as int) <= 65535);
    }
}

/// The bytes of an image are enough to hold all of its pixels in R16 format.
pub open spec fn r16_data_complete(image: RegionImage) -> bool {
    2 * (image.width as int) * (image.height as int) <= image.data.len()
}

/// Something that a region map can be made from an image into.
pub trait RegionMap: Sized {
    /// Decodes a region map out of an image.
    fn load_from_image(image: &RegionImage) -> Result<Box<Self>, RegionMapError>
        requires
            image.format == RegionTextureFormat::R16Uint ==> r16_data_complete(*image),
    ;
}

proof fn lemma_r16_bounds(w: int, h: int, x: int, y: int)
    requires
        0 <= x < w,
        0 <= y < h,
    ensures
        y * w + x + 1 <= w * h,
        0 <= y * w,
        2 * (y * w + x) + 2 <= 2 * w * h,
{
    assert(y * w + x + 1 <= w * h) by (nonlinear_arith)
        requires
            0 <= x < w,
            0 <= y < h,
    ;
    assert(0 <= y * w) by (nonlinear_arith)
        requires
            0 <= x < w,
            0 <= y < h,
    ;
    assert(2 * w * h == 2 * (w * h)) by (nonlinear_arith);
}

impl RegionMap for Vec<Vec<u16>> {
    /// Decodes an R16 image row by row; any other format is refused.
    fn load_from_image(image: &RegionImage) -> (result: Result<Box<Self>, RegionMapError>)
        ensures
            match result {
                Ok(map) => image.format == RegionTextureFormat::R16Uint && decodes_r16(
                    grid_u16((*map)@),
                    *image,
                ),
                Err(e) => image.format != RegionTextureFormat::R16Uint && e
                    == RegionMapError::LoadingError,
            },
            result matches Ok(map) ==> {
                &&& (*map)@.len() == image.height
                &&& forall|y: int| 0 <= y < image.height ==> #[trigger] (*map)@[y]@.len()
                    == image.width
                &&& forall|y: int, x: int|
                    0 <= y < image.height && 0 <= x < image.width ==> #[trigger] (*map)@[y]@[x]
                        as int == image.data@[2 * (y * image.width + x)] as int + 256 * (
                    image.data@[2 * (y * image.width + x) + 1] as int)
            },
    {
        let width = image.width as usize;
        let height = image.height as usize;
        if image.format != RegionTextureFormat::R16Uint {
            return Err(RegionMapError::LoadingError);
        }
        let mut region_map: Vec<Vec<u16>> = Vec::with_capacity(height);
        let mut y: usize = 0;
        while y < height
            invariant
                width == image.width,
                height == image.height,
                image.format == RegionTextureFormat::R16Uint,
                r16_data_complete(*image),
                y <= height,
                region_map.len() == y,
                forall|r: int| 0 <= r < y ==> #[trigger] region_map@[r]@.len() == width,
                forall|r: int, x: int|
                    0 <= r < y && 0 <= x < width ==> #[trigger] region_map@[r]@[x] == r16_pixel(
                        image.data@,
                        width as int,
                        x,
                        r,
                    ),
            decreases height - y,
        {
            let mut row: Vec<u16> = Vec::with_capacity(width);
            let mut x: usize = 0;
            while x < width
                invariant
                    width == image.width,
                    height == image.height,
                    r16_data_complete(*image),
                    y < height,
                    x <= width,
                    row.len() == x,
                    forall|c: int|
                        0 <= c < x ==> #[trigger] row@[c] == r16_pixel(
                            image.data@,
                            width as int,
                            c,
                            y as int,
                        ),
                decreases width - x,
            {
                proof {
                    lemma_r16_bounds(width as int, height as int, x as int, y as int);
                }
                let index = 2 * (y * width + x);
                let lo = image.data[index];
                let hi = image.data[index + 1];
                let value = (lo as u16) + (hi as u16) * 256;
                row.push(value);
                x += 1;
            }
            region_map.push(row);
            y += 1;
        }
        let ghost g = grid_u16(region_map@);
        assert forall|r: int| 0 <= r < image.height implies #[trigger] g[r].len() == image.width by {
            assert(g[r] == region_map@[r]@);
        }
        assert forall|r: int, x: int|
            0 <= r < image.height && 0 <= x < image.width implies #[trigger] g[r][x] == r16_pixel(
            image.data@,
            image.width as int,
            x,
            r,
        ) by {
            assert(g[r] == region_map@[r]@);
        }
        proof {
            lemma_decoded_pixels(g, *image);
            assert forall|r: int| 0 <= r < image.height implies #[trigger] region_map@[r]@.len()
                == image.width by {
                assert(g[r] == region_map@[r]@);
            }
            assert forall|r: int, x: int|
                0 <= r < image.height && 0 <= x < image.width implies #[trigger] region_map@[r]@[x]
                as int == image.data@[2 * (r * image.width + x)] as int + 256 * (image.data@[2 * (r
                * image.width + x) + 1] as int) by {
                assert(g[r] == region_map@[r]@);
                assert(g[r][x] == region_map@[r]@[x]);
            }
        }
        Ok(Box::new(region_map))
    }
}

} // verus!
