use vstd::prelude::*;

use crate::regionmap::RegionMapU8;

verus! {

broadcast use vstd::seq_lib::group_seq_properties;

#[verifier::external_type_specification]
#[verifier::external_body]
pub struct ExPngEncodingError(png::EncodingError);

/// The bytes of the PNG file that the `png` crate writes for an 8-bit
/// grayscale image of the given size with the given pixel rows.
pub uninterp spec fn png_grayscale8(width: u32, height: u32, data: Seq<u8>) -> Seq<u8>;

/// Encodes `data` as an 8-bit grayscale PNG of `width` x `height` pixels, into
/// memory, with `png::Encoder::new`, `set_color`, `set_depth`,
/// `Encoder::write_header` and `Writer::write_image_data`; the writer's drop
/// writes the final chunk.
///
/// Claimed of the `png` crate: `write_header` fails exactly when the width or
/// the height is zero (grayscale at depth eight is a valid combination), and
/// `write_image_data` fails exactly when `data` does not hold `width * height`
/// bytes; writes into a `Vec` never fail. On success the bytes are those that
/// `png_grayscale8` names for these arguments. The crate computes the row
/// length `width + 1` and the product `width * height` in `usize`, hence the
/// `requires`.
#[verifier::external_body]
fn encode_grayscale8_png(width: u32, height: u32, data: &[u8]) -> (result: Result<
    Vec<u8>,
    png::EncodingError,
>)
    requires
        (width as int) + 1 <= usize::MAX,
        (width as int) * (height as int) <= usize::MAX,
    ensures
        result is Err <==> (width == 0 || height == 0 || data@.len() != (width as int) * (
        height as int)),
        result matches Ok(bytes) ==> bytes@ == png_grayscale8(width, height, data@),
{
    let mut bytes: Vec<u8> = Vec::new();
    {
        let mut encoder = png::Encoder::new(&mut bytes, width, height);
        encoder.set_color(png::ColorType::Grayscale);
        encoder.set_depth(png::BitDepth::Eight);
        let mut writer = encoder.write_header()?;
        writer.write_image_data(data)?;
    }
    Ok(bytes)
}

/// The rows of an 8-bit region map as sequences.
pub open spec fn grid_u8(m: Seq<Vec<u8>>) -> Seq<Seq<u8>> {
    m.map_values(|row: Vec<u8>| row@)
}

/// The pixels of a region map row after row, as they go into the image.
pub open spec fn flattened(m: Seq<Vec<u8>>) -> Seq<u8> {
    grid_u8(m).flatten()
}

/// The width of the saved image: the length of the first row, or zero.
pub open spec fn png_width(m: Seq<Vec<u8>>) -> u32 {
    if m.len() == 0 {
        0
    } else {
        m[0]@.len() as u32
    }
}

/// The height of the saved image: the number of rows.
pub open spec fn png_height(m: Seq<Vec<u8>>) -> u32 {
    m.len() as u32
}

/// The encoder takes the map: the image is not empty and its pixels fill it exactly.
pub open spec fn png_accepts(m: Seq<Vec<u8>>) -> bool {
    &&& png_width(m) != 0
    &&& png_height(m) != 0
    &&& flattened(m).len() == (png_width(m) as int) * (png_height(m) as int)
}

/// Every row of `m` has `width` pixels.
pub open spec fn rows_all_width(m: Seq<Vec<u8>>, width: int) -> bool {
    forall|y: int| 0 <= y < m.len() ==> #[trigger] m[y]@.len() == width
}

/// A map whose rows all have the same width is laid out row after row: it
/// gives `height * width` pixels, and the pixel in column `x` of row `y` comes
/// at position `y * width + x`.
pub proof fn lemma_flattened_rectangular(m: Seq<Vec<u8>>, width: int)
    requires
        width >= 0,
        rows_all_width(m, width),
    ensures
        flattened(m).len() == m.len() * width,
        forall|y: int, x: int|
            0 <= y < m.len() && 0 <= x < width ==> #[trigger] flattened(m)[y * width + x]
                == m[y]@[x],
    decreases m.len(),
{
    if m.len() == 0 {
        assert(grid_u8(m) =~= Seq::<Seq<u8>>::empty());
    } else {
        let p = m.drop_last();
        let n = p.len() as int;
        assert(rows_all_width(p, width));
        lemma_flattened_rectangular(p, width);
        assert(grid_u8(m) =~= grid_u8(p).push(m.last()@));
        grid_u8(p).lemma_flatten_push(m.last()@);
        assert(flattened(m) =~= flattened(p) + m.last()@);
        assert(n * width + width == (n + 1) * width) by (nonlinear_arith);
        assert forall|y: int, x: int|
            0 <= y < m.len() && 0 <= x < width implies #[trigger] flattened(m)[y * width + x]
            == m[y]@[x] by {
            if y < n {
                assert(y * width + x < n * width) by (nonlinear_arith)
                    requires
                        0 <= y < n,
                        0 <= x < width,
                ;
                assert(0 <= y * width) by (nonlinear_arith)
                    requires
                        0 <= y,
                        0 <= width,
                ;
                assert(flattened(m)[y * width + x] == flattened(p)[y * width + x]);
                assert(p[y] == m[y]);
            } else {
                assert(y == n);
                assert(flattened(m)[y * width + x] == m.last()@[x]);
            }
        }
    }
}

/// A map that is not empty and whose rows all have the width of its first row,
/// with both sizes fitting in 32 bits, is accepted by the encoder: saving it
/// does not fail.
pub proof fn lemma_rectangular_map_encodes(m: Seq<Vec<u8>>)
    requires
        0 < m.len() <= u32::MAX,
        0 < m[0]@.len() <= u32::MAX,
        rows_all_width(m, m[0]@.len() as int),
    ensures
        png_accepts(m),
{
    lemma_flattened_rectangular(m, m[0]@.len() as int);
    assert((m.len() as int) * (m[0]@.len() as int) == (m[0]@.len() as int) * (m.len() as int))
        by (nonlinear_arith);
}

/// Why a region map could not be encoded as an image.
#[derive(Debug, Clone, Copy, PartialEq, Eq, Structural)]
pub enum RegionMapEncodeError {
    /// The image would have no rows or no columns.
    EmptyImage,
    /// The rows do not all have the width of the first row.
    BufferSizeMismatch,
}

/// Lays the rows of a region map end to end.
pub fn flatten_region_map(map: &RegionMapU8) -> (flat: Vec<u8>)
    ensures
        flat@ == flattened(map@),
{
    let mut flat: Vec<u8> = Vec::new();
    let mut i: usize = 0;
    while i < map.len()
        invariant
            i <= map.len(),
            flat@ == grid_u8(map@).take(i as int).flatten(),
        decreases map.len() - i,
    {
        let row = &map[i];
        let mut j: usize = 0;
        let ghost before = flat@;
        while j < row.len()
            invariant
                j <= row.len(),
                flat@ == before + row@.take(j as int),
            decreases row.len() - j,
        {
            flat.push(row[j]);
            j += 1;
            assert(flat@ =~= before + row@.take(j as int));
        }
        proof {
            assert(row@.take(j as int) =~= row@);
            let g = grid_u8(map@);
            assert(g.take(i + 1) =~= g.take(i as int).push(row@));
            g.take(i as int).lemma_flatten_push(row@);
        }
        i += 1;
    }
    assert(grid_u8(map@).take(map.len() as int) =~= grid_u8(map@));
    flat
}

/// Whether a region map can be saved, and if not, why: `Ok` exactly when the
/// encoder takes it (see `png_accepts`).
pub fn check_region_map_png(map: &RegionMapU8) -> (result: Result<(), RegionMapEncodeError>)
    ensures
        result is Ok <==> png_accepts(map@),
        result matches Err(e) ==> e == (if png_width(map@) == 0 || png_height(map@) == 0 {
            RegionMapEncodeError::EmptyImage
        } else {
            RegionMapEncodeError::BufferSizeMismatch
        }),
{
    let height = map.len() as u32;
    let width: u32 = if map.len() == 0 {
        0
    } else {
        map[0].len() as u32
    };
    if width == 0 || height == 0 {
        return Err(RegionMapEncodeError::EmptyImage);
    }
    let mut total: u128 = 0;
    let mut i: usize = 0;
    assert((usize::MAX as int) * (usize::MAX as int) < 0x1_0000_0000_0000_0000_0000_0000_0000_0000)
        by (nonlinear_arith)
        requires
            usize::MAX <= 0xffff_ffff_ffff_ffff,
    ;
    while i < map.len()
        invariant
            (usize::MAX as int) * (usize::MAX as int) < 0x1_0000_0000_0000_0000_0000_0000_0000_0000,
            i <= map.len(),
            total == grid_u8(map@).take(i as int).flatten().len(),
            total <= i * (usize::MAX as int),
        decreases map.len() - i,
    {
        proof {
            let g = grid_u8(map@);
            assert(g.take(i + 1) =~= g.take(i as int).push(map@[i as int]@));
            g.take(i as int).lemma_flatten_push(map@[i as int]@);
            assert((i + 1) * (usize::MAX as int) <= (usize::MAX as int) * (usize::MAX as int))
                by (nonlinear_arith)
                requires
                    i < usize::MAX,
            ;
            assert(i * (usize::MAX as int) + (usize::MAX as int) == (i + 1) * (usize::MAX as int))
                by (nonlinear_arith);
        }
        total = total + map[i].len() as u128;
        i += 1;
    }
    assert(grid_u8(map@).take(map.len() as int) =~= grid_u8(map@));
    assert((width as int) * (height as int) <= 0xffff_ffff_ffff_ffff) by (nonlinear_arith)
        requires
            width <= u32::MAX,
            height <= u32::MAX,
    ;
    if total == (width as u128) * (height as u128) {
        Ok(())
    } else {
        Err(RegionMapEncodeError::BufferSizeMismatch)
    }
}

/// Encodes a region map as an 8-bit grayscale PNG, one image row per map row.
///
/// The image is as wide as the first row and as high as the map has rows
/// (each taken modulo 2^32, as the size fields hold 32 bits). The map must be
/// one that the encoder takes (see `check_region_map_png`).
pub fn encode_region_map_png(map: &RegionMapU8) -> (bytes: Vec<u8>)
    requires
        png_accepts(map@),
        (png_width(map@) as int) + 1 <= usize::MAX,
        (png_width(map@) as int) * (png_height(map@) as int) <= usize::MAX,
    ensures
        bytes@ == png_grayscale8(png_width(map@), png_height(map@), flattened(map@)),
{
    let height = map.len() as u32;
    let width: u32 = map[0].len() as u32;
    let buffer = flatten_region_map(map);
    match encode_grayscale8_png(width, height, buffer.as_slice()) {
        Ok(bytes) => bytes,
        Err(_) => {
            proof {
                assert(false);
            }
            Vec::new()
        },
    }
}

/// Saving depends on the content of a map alone: two maps with the same rows
/// are both taken or both refused by the encoder, and give the same bytes. In
/// particular, saving the same map twice writes the same file.
pub proof fn lemma_encoding_depends_on_content(a: Seq<Vec<u8>>, b: Seq<Vec<u8>>)
    requires
        grid_u8(a) == grid_u8(b),
    ensures
        png_accepts(a) == png_accepts(b),
        png_grayscale8(png_width(a), png_height(a), flattened(a)) == png_grayscale8(
            png_width(b),
            png_height(b),
            flattened(b),
        ),
{
    assert(a.len() == grid_u8(a).len());
    assert(b.len() == grid_u8(b).len());
    if a.len() > 0 {
        assert(a[0]@ == grid_u8(a)[0]);
        assert(b[0]@ == grid_u8(b)[0]);
    }
}

} // verus!
