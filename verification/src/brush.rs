use vstd::prelude::*;

use crate::edit::{pixel, square_readable, BrushType, EditingTool};
use crate::regionmap::RegionMapU8;

verus! {

/// Whether the brush covers pixel `(x, y)`, as recorded in `mask[x][y]`.
pub open spec fn mask_at(mask: Seq<Vec<bool>>, x: int, y: int) -> bool {
    mask[x]@[y]
}

/// `mask` is a `size` x `size` square of coverage answers.
pub open spec fn mask_fits(mask: Seq<Vec<bool>>, size: int) -> bool {
    &&& mask.len() == size
    &&& forall|x: int| 0 <= x < size ==> #[trigger] mask[x]@.len() == size
}

/// `mask` holds, for every pixel of the square `0..size` x `0..size`, an
/// answer that the coverage test `covers` may give for it.
pub open spec fn coverage_of<C: Fn(usize, usize) -> bool>(
    covers: C,
    size: int,
    mask: Seq<Vec<bool>>,
) -> bool {
    &&& mask_fits(mask, size)
    &&& forall|x: int, y: int|
        0 <= x < size && 0 <= y < size ==> covers.ensures(
            (x as usize, y as usize),
            #[trigger] mask_at(mask, x, y),
        )
}

/// Asks the coverage test for every pixel of the square `0..size` x `0..size`
/// once, and records the answers.
pub fn brush_coverage<C: Fn(usize, usize) -> bool>(size: usize, covers: &C) -> (mask: Vec<
    Vec<bool>,
>)
    requires
        forall|x: usize, y: usize| covers.requires((x, y)),
    ensures
        coverage_of(*covers, size as int, mask@),
{
    let mut mask: Vec<Vec<bool>> = Vec::new();
    let mut x: usize = 0;
    while x < size
        invariant
            x <= size,
            mask.len() == x,
            forall|x: usize, y: usize| covers.requires((x, y)),
            forall|a: int| 0 <= a < x ==> #[trigger] mask@[a]@.len() == size,
            forall|a: int, b: int|
                0 <= a < x && 0 <= b < size ==> covers.ensures(
                    (a as usize, b as usize),
                    #[trigger] mask_at(mask@, a, b),
                ),
        decreases size - x,
    {
        let mut row: Vec<bool> = Vec::new();
        let mut y: usize = 0;
        while y < size
            invariant
                y <= size,
                row.len() == y,
                forall|x: usize, y: usize| covers.requires((x, y)),
                forall|b: int| 0 <= b < y ==> covers.ensures((x, b as usize), #[trigger] row@[b]),
            decreases size - y,
        {
            let c = covers(x, y);
            row.push(c);
            y += 1;
        }
        let ghost done = row@;
        let ghost prev = mask@;
        mask.push(row);
        proof {
            assert forall|a: int, b: int|
                0 <= a < x + 1 && 0 <= b < size implies covers.ensures(
                (a as usize, b as usize),
                #[trigger] mask_at(mask@, a, b),
            ) by {
                if a == x {
                    assert(mask_at(mask@, a, b) == done[b]);
                } else {
                    assert(mask@[a] == prev[a]);
                    assert(mask_at(mask@, a, b) == mask_at(prev, a, b));
                }
            }
        }
        x += 1;
    }
    mask
}

/// Every covered pixel of the square can be read.
pub open spec fn covered_readable(m: Seq<Vec<u8>>, mask: Seq<Vec<bool>>) -> bool {
    forall|x: int, y: int|
        0 <= x < m.len() && 0 <= y < m.len() && #[trigger] mask_at(mask, x, y) ==> y
            < m[x]@.len()
}

/// The region index that a stroke pulls a pixel holding `original` toward:
/// the tool's index for the exact brush, and for smoothing the mean of the
/// pixel and the surrounding height, which the brush takes as 0, so half the
/// pixel's value, rounded down.
pub open spec fn spec_brush_target(tool: EditingTool, brush_type: BrushType, original: u8) -> u16 {
    match brush_type {
        BrushType::Smooth => (original / 2) as u16,
        _ => match tool {
            EditingTool::SetRegionMap { region_index } => region_index,
        },
    }
}

/// The region index that a stroke pulls a pixel holding `original` toward
/// (see `spec_brush_target`).
pub fn brush_target(tool: &EditingTool, brush_type: &BrushType, original: u8) -> (target: u16)
    ensures
        target == spec_brush_target(*tool, *brush_type, original),
        *brush_type == BrushType::Smooth ==> target == original / 2,
        *brush_type != BrushType::Smooth ==> target == match *tool {
            EditingTool::SetRegionMap { region_index } => region_index,
        },
{
    proof {
        lemma_brush_targets(*tool, original);
    }
    match brush_type {
        BrushType::Smooth => (original / 2) as u16,
        _ => match tool {
            EditingTool::SetRegionMap { region_index } => *region_index,
        },
    }
}

/// What the brushes pull a pixel toward: smoothing pulls a pixel holding `v`
/// toward `v / 2` (rounded down), whatever the tool; the exact brush (and
/// any brush other than smoothing) pulls it toward the tool's region index `k`,
/// whatever `v` and `k` are.
pub proof fn lemma_brush_targets(tool: EditingTool, v: u8)
    ensures
        spec_brush_target(tool, BrushType::Smooth, v) == v / 2,
        spec_brush_target(tool, BrushType::SetExact, v) == match tool {
            EditingTool::SetRegionMap { region_index } => region_index,
        },
        spec_brush_target(tool, BrushType::EyeDropper, v) == match tool {
            EditingTool::SetRegionMap { region_index } => region_index,
        },
        0 <= v / 2 <= 127,
{
}

/// The pixels that a stroke may read, as the coverage test may answer: the
/// whole square for the exact brush (it reads every pixel of the square), and
/// for the other brushes every pixel of the square that `covers` may put under
/// the brush.
pub open spec fn brush_readable<C: Fn(usize, usize) -> bool>(
    covers: C,
    brush_type: BrushType,
    m: Seq<Vec<u8>>,
) -> bool {
    match brush_type {
        BrushType::SetExact => square_readable(m),
        _ => forall|x: usize, y: usize|
            x < m.len() && y < m.len() && #[trigger] covers.ensures((x, y), true) ==> y
                < m[x as int]@.len(),
    }
}

/// The pixels that a stroke with coverage `mask` reads can be read.
pub open spec fn mask_readable(brush_type: BrushType, m: Seq<Vec<u8>>, mask: Seq<Vec<bool>>) -> bool {
    match brush_type {
        BrushType::SetExact => square_readable(m),
        _ => covered_readable(m, mask),
    }
}

/// Pixel `(x, y)` of `old` after a stroke holds `now`: a covered pixel holds
/// a value that `blend` may give for it (with its target), another one its
/// old value.
pub open spec fn stroke_pixel<B: Fn(usize, usize, u8, u16) -> u8>(
    blend: B,
    tool: EditingTool,
    brush_type: BrushType,
    mask: Seq<Vec<bool>>,
    old: Seq<Vec<u8>>,
    x: int,
    y: int,
    now: u8,
) -> bool {
    if mask_at(mask, x, y) {
        blend.ensures(
            (
                x as usize,
                y as usize,
                pixel(old, x, y),
                spec_brush_target(tool, brush_type, pixel(old, x, y)),
            ),
            now,
        )
    } else {
        now == pixel(old, x, y)
    }
}

/// `new` is `old` after one brush stroke with coverage `mask` over the square
/// `0..old.len()` x `0..old.len()`: every pixel of the square went through the
/// brush (see `stroke_pixel`), every other pixel kept its value, and `changed`
/// tells whether the brush covered any pixel of the square.
pub open spec fn stroke_applied<B: Fn(usize, usize, u8, u16) -> u8>(
    blend: B,
    tool: EditingTool,
    brush_type: BrushType,
    mask: Seq<Vec<bool>>,
    old: Seq<Vec<u8>>,
    new: Seq<Vec<u8>>,
    changed: bool,
) -> bool {
    &&& new.len() == old.len()
    &&& forall|x: int| 0 <= x < old.len() ==> #[trigger] new[x]@.len() == old[x]@.len()
    &&& forall|x: int, y: int|
        0 <= x < old.len() && 0 <= y < old.len() && y < old[x]@.len() ==> stroke_pixel(
            blend,
            tool,
            brush_type,
            mask,
            old,
            x,
            y,
            #[trigger] pixel(new, x, y),
        )
    &&& forall|x: int, y: int|
        0 <= x < old.len() && old.len() <= y < old[x]@.len() ==> #[trigger] pixel(new, x, y)
            == pixel(old, x, y)
    &&& changed == exists|x: int, y: int|
        0 <= x < old.len() && 0 <= y < old.len() && #[trigger] mask_at(mask, x, y)
}

/// Runs one brush stroke with coverage `mask` over the square
/// `0..map.len()` x `0..map.len()`.
///
/// A covered pixel holding `v` is replaced by `blend(x, y, v, target)`, where
/// `target` is what the brush pulls `v` toward (see `spec_brush_target`).
/// Other pixels keep their value. Returns whether any pixel of the
/// square was covered.
pub fn paint_region_map<B: Fn(usize, usize, u8, u16) -> u8>(
    map: &mut RegionMapU8,
    tool: &EditingTool,
    brush_type: &BrushType,
    mask: &Vec<Vec<bool>>,
    blend: &B,
) -> (changed: bool)
    requires
        mask_fits(mask@, old(map).len() as int),
        mask_readable(*brush_type, old(map)@, mask@),
        forall|x: usize, y: usize, v: u8, t: u16| blend.requires((x, y, v, t)),
    ensures
        stroke_applied(*blend, *tool, *brush_type, mask@, old(map)@, final(map)@, changed),
{
    let ghost old_map = map@;
    let len = map.len();
    proof {
        if *brush_type == BrushType::SetExact {
            assert forall|x: int, y: int|
                0 <= x < len && 0 <= y < len && #[trigger] mask_at(mask@, x, y) implies y
                < old_map[x]@.len() by {
                assert(len <= old_map[x]@.len());
            }
        }
    }
    let mut changed = false;
    let ghost mut witness: (int, int) = (0, 0);
    let mut x: usize = 0;
    while x < len
        invariant
            len == map.len(),
            len == old_map.len(),
            x <= len,
            mask_fits(mask@, len as int),
            covered_readable(old_map, mask@),
            forall|x: usize, y: usize, v: u8, t: u16| blend.requires((x, y, v, t)),
            forall|k: int| 0 <= k < len ==> #[trigger] map@[k]@.len() == old_map[k]@.len(),
            forall|k: int| x <= k < len ==> #[trigger] map@[k]@ == old_map[k]@,
            forall|a: int, b: int|
                0 <= a < x && 0 <= b < len && b < old_map[a]@.len() ==> stroke_pixel(
                    *blend,
                    *tool,
                    *brush_type,
                    mask@,
                    old_map,
                    a,
                    b,
                    #[trigger] pixel(map@, a, b),
                ),
            forall|a: int, b: int|
                0 <= a < x && len <= b < old_map[a]@.len() ==> #[trigger] pixel(map@, a, b)
                    == pixel(old_map, a, b),
            changed ==> 0 <= witness.0 < len && 0 <= witness.1 < len && mask_at(
                mask@,
                witness.0,
                witness.1,
            ),
            !changed ==> forall|a: int, b: int|
                0 <= a < x && 0 <= b < len ==> !#[trigger] mask_at(mask@, a, b),
        decreases len - x,
    {
        let ghost map_start = map@;
        let mut row: Vec<u8> = Vec::new();
        std::mem::swap(&mut row, &mut map[x]);
        assert(row@ == old_map[x as int]@);
        let ghost changed_before = changed;
        let mut y: usize = 0;
        while y < len
            invariant
                len == old_map.len(),
                x < len,
                y <= len,
                mask_fits(mask@, len as int),
                covered_readable(old_map, mask@),
                forall|x: usize, y: usize, v: u8, t: u16| blend.requires((x, y, v, t)),
                row@.len() == old_map[x as int]@.len(),
                forall|b: int| y <= b < row@.len() ==> #[trigger] row@[b] == old_map[x as int]@[b],
                forall|b: int|
                    0 <= b < y && b < row@.len() ==> stroke_pixel(
                        *blend,
                        *tool,
                        *brush_type,
                        mask@,
                        old_map,
                        x as int,
                        b,
                        #[trigger] row@[b],
                    ),
                changed_before ==> changed,
                changed ==> 0 <= witness.0 < len && 0 <= witness.1 < len && mask_at(
                    mask@,
                    witness.0,
                    witness.1,
                ),
                !changed ==> forall|b: int| 0 <= b < y ==> !#[trigger] mask_at(mask@, x as int, b),
            decreases len - y,
        {
            if mask[x][y] {
                assert(mask_at(mask@, x as int, y as int));
                assert(y < row@.len());
                let original = row[y];
                let target = brush_target(tool, brush_type, original);
                let v = blend(x, y, original, target);
                row.set(y, v);
                changed = true;
                proof {
                    witness = (x as int, y as int);
                }
            } else {
                assert(!mask_at(mask@, x as int, y as int));
            }
            y += 1;
        }
        let ghost row_done = row@;
        std::mem::swap(&mut row, &mut map[x]);
        proof {
            assert(map@[x as int]@ == row_done);
            assert forall|a: int, b: int|
                0 <= a < x + 1 && len <= b < old_map[a]@.len() implies #[trigger] pixel(map@, a, b)
                == pixel(old_map, a, b) by {
                if a < x {
                    assert(pixel(map@, a, b) == pixel(map_start, a, b));
                } else {
                    assert(pixel(map@, a, b) == row_done[b]);
                }
            }
            assert forall|a: int, b: int|
                0 <= a < x + 1 && 0 <= b < len && b < old_map[a]@.len() implies stroke_pixel(
                *blend,
                *tool,
                *brush_type,
                mask@,
                old_map,
                a,
                b,
                #[trigger] pixel(map@, a, b),
            ) by {
                if a < x {
                    assert(pixel(map@, a, b) == pixel(map_start, a, b));
                } else {
                    assert(pixel(map@, a, b) == row_done[b]);
                }
            }
        }
        x += 1;
    }
    proof {
        if changed {
            assert(mask_at(mask@, witness.0, witness.1));
        }
    }
    changed
}

/// In a smoothing stroke, every covered pixel of the square that held `v` now
/// holds what the blend gives for pulling `v` toward `v / 2`; in an exact stroke
/// with the tool's region index `k`, what the blend gives for pulling `v`
/// toward `k`. Uncovered pixels keep their value.
pub proof fn lemma_stroke_pulls_toward_target<B: Fn(usize, usize, u8, u16) -> u8>(
    blend: B,
    k: u16,
    brush_type: BrushType,
    mask: Seq<Vec<bool>>,
    old: Seq<Vec<u8>>,
    new: Seq<Vec<u8>>,
    changed: bool,
)
    requires
        stroke_applied(
            blend,
            EditingTool::SetRegionMap { region_index: k },
            brush_type,
            mask,
            old,
            new,
            changed,
        ),
    ensures
        forall|x: int, y: int|
            0 <= x < old.len() && 0 <= y < old.len() && y < old[x]@.len() && #[trigger] mask_at(
                mask,
                x,
                y,
            ) && brush_type == BrushType::Smooth ==> blend.ensures(
                (x as usize, y as usize, old[x]@[y], (old[x]@[y] / 2) as u16),
                new[x]@[y],
            ),
        forall|x: int, y: int|
            0 <= x < old.len() && 0 <= y < old.len() && y < old[x]@.len() && #[trigger] mask_at(
                mask,
                x,
                y,
            ) && brush_type == BrushType::SetExact ==> blend.ensures(
                (x as usize, y as usize, old[x]@[y], k),
                new[x]@[y],
            ),
        forall|x: int, y: int|
            0 <= x < old.len() && 0 <= y < old.len() && y < old[x]@.len() && !#[trigger] mask_at(
                mask,
                x,
                y,
            ) ==> new[x]@[y] == old[x]@[y],
        changed == exists|x: int, y: int|
            0 <= x < old.len() && 0 <= y < old.len() && #[trigger] mask_at(mask, x, y),
{
    let tool = EditingTool::SetRegionMap { region_index: k };
    assert forall|x: int, y: int|
        0 <= x < old.len() && 0 <= y < old.len() && y < old[x]@.len() && #[trigger] mask_at(
            mask,
            x,
            y,
        ) && brush_type == BrushType::Smooth implies blend.ensures(
        (x as usize, y as usize, old[x]@[y], (old[x]@[y] / 2) as u16),
        new[x]@[y],
    ) by {
        lemma_brush_targets(tool, old[x]@[y]);
        assert(stroke_pixel(blend, tool, brush_type, mask, old, x, y, pixel(new, x, y)));
    }
    assert forall|x: int, y: int|
        0 <= x < old.len() && 0 <= y < old.len() && y < old[x]@.len() && #[trigger] mask_at(
            mask,
            x,
            y,
        ) && brush_type == BrushType::SetExact implies blend.ensures(
        (x as usize, y as usize, old[x]@[y], k),
        new[x]@[y],
    ) by {
        lemma_brush_targets(tool, old[x]@[y]);
        assert(stroke_pixel(blend, tool, brush_type, mask, old, x, y, pixel(new, x, y)));
    }
    assert forall|x: int, y: int|
        0 <= x < old.len() && 0 <= y < old.len() && y < old[x]@.len() && !#[trigger] mask_at(
            mask,
            x,
            y,
        ) implies new[x]@[y] == old[x]@[y] by {
        assert(stroke_pixel(blend, tool, brush_type, mask, old, x, y, pixel(new, x, y)));
    }
}

/// A stroke that covers no pixel of the square leaves the map exactly as it
/// was and reports no change.
pub proof fn lemma_stroke_without_coverage_changes_nothing<B: Fn(usize, usize, u8, u16) -> u8>(
    blend: B,
    tool: EditingTool,
    brush_type: BrushType,
    mask: Seq<Vec<bool>>,
    old: Seq<Vec<u8>>,
    new: Seq<Vec<u8>>,
    changed: bool,
)
    requires
        stroke_applied(blend, tool, brush_type, mask, old, new, changed),
        forall|x: int, y: int|
            0 <= x < old.len() && 0 <= y < old.len() ==> !#[trigger] mask_at(mask, x, y),
    ensures
        !changed,
        new.len() == old.len(),
        forall|x: int| 0 <= x < old.len() ==> #[trigger] new[x]@ == old[x]@,
{
    assert forall|x: int| 0 <= x < old.len() implies #[trigger] new[x]@ == old[x]@ by {
        assert forall|y: int| 0 <= y < old[x]@.len() implies new[x]@[y] == old[x]@[y] by {
            assert(pixel(new, x, y) == pixel(old, x, y));
        }
        assert(new[x]@ =~= old[x]@);
    }
}

} // verus!
