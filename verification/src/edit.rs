use vstd::prelude::*;

use crate::brush::{
    brush_coverage, brush_readable, coverage_of, paint_region_map, stroke_applied,
};
use crate::regionmap::RegionMapU8;
use crate::regions::{RegionDataEvent, RegionsDataMapResource};

verus! {

/// What a region edit writes into the map.
#[derive(Debug, Clone, Copy, PartialEq, Eq, Structural)]
pub enum EditingTool {
    /// Paint the given region index.
    SetRegionMap { region_index: u16 },
}

/// How a brush stroke treats the pixels under it.
#[derive(Debug, Clone, Copy, PartialEq, Eq, Structural)]
pub enum BrushType {
    /// Pull pixels toward the tool's region index.
    SetExact,
    /// Pull pixels toward half their own value (the mean of the pixel and a
    /// surrounding height taken as 0).
    Smooth,
    /// Read the region index under the cursor; change nothing.
    EyeDropper,
}

impl Default for BrushType {
    fn default() -> (b: Self)
        ensures
            b == BrushType::SetExact,
    {
        BrushType::SetExact
    }
}

impl BrushType {
    /// The name of the brush type, as shown to the user.
    pub open spec fn spec_label(self) -> Seq<char> {
        match self {
            BrushType::SetExact => "SetExact"@,
            BrushType::Smooth => "Smooth"@,
            BrushType::EyeDropper => "EyeDropper"@,
        }
    }

    /// The name of the brush type, as shown to the user.
    pub fn to_string(&self) -> (label: String)
        ensures
            label@ == self.spec_label(),
    {
        match self {
            BrushType::SetExact => "SetExact".to_owned(),
            BrushType::Smooth => "Smooth".to_owned(),
            BrushType::EyeDropper => "EyeDropper".to_owned(),
        }
    }
}

/// Sent by the eye dropper with the region index it picked up.
#[derive(Debug, Clone, Copy, PartialEq, Eq, Structural)]
pub enum RegionBrushEvent {
    EyeDropRegionIndex { region_index: u8 },
}

/// Commands on the region data as a whole.
#[derive(Debug, Clone, Copy, PartialEq, Eq, Structural)]
pub enum RegionCommandEvent {
    SaveAll,
}


/// The pixel `(x, y)` of `m`, read as `m[x][y]`.
pub open spec fn pixel(m: Seq<Vec<u8>>, x: int, y: int) -> u8 {
    m[x]@[y]
}

/// Every row of `m` reaches at least as far as `m` has rows, so the
/// square `0..m.len()` x `0..m.len()` can be read as `m[x][y]`.
pub open spec fn square_readable(m: Seq<Vec<u8>>) -> bool {
    forall|x: int| 0 <= x < m.len() ==> m.len() <= #[trigger] m[x]@.len()
}

/// The eye dropper's reading at `(x, y)`: the region index there, if the
/// point lies in the square `0..m.len()` x `0..m.len()`.
pub open spec fn spec_eye_drop(m: Seq<Vec<u8>>, x: int, y: int) -> Option<RegionBrushEvent> {
    if 0 <= x < m.len() && 0 <= y < m.len() {
        Some(RegionBrushEvent::EyeDropRegionIndex { region_index: pixel(m, x, y) })
    } else {
        None
    }
}

/// The eye dropper reads every point of the square `0..m.len()` x `0..m.len()`,
/// last row and column included: it reports `m[x][y]` there, and nothing
/// exactly when the point lies outside the square.
pub proof fn lemma_eye_drop_reads_the_square(m: Seq<Vec<u8>>, x: int, y: int)
    ensures
        0 <= x < m.len() && 0 <= y < m.len() ==> spec_eye_drop(m, x, y) == Some(
            RegionBrushEvent::EyeDropRegionIndex { region_index: m[x]@[y] },
        ),
        !(0 <= x < m.len() && 0 <= y < m.len()) ==> spec_eye_drop(m, x, y) is None,
{
}

/// Reads the region index under the eye dropper at `(x, y)`.
pub fn eye_drop(map: &RegionMapU8, x: usize, y: usize) -> (event: Option<RegionBrushEvent>)
    requires
        x < map.len() && y < map.len() ==> y < map@[x as int]@.len(),
    ensures
        event == spec_eye_drop(map@, x as int, y as int),
        x < map.len() && y < map.len() ==> event == Some(
            RegionBrushEvent::EyeDropRegionIndex { region_index: map@[x as int]@[y as int] },
        ),
        !(x < map.len() && y < map.len()) ==> event is None,
{
    proof {
        lemma_eye_drop_reads_the_square(map@, x as int, y as int);
    }
    let len = map.len();
    if x < len && y < len {
        Some(RegionBrushEvent::EyeDropRegionIndex { region_index: map[x][y] })
    } else {
        None
    }
}

/// What a region edit asks the caller to send on.
pub struct RegionEditOutcome {
    /// The eye dropper's reading, if there was one.
    pub brush_event: Option<RegionBrushEvent>,
    /// Set when the region map changed and its texture must be rebuilt.
    pub region_data_event: Option<RegionDataEvent>,
}

/// The map in `resource` can take the edit: for the eye dropper, the point it
/// reads is readable; for the painting brushes, every pixel the stroke reads is
/// (see `brush_readable`).
pub open spec fn region_edit_readable<C: Fn(usize, usize) -> bool>(
    resource: RegionsDataMapResource,
    brush_type: BrushType,
    covers: C,
    eye_drop_at: (usize, usize),
) -> bool {
    match resource.regions_data_map {
        None => true,
        Some(m) => match brush_type {
            BrushType::EyeDropper => (eye_drop_at.0 < m.len() && eye_drop_at.1 < m.len())
                ==> eye_drop_at.1 < m@[eye_drop_at.0 as int]@.len(),
            _ => brush_readable(covers, brush_type, m@),
        },
    }
}

/// Applies one region edit to the region map held in `resource`.
///
/// With no region map loaded nothing happens. The eye dropper reads the
/// region index at `eye_drop_at` and leaves the map alone. The painting brushes
/// ask `covers` once for every pixel of the square `0..len` x `0..len`, run one
/// stroke with those answers (see `paint_region_map`) and, when any pixel was
/// covered, ask for the region texture to be rebuilt.
pub fn apply_region_edit<C: Fn(usize, usize) -> bool, B: Fn(usize, usize, u8, u16) -> u8>(
    resource: &mut RegionsDataMapResource,
    tool: &EditingTool,
    brush_type: &BrushType,
    covers: &C,
    blend: &B,
    eye_drop_at: (usize, usize),
) -> (outcome: RegionEditOutcome)
    requires
        region_edit_readable(*old(resource), *brush_type, *covers, eye_drop_at),
        forall|x: usize, y: usize| covers.requires((x, y)),
        forall|x: usize, y: usize, v: u8, t: u16| blend.requires((x, y, v, t)),
    ensures
        match old(resource).regions_data_map {
            None => {
                &&& *final(resource) == *old(resource)
                &&& outcome.brush_event is None
                &&& outcome.region_data_event is None
            },
            Some(m) => match *brush_type {
                BrushType::EyeDropper => {
                    &&& *final(resource) == *old(resource)
                    &&& outcome.brush_event == spec_eye_drop(
                        m@,
                        eye_drop_at.0 as int,
                        eye_drop_at.1 as int,
                    )
                    &&& outcome.region_data_event is None
                },
                _ => {
                    &&& final(resource).regions_data_map is Some
                    &&& exists|mask: Seq<Vec<bool>>|
                        {
                            &&& #[trigger] coverage_of(*covers, m.len() as int, mask)
                            &&& stroke_applied(
                                *blend,
                                *tool,
                                *brush_type,
                                mask,
                                m@,
                                final(resource).regions_data_map.unwrap()@,
                                outcome.region_data_event is Some,
                            )
                        }
                    &&& outcome.brush_event is None
                    &&& (outcome.region_data_event is Some ==> outcome.region_data_event
                        == Some(RegionDataEvent::RegionMapNeedsReloadFromResourceData))
                },
            },
        },
{
    match &mut resource.regions_data_map {
        None => RegionEditOutcome { brush_event: None, region_data_event: None },
        Some(map) => match brush_type {
            BrushType::EyeDropper => {
                let event = eye_drop(map, eye_drop_at.0, eye_drop_at.1);
                RegionEditOutcome { brush_event: event, region_data_event: None }
            },
            _ => {
                let ghost old_map = map@;
                let len = map.len();
                let mask = brush_coverage(len, covers);
                proof {
                    if *brush_type != BrushType::SetExact {
                        assert forall|x: int, y: int|
                            0 <= x < len && 0 <= y < len && #[trigger] crate::brush::mask_at(
                                mask@,
                                x,
                                y,
                            ) implies y < old_map[x]@.len() by {
                            assert(covers.ensures((x as usize, y as usize), true));
                        }
                    }
                }
                let changed = paint_region_map(map, tool, brush_type, &mask, blend);
                let region_data_event = if changed {
                    Some(RegionDataEvent::RegionMapNeedsReloadFromResourceData)
                } else {
                    None
                };
                assert(coverage_of(*covers, len as int, mask@));
                RegionEditOutcome { brush_event: None, region_data_event }
            },
        },
    }
}

/// What to do with a command on the region data.
#[derive(Debug, Clone, Copy, PartialEq, Eq, Structural)]
pub enum RegionCommandAction {
    /// No region entity to act on: do nothing.
    Skip,
    /// Save the loaded region map to the region texture path, then report it.
    SaveAndReport,
    /// No region map is loaded: only report that saving was done.
    ReportOnly,
}

/// Decides what a command does, given whether exactly one region entity was
/// found and what the resource holds.
pub fn plan_region_command(
    event: &RegionCommandEvent,
    region_found: bool,
    resource: &RegionsDataMapResource,
) -> (action: RegionCommandAction)
    ensures
        !region_found ==> action == RegionCommandAction::Skip,
        region_found && *event == RegionCommandEvent::SaveAll ==> action == (
        if resource.regions_data_map is Some {
            RegionCommandAction::SaveAndReport
        } else {
            RegionCommandAction::ReportOnly
        }),
{
    if !region_found {
        return RegionCommandAction::Skip;
    }
    match event {
        RegionCommandEvent::SaveAll => {
            if resource.regions_data_map.is_some() {
                RegionCommandAction::SaveAndReport
            } else {
                RegionCommandAction::ReportOnly
            }
        },
    }
}

} // verus!

