use bevy_regions::brush::{brush_coverage, brush_target, paint_region_map};
use bevy_regions::edit::{
    apply_region_edit, eye_drop, plan_region_command, BrushType, EditingTool, RegionBrushEvent,
    RegionCommandAction, RegionCommandEvent,
};
use bevy_regions::regions::{RegionDataEvent, RegionsDataMapResource};

fn grid() -> Vec<Vec<u8>> {
    vec![vec![10, 20, 30], vec![40, 50, 60], vec![70, 80, 90]]
}

#[test]
fn brush_type_labels() {
    assert_eq!(BrushType::SetExact.to_string(), "SetExact");
    assert_eq!(BrushType::Smooth.to_string(), "Smooth");
    assert_eq!(BrushType::EyeDropper.to_string(), "EyeDropper");
}

#[test]
fn brush_type_default_is_set_exact() {
    assert_eq!(BrushType::default(), BrushType::SetExact);
}

#[test]
fn brush_target_exact_uses_tool_index() {
    let tool = EditingTool::SetRegionMap { region_index: 300 };
    assert_eq!(brush_target(&tool, &BrushType::SetExact, 17), 300);
}

#[test]
fn brush_target_smooth_halves_the_pixel() {
    let tool = EditingTool::SetRegionMap { region_index: 300 };
    assert_eq!(brush_target(&tool, &BrushType::Smooth, 17), 8);
    assert_eq!(brush_target(&tool, &BrushType::Smooth, 255), 127);
    assert_eq!(brush_target(&tool, &BrushType::Smooth, 0), 0);
}

#[test]
fn coverage_records_every_answer() {
    let mask = brush_coverage(3, &|x: usize, y: usize| x == y);
    assert_eq!(
        mask,
        vec![vec![true, false, false], vec![false, true, false], vec![false, false, true]]
    );
}

#[test]
fn paint_writes_only_covered_pixels() {
    let mut map = grid();
    let tool = EditingTool::SetRegionMap { region_index: 5 };
    let covers = |x: usize, y: usize| x == 1 && y <= 1;
    let blend = |_x: usize, _y: usize, _v: u8, t: u16| t as u8;
    let mask = brush_coverage(map.len(), &covers);
    let changed = paint_region_map(&mut map, &tool, &BrushType::SetExact, &mask, &blend);
    assert!(changed);
    assert_eq!(map, vec![vec![10, 20, 30], vec![5, 5, 60], vec![70, 80, 90]]);
}

#[test]
fn paint_with_radius_brush_blends_by_distance() {
    let mut map = vec![vec![0u8; 5]; 5];
    let tool = EditingTool::SetRegionMap { region_index: 200 };
    let center = (2.0f32, 2.0f32);
    let radius = 1.5f32;
    let distance = move |x: usize, y: usize| {
        let dx = x as f32 - center.0;
        let dy = y as f32 - center.1;
        (dx * dx + dy * dy).sqrt()
    };
    let covers = |x: usize, y: usize| distance(x, y) < radius;
    let blend = |x: usize, y: usize, v: u8, t: u16| {
        let m = 1.0f32 - distance(x, y) / radius;
        (v as f32 + (t as f32 - v as f32) * m) as u8
    };
    let mask = brush_coverage(map.len(), &covers);
    let changed = paint_region_map(&mut map, &tool, &BrushType::SetExact, &mask, &blend);
    assert!(changed);
    assert_eq!(map[2][2], 200);
    assert_eq!(map[0][0], 0);
    assert_eq!(map[4][4], 0);
    assert!(map[2][1] > 0 && map[2][1] < 200);
}

#[test]
fn paint_smooth_pulls_toward_half() {
    let mut map = grid();
    let tool = EditingTool::SetRegionMap { region_index: 0 };
    let covers = |_x: usize, _y: usize| true;
    let blend = |_x: usize, _y: usize, _v: u8, t: u16| t as u8;
    let mask = brush_coverage(map.len(), &covers);
    let changed = paint_region_map(&mut map, &tool, &BrushType::Smooth, &mask, &blend);
    assert!(changed);
    assert_eq!(map, vec![vec![5, 10, 15], vec![20, 25, 30], vec![35, 40, 45]]);
}

#[test]
fn smooth_with_radius_halves_the_covered_center() {
    let mut resource = RegionsDataMapResource { regions_data_map: Some(vec![vec![8u8; 3]; 3]) };
    let tool = EditingTool::SetRegionMap { region_index: 0 };
    let center = (1.0f32, 1.0f32);
    let radius = 1.0f32;
    let hardness = 0.0f32;
    let distance = move |x: usize, y: usize| {
        let dx = x as f32 - center.0;
        let dy = y as f32 - center.1;
        (dx * dx + dy * dy).sqrt()
    };
    let covers = |x: usize, y: usize| distance(x, y) < radius;
    let blend = |x: usize, y: usize, v: u8, t: u16| {
        let p = f32::min(1.0, distance(x, y) / radius);
        let m = f32::max(0.0, (1.0 - p) * (1.0 + hardness) - p * hardness);
        (v as f32 + (t as f32 - v as f32) * m) as u8
    };
    let outcome =
        apply_region_edit(&mut resource, &tool, &BrushType::Smooth, &covers, &blend, (1, 1));
    assert_eq!(
        outcome.region_data_event,
        Some(RegionDataEvent::RegionMapNeedsReloadFromResourceData)
    );
    // only the center lies within the radius; at full strength it goes to 8 / 2
    assert_eq!(resource.regions_data_map, Some(vec![vec![8, 8, 8], vec![8, 4, 8], vec![8, 8, 8]]));
}

#[test]
fn paint_outside_the_brush_changes_nothing() {
    let mut map = grid();
    let tool = EditingTool::SetRegionMap { region_index: 1 };
    let covers = |_x: usize, _y: usize| false;
    let blend = |_x: usize, _y: usize, _v: u8, _t: u16| 99u8;
    let mask = brush_coverage(map.len(), &covers);
    let changed = paint_region_map(&mut map, &tool, &BrushType::SetExact, &mask, &blend);
    assert!(!changed);
    assert_eq!(map, grid());
}

#[test]
fn paint_leaves_columns_past_the_square() {
    let mut map = vec![vec![1, 2, 3], vec![4, 5, 6]];
    let tool = EditingTool::SetRegionMap { region_index: 9 };
    let covers = |_x: usize, _y: usize| true;
    let blend = |_x: usize, _y: usize, _v: u8, t: u16| t as u8;
    let mask = brush_coverage(map.len(), &covers);
    let changed = paint_region_map(&mut map, &tool, &BrushType::SetExact, &mask, &blend);
    assert!(changed);
    assert_eq!(map, vec![vec![9, 9, 3], vec![9, 9, 6]]);
}

#[test]
fn paint_smooth_skips_short_rows_outside_the_brush() {
    let mut map = vec![vec![8, 6, 4], vec![2]];
    let tool = EditingTool::SetRegionMap { region_index: 9 };
    let covers = |x: usize, _y: usize| x == 0;
    let blend = |_x: usize, _y: usize, _v: u8, t: u16| t as u8;
    let mask = brush_coverage(map.len(), &covers);
    let changed = paint_region_map(&mut map, &tool, &BrushType::Smooth, &mask, &blend);
    assert!(changed);
    // the square is 2 x 2: row 0's first two pixels are halved; column 2 lies outside
    assert_eq!(map, vec![vec![4, 3, 4], vec![2]]);
}

#[test]
fn region_edit_without_map_does_nothing() {
    let mut resource = RegionsDataMapResource::new();
    let tool = EditingTool::SetRegionMap { region_index: 1 };
    let covers = |_x: usize, _y: usize| true;
    let blend = |_x: usize, _y: usize, _v: u8, t: u16| t as u8;
    let outcome =
        apply_region_edit(&mut resource, &tool, &BrushType::SetExact, &covers, &blend, (0, 0));
    assert_eq!(outcome.brush_event, None);
    assert_eq!(outcome.region_data_event, None);
    assert!(resource.regions_data_map.is_none());
}

#[test]
fn region_edit_eye_dropper_reports_index() {
    let mut resource = RegionsDataMapResource { regions_data_map: Some(grid()) };
    let tool = EditingTool::SetRegionMap { region_index: 1 };
    let covers = |_x: usize, _y: usize| true;
    let blend = |_x: usize, _y: usize, _v: u8, t: u16| t as u8;
    let outcome =
        apply_region_edit(&mut resource, &tool, &BrushType::EyeDropper, &covers, &blend, (2, 0));
    assert_eq!(
        outcome.brush_event,
        Some(RegionBrushEvent::EyeDropRegionIndex { region_index: 70 })
    );
    assert_eq!(outcome.region_data_event, None);
    assert_eq!(resource.regions_data_map, Some(grid()));
}

#[test]
fn region_edit_eye_dropper_outside_reports_nothing() {
    let mut resource = RegionsDataMapResource { regions_data_map: Some(grid()) };
    let tool = EditingTool::SetRegionMap { region_index: 1 };
    let covers = |_x: usize, _y: usize| true;
    let blend = |_x: usize, _y: usize, _v: u8, t: u16| t as u8;
    let outcome =
        apply_region_edit(&mut resource, &tool, &BrushType::EyeDropper, &covers, &blend, (7, 0));
    assert_eq!(outcome.brush_event, None);
    assert_eq!(outcome.region_data_event, None);
}

#[test]
fn region_edit_paint_asks_for_reload() {
    let mut resource = RegionsDataMapResource { regions_data_map: Some(grid()) };
    let tool = EditingTool::SetRegionMap { region_index: 3 };
    let covers = |x: usize, y: usize| x == 0 && y == 0;
    let blend = |_x: usize, _y: usize, _v: u8, t: u16| t as u8;
    let outcome =
        apply_region_edit(&mut resource, &tool, &BrushType::SetExact, &covers, &blend, (0, 0));
    assert_eq!(outcome.brush_event, None);
    assert_eq!(
        outcome.region_data_event,
        Some(RegionDataEvent::RegionMapNeedsReloadFromResourceData)
    );
    assert_eq!(resource.regions_data_map.unwrap()[0][0], 3);
}

#[test]
fn region_edit_paint_missing_everything_asks_nothing() {
    let mut resource = RegionsDataMapResource { regions_data_map: Some(grid()) };
    let tool = EditingTool::SetRegionMap { region_index: 3 };
    let covers = |_x: usize, _y: usize| false;
    let blend = |_x: usize, _y: usize, _v: u8, t: u16| t as u8;
    let outcome =
        apply_region_edit(&mut resource, &tool, &BrushType::Smooth, &covers, &blend, (0, 0));
    assert_eq!(outcome.region_data_event, None);
    assert_eq!(resource.regions_data_map, Some(grid()));
}

#[test]
fn command_without_region_is_skipped() {
    let resource = RegionsDataMapResource { regions_data_map: Some(grid()) };
    assert_eq!(
        plan_region_command(&RegionCommandEvent::SaveAll, false, &resource),
        RegionCommandAction::Skip
    );
}

#[test]
fn command_save_with_map_saves() {
    let resource = RegionsDataMapResource { regions_data_map: Some(grid()) };
    assert_eq!(
        plan_region_command(&RegionCommandEvent::SaveAll, true, &resource),
        RegionCommandAction::SaveAndReport
    );
}

#[test]
fn command_save_without_map_only_reports() {
    let resource = RegionsDataMapResource::new();
    assert_eq!(
        plan_region_command(&RegionCommandEvent::SaveAll, true, &resource),
        RegionCommandAction::ReportOnly
    );
}
