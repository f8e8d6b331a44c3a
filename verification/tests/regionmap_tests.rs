use bevy_regions::regionmap::{
    RegionImage, RegionMap, RegionMapError, RegionMapU16, RegionTextureFormat, SubRegionMapU16,
};

fn sample_map() -> RegionMapU16 {
    vec![
        vec![1, 2, 3, 4],
        vec![5, 6, 7, 8],
        vec![9, 10, 11, 12],
        vec![13, 14, 15, 16],
    ]
}

#[test]
fn append_x_row_adds_a_row_at_the_end() {
    let mut sub = SubRegionMapU16(vec![vec![1, 2]]);
    sub.append_x_row(vec![3, 4]);
    assert_eq!(sub.0, vec![vec![1, 2], vec![3, 4]]);
}

#[test]
fn append_y_col_extends_every_row() {
    let mut sub = SubRegionMapU16(vec![vec![1, 2], vec![3, 4], vec![5, 6]]);
    sub.append_y_col(vec![7, 8, 9]);
    assert_eq!(sub.0, vec![vec![1, 2, 7], vec![3, 4, 8], vec![5, 6, 9]]);
}

#[test]
fn append_y_col_on_empty_sub_region() {
    let mut sub = SubRegionMapU16(vec![]);
    sub.append_y_col(vec![]);
    assert!(sub.0.is_empty());
}

#[test]
fn sub_region_takes_one_extra_row_and_column() {
    let map = sample_map();
    let sub = SubRegionMapU16::from_regionmap_u16(&map, [[1, 1], [2, 2]]);
    assert_eq!(sub.0, vec![vec![6, 7], vec![10, 11]]);
}

#[test]
fn sub_region_is_clamped_to_the_map() {
    let map = sample_map();
    let sub = SubRegionMapU16::from_regionmap_u16(&map, [[2, 3], [10, 10]]);
    assert_eq!(sub.0, vec![vec![12], vec![16]]);
}

#[test]
fn sub_region_with_whole_bounds_is_the_map() {
    let map = sample_map();
    let sub = SubRegionMapU16::from_regionmap_u16(&map, [[0, 0], [3, 3]]);
    assert_eq!(sub.0, map);
}

#[test]
fn sub_region_past_the_columns_has_empty_rows() {
    let map = sample_map();
    let sub = SubRegionMapU16::from_regionmap_u16(&map, [[0, 5], [1, 7]]);
    assert_eq!(sub.0, vec![Vec::<u16>::new(), Vec::new()]);
}

#[test]
fn sub_region_past_the_rows_is_empty() {
    let map = sample_map();
    let sub = SubRegionMapU16::from_regionmap_u16(&map, [[6, 0], [8, 1]]);
    assert!(sub.0.is_empty());
}

#[test]
fn load_from_image_reads_little_endian_rows() {
    let image = RegionImage {
        width: 2,
        height: 2,
        format: RegionTextureFormat::R16Uint,
        data: vec![0x01, 0x00, 0x34, 0x12, 0xff, 0xff, 0x00, 0x01],
    };
    let map = <RegionMapU16 as RegionMap>::load_from_image(&image).unwrap();
    assert_eq!(*map, vec![vec![1, 0x1234], vec![0xffff, 0x0100]]);
}

#[test]
fn load_from_image_ignores_trailing_bytes() {
    let image = RegionImage {
        width: 1,
        height: 1,
        format: RegionTextureFormat::R16Uint,
        data: vec![7, 0, 9, 9],
    };
    let map = <RegionMapU16 as RegionMap>::load_from_image(&image).unwrap();
    assert_eq!(*map, vec![vec![7]]);
}

#[test]
fn load_from_image_of_empty_image() {
    let image = RegionImage {
        width: 3,
        height: 0,
        format: RegionTextureFormat::R16Uint,
        data: vec![],
    };
    let map = <RegionMapU16 as RegionMap>::load_from_image(&image).unwrap();
    assert!(map.is_empty());
}

#[test]
fn load_from_image_refuses_other_formats() {
    let image = RegionImage {
        width: 1,
        height: 1,
        format: RegionTextureFormat::Rgba8Uint,
        data: vec![1, 2, 3, 4],
    };
    let result = <RegionMapU16 as RegionMap>::load_from_image(&image);
    assert_eq!(result.err(), Some(RegionMapError::LoadingError));
}

#[test]
fn loading_error_message() {
    assert_eq!(RegionMapError::LoadingError.message(), "failed to load the image");
}
