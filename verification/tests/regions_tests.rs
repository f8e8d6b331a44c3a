use bevy_regions::regions::{
    RegionsData, RegionsDataStatus, RegionsImageDataLoadStatus, TextureImageAction,
};

#[test]
fn new_regions_data_is_empty() {
    let data: RegionsData<u32> = RegionsData::new();
    assert_eq!(data.get_regions_data_status(), RegionsDataStatus::NotLoaded);
    assert_eq!(*data.get_regions_texture_image(), None);
    assert_eq!(*data.get_color_map_texture_image(), None);
    assert!(!data.regions_image_data_loaded());
}

#[test]
fn statuses_default_to_not_loaded() {
    assert_eq!(RegionsDataStatus::default(), RegionsDataStatus::NotLoaded);
    assert_eq!(RegionsImageDataLoadStatus::default(), RegionsImageDataLoadStatus::NotLoaded);
}

#[test]
fn plane_waits_for_texture_then_spawns_once() {
    let mut data: RegionsData<u32> = RegionsData::new();
    assert!(data.needs_color_map_texture());
    assert!(!data.initialize_regions_step(Some(7)));
    assert_eq!(*data.get_color_map_texture_image(), Some(7));
    assert!(!data.needs_color_map_texture());
    // a second request does not replace the stored color map
    assert!(!data.initialize_regions_step(Some(8)));
    assert_eq!(*data.get_color_map_texture_image(), Some(7));

    assert!(data.needs_texture_image());
    data.set_texture_image_if_missing(1);
    assert_eq!(*data.get_regions_texture_image(), Some(1));
    assert_eq!(data.texture_image_step(false), TextureImageAction::AwaitTexture);
    assert!(!data.regions_image_data_loaded());
    assert_eq!(data.texture_image_step(true), TextureImageAction::ConvertToRgba8Uint);
    assert!(data.regions_image_data_loaded());
    assert_eq!(data.texture_image_step(true), TextureImageAction::Nothing);

    assert!(data.initialize_regions_step(None));
    assert_eq!(data.get_regions_data_status(), RegionsDataStatus::Loaded);
    assert!(!data.initialize_regions_step(None));
    assert_eq!(data.get_regions_data_status(), RegionsDataStatus::Loaded);
}

#[test]
fn texture_step_without_handle_does_nothing() {
    let mut data: RegionsData<u32> = RegionsData::new();
    assert_eq!(data.texture_image_step(true), TextureImageAction::Nothing);
    assert!(!data.regions_image_data_loaded());
}

#[test]
fn texture_handle_is_set_only_once() {
    let mut data: RegionsData<u32> = RegionsData::new();
    data.set_texture_image_if_missing(3);
    data.set_texture_image_if_missing(4);
    assert_eq!(*data.get_regions_texture_image(), Some(3));
    assert!(!data.needs_texture_image());
}
