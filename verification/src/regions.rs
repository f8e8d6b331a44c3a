use vstd::prelude::*;

use crate::regionmap::RegionMapU8;

verus! {

/// The 8-bit region map that is being edited, as one sub-region of the whole.
pub type SubRegionMapU8 = RegionMapU8;

/// The region map that edits apply to and that is saved to disk, if one is loaded.
pub struct RegionsDataMapResource {
    pub regions_data_map: Option<SubRegionMapU8>,
}

impl RegionsDataMapResource {
    /// A resource with no region map loaded.
    pub fn new() -> (res: Self)
        ensures
            res.regions_data_map is None,
    {
        RegionsDataMapResource { regions_data_map: None }
    }
}

/// Sent when the region map data has changed and its texture must be rebuilt.
#[derive(Debug, Clone, Copy, PartialEq, Eq, Structural)]
pub enum RegionDataEvent {
    RegionMapNeedsReloadFromResourceData,
}


/// Whether the region texture image has been prepared.
#[derive(Debug, Clone, Copy, PartialEq, Eq, Structural)]
pub enum RegionsImageDataLoadStatus {
    NotLoaded,
    Loaded,
    NeedsReload,
}

impl Default for RegionsImageDataLoadStatus {
    fn default() -> (s: Self)
        ensures
            s == RegionsImageDataLoadStatus::NotLoaded,
    {
        RegionsImageDataLoadStatus::NotLoaded
    }
}

/// Whether the region plane has been set up.
#[derive(Debug, Clone, Copy, PartialEq, Eq, Structural)]
pub enum RegionsDataStatus {
    NotLoaded,
    Loaded,
}

impl Default for RegionsDataStatus {
    fn default() -> (s: Self)
        ensures
            s == RegionsDataStatus::NotLoaded,
    {
        RegionsDataStatus::NotLoaded
    }
}

/// What the texture preparation step asks the caller to do.
#[derive(Debug, Clone, Copy, PartialEq, Eq, Structural)]
pub enum TextureImageAction {
    /// Nothing to do.
    Nothing,
    /// The texture image is requested but not loaded yet: try again later.
    AwaitTexture,
    /// The texture image is loaded: reinterpret it as `Rgba8Uint`. It is now prepared.
    ConvertToRgba8Uint,
}

/// The per-entity state of a regions setup. `H` is the type of an asset handle.
pub struct RegionsData<H> {
    pub regions_data_status: RegionsDataStatus,
    texture_image_handle: Option<H>,
    color_map_texture_handle: Option<H>,
    regions_image_data_load_status: bool,
}

impl<H> Default for RegionsData<H> {
    fn default() -> (d: Self)
        ensures
            d.data_status() == RegionsDataStatus::NotLoaded,
            d.texture_image() is None,
            d.color_map_texture() is None,
            !d.image_data_loaded(),
    {
        RegionsData {
            regions_data_status: RegionsDataStatus::NotLoaded,
            texture_image_handle: None,
            color_map_texture_handle: None,
            regions_image_data_load_status: false,
        }
    }
}

impl<H> RegionsData<H> {
    /// Whether the plane has been set up.
    pub closed spec fn data_status(&self) -> RegionsDataStatus {
        self.regions_data_status
    }

    /// The handle of the region texture image, once it has been requested.
    pub closed spec fn texture_image(&self) -> Option<H> {
        self.texture_image_handle
    }

    /// The handle of the color map texture, once it has been requested.
    pub closed spec fn color_map_texture(&self) -> Option<H> {
        self.color_map_texture_handle
    }

    /// Whether the region texture image has been prepared.
    pub closed spec fn image_data_loaded(&self) -> bool {
        self.regions_image_data_load_status
    }

    /// A fresh setup: nothing loaded, nothing requested.
    pub fn new() -> (d: Self)
        ensures
            d.data_status() == RegionsDataStatus::NotLoaded,
            d.texture_image() is None,
            d.color_map_texture() is None,
            !d.image_data_loaded(),
    {
        Self::default()
    }

    /// Whether the plane has been set up.
    pub fn get_regions_data_status(&self) -> (s: RegionsDataStatus)
        ensures
            s == self.data_status(),
    {
        self.regions_data_status
    }

    /// The handle of the region texture image, if requested.
    pub fn get_regions_texture_image(&self) -> (h: &Option<H>)
        ensures
            *h == self.texture_image(),
    {
        &self.texture_image_handle
    }

    /// The handle of the color map texture, if requested.
    pub fn get_color_map_texture_image(&self) -> (h: &Option<H>)
        ensures
            *h == self.color_map_texture(),
    {
        &self.color_map_texture_handle
    }

    /// Whether the region texture image has been prepared.
    pub fn regions_image_data_loaded(&self) -> (b: bool)
        ensures
            b == self.image_data_loaded(),
    {
        self.regions_image_data_load_status
    }

    /// Whether setting up the plane still needs the color map texture requested.
    pub fn needs_color_map_texture(&self) -> (b: bool)
        ensures
            b == (self.data_status() == RegionsDataStatus::NotLoaded
                && self.color_map_texture() is None),
    {
        self.regions_data_status == RegionsDataStatus::NotLoaded
            && self.color_map_texture_handle.is_none()
    }

    /// One pass of plane setup. `requested_color_map` is the color map handle
    /// that the caller requested because `needs_color_map_texture` said so.
    ///
    /// A setup that is already loaded is left alone. Otherwise the color map
    /// handle is stored if none was, and once the texture image is prepared the
    /// setup becomes loaded and the caller is told to spawn the plane.
    pub fn initialize_regions_step(&mut self, requested_color_map: Option<H>) -> (spawn_plane:
        bool)
        ensures
            old(self).data_status() == RegionsDataStatus::Loaded ==> {
                &&& final(self).data_status() == RegionsDataStatus::Loaded
                &&& final(self).texture_image() == old(self).texture_image()
                &&& final(self).color_map_texture() == old(self).color_map_texture()
                &&& final(self).image_data_loaded() == old(self).image_data_loaded()
                &&& !spawn_plane
            },
            old(self).data_status() == RegionsDataStatus::NotLoaded ==> {
                &&& final(self).color_map_texture() == (if old(self).color_map_texture() is None {
                    requested_color_map
                } else {
                    old(self).color_map_texture()
                })
                &&& final(self).texture_image() == old(self).texture_image()
                &&& final(self).image_data_loaded() == old(self).image_data_loaded()
                &&& spawn_plane == old(self).image_data_loaded()
                &&& final(self).data_status() == (if spawn_plane {
                    RegionsDataStatus::Loaded
                } else {
                    RegionsDataStatus::NotLoaded
                })
            },
    {
        if self.regions_data_status != RegionsDataStatus::NotLoaded {
            return false;
        }
        if self.color_map_texture_handle.is_none() {
            self.color_map_texture_handle = requested_color_map;
        }
        if !self.regions_image_data_load_status {
            return false;
        }
        self.regions_data_status = RegionsDataStatus::Loaded;
        true
    }

    /// Whether the region texture image still has to be requested.
    pub fn needs_texture_image(&self) -> (b: bool)
        ensures
            b == (self.texture_image() is None),
    {
        self.texture_image_handle.is_none()
    }

    /// Stores the handle of the requested region texture image, unless one is
    /// stored already.
    pub fn set_texture_image_if_missing(&mut self, handle: H)
        ensures
            final(self).texture_image() == (if old(self).texture_image() is None {
                Some(handle)
            } else {
                old(self).texture_image()
            }),
            final(self).color_map_texture() == old(self).color_map_texture(),
            final(self).image_data_loaded() == old(self).image_data_loaded(),
            final(self).data_status() == old(self).data_status(),
    {
        if self.texture_image_handle.is_none() {
            self.texture_image_handle = Some(handle);
        }
    }

    /// One pass of texture preparation. `texture_loaded` tells whether the
    /// asset behind the stored texture handle has finished loading.
    ///
    /// Nothing happens once the image is prepared or while no handle is stored.
    /// Otherwise the caller waits for the texture, or, once it is loaded,
    /// converts it and the image counts as prepared.
    pub fn texture_image_step(&mut self, texture_loaded: bool) -> (action: TextureImageAction)
        ensures
            final(self).texture_image() == old(self).texture_image(),
            final(self).color_map_texture() == old(self).color_map_texture(),
            final(self).data_status() == old(self).data_status(),
            action == (if old(self).image_data_loaded() || old(self).texture_image() is None {
                TextureImageAction::Nothing
            } else if !texture_loaded {
                TextureImageAction::AwaitTexture
            } else {
                TextureImageAction::ConvertToRgba8Uint
            }),
            final(self).image_data_loaded() == (old(self).image_data_loaded() || action
                == TextureImageAction::ConvertToRgba8Uint),
    {
        if self.regions_image_data_load_status {
            return TextureImageAction::Nothing;
        }
        if self.texture_image_handle.is_none() {
            return TextureImageAction::Nothing;
        }
        if !texture_loaded {
            return TextureImageAction::AwaitTexture;
        }
        self.regions_image_data_load_status = true;
        TextureImageAction::ConvertToRgba8Uint
    }
}

} // verus!
