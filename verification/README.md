# bevy_regions

A Verus library for the region maps of a terrain-style editor.

- `src/regionmap.rs`: decoding 16-bit region maps from raw R16 image bytes,
  cutting sub-regions out of them, growing a sub-region by rows and columns.
- `src/brush.rs`: brush strokes on 8-bit region maps: the coverage of a brush,
  the target a brush pulls a pixel toward (the tool's index, or for smoothing
  half the pixel's value), and the stroke.
- `src/edit.rs`: the edit events, the eye dropper, one region edit on the
  loaded map, and the decision of what a save command does.
- `src/region_png.rs`: laying a region map out row by row, deciding whether it
  can be saved, and encoding it as an 8-bit grayscale PNG with the `png` crate.
- `src/regions.rs`: the per-entity state that decides when the region textures
  are requested, prepared, and when the region plane is spawned.
- `app/`: the Bevy plugin around the library: ECS systems, asset loading, file
  output, and the floating-point brush geometry (distance and hardness falloff),
  which the library receives as closures.
