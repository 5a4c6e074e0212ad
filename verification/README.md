# sulis

Resource definitions and user-interface logic of the Sulis role-playing game,
written in Verus and proved against their contracts.

- `src/` is the verified library:
  - `util`: grid points and sizes;
  - `resource_map`: resources keyed by id, where the first resource of an id wins;
  - `resource::size`, `resource::tile`: sizes and tiles validated from their builders;
  - `spritesheet`, `raster`: laying sprites out on a spritesheet's image (the
    `image` crate converts and measures the image);
  - `ability_list`: ability lists resolved against the abilities and images;
  - `ui`: the widget tree, the default behaviour of widget kinds, the scrollbar;
  - `game`: the decisions of the game's main loop;
  - `text`: decimal text of integers.
- `app/` reads resource files (JSON and YAML through serde), scans resource
  directories, opens images, computes floating-point texture coordinates and
  runs the main loop over a host that provides the display and the views.
- `tests/` exercises the library on concrete values.
