# terrain

Streams elevation tiles onto a planet that is drawn as the six faces of a cube, each cut into a grid
of chunks.

`src/` is the library, verified with Verus:

- `chunk`: where the chunks of a face are, and at which samples of a chunk its tiles are looked up: one
  at each vertex of its mesh. Positions of chunks are whole numbers of a unit that is a power of two.
- `required`: which tiles a chunk needs, given the tiles on which its samples lie.
- `address`, `decimal`: the file of a tile and its address on the tile server.
- `load`, `load_laws`: how a tile is probed, downloaded, written, read, decoded and stored, as a
  machine that says what to do next and is told what came of it.
- `tile_image`: images of tiles, and from a pixel to a height in units of 1/256 metre.
- `cache`: the tiles in memory.
- `poll`, `sun`: what becomes of a finished chunk, and how the keys turn the sun.

`app/` is the viewer around it: the window, the floating-point geometry of the globe, disk, network,
the image decoder and threads. The library does not need the game engine, so it is not among its dependencies. The
viewer is built on `bevy` 0.19 (with its defaults and the features `bevy_dev_tools` and
`free_camera`), `big_space` 0.13 and a TLS back end of `reqwest`. Tiles are kept in the directory
`terrain_cache`, which must exist.
