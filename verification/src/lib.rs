//! Terrain streaming for a planet drawn as the six faces of a cube: the layout of the chunks, the
//! elevation tiles that each chunk needs, how a tile gets from the network to the disk and into the
//! cache, and how heights are read from it.
pub mod address;
pub mod cache;
pub mod chunk;
pub mod decimal;
pub mod load;
pub mod load_laws;
pub mod poll;
pub mod required;
pub mod sun;
pub mod tile_image;
