use vstd::prelude::*;

pub mod attr;
pub mod bind_group;
pub mod buffer;
pub mod bytes;
pub mod context;
pub mod data_table;
pub mod data_view;
pub mod font;
pub mod geometry;
pub mod handler;
pub mod ids;
pub mod init_state;
pub mod instance;
pub mod laws;
pub mod layout;
pub mod material;
pub mod mesh;
pub mod packing;
pub mod particle;
pub mod presets;
pub mod primitive;
pub mod render_pipeline;
pub mod resources;
pub mod sdf;
pub mod shader;
pub mod shape_factory;
pub mod text;
pub mod texture;
pub mod tracker;
pub mod transient;
pub mod uniform;

verus! {

} // verus!
