//! Codec for a chunked container format holding 3D model data for a
//! fixed-function handheld graphics engine: typed subfiles, offset-addressed
//! structures, two bytecode command streams, and the fixed-point numeric
//! formats they are built on.

pub mod alignment;
pub mod bone_list;
pub mod bounding_box;
pub mod container;
pub mod error;
pub mod fixed_1_0_9;
pub mod fixed_1_11_4;
pub mod fixed_1_19_12;
pub mod fixed_1_3_12;
pub mod fixed_1_3_6;
pub mod fx_matrix;
pub mod gpu_command_list;
pub mod gpu_params;
pub mod inv_bind_matrices;
pub mod lebytes;
pub mod material_list;
pub mod mdl;
pub mod mesh_command_gen;
pub mod mesh_list;
pub mod mesh_render_cmd_vertex_pos_extractor;
pub mod model;
pub mod model_render_cmd_executor;
pub mod name;
pub mod name_list;
pub mod palette;
pub mod render_command_list;
pub mod subfiles;
pub mod tex;
pub mod texture;
pub mod traits;
