//! Verified bookkeeping at the core of the terrarium renderer.
pub mod app_loop;
pub mod bloom_schedule;
pub mod frame_plan;
pub mod gpu_resources;
pub mod input;
pub mod linear_block_allocator;
pub mod linear_transformed_cosines;
pub mod material_pool;
pub mod pipeline_cache;
pub mod shade_pass;
pub mod timer;
pub mod vertex_pool;
pub mod xr;
pub mod xr_session;
