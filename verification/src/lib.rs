//! Planning, packing and naming logic for model merging and quantization.

pub mod text;
pub mod mlx_pack;
pub mod onecomp;
pub mod quant_config;
pub mod metal;
pub mod kv_cache;
pub mod order;
pub mod slots;
pub mod merge_config;
pub mod naming;
pub mod frankenmoe;
pub mod gguf;
pub mod fusion;
pub mod distributed;
pub mod misc;
pub mod pipeline;
pub mod merge_guard;
pub mod arch_map;
