//! Verified decision logic of an inference runtime for Gemma 4 class models.
//!
//! The library decides *what* is done: how a request moves through its states,
//! how key/value caches and scratch regions are laid out, which slot and context
//! length every layer sees, which launches one transformer layer consists of and
//! in which order, which tokens are drafted, accepted and emitted.  It holds
//! device addresses as plain integers and never touches a device; a program
//! around it performs the work and hands back what the device returned.

pub mod arena;
pub mod assembly;
pub mod attention_workspace;
pub mod bench;
pub mod bring_up;
pub mod channelscale_gemm;
pub mod dataflow;
pub mod decode_loop;
pub mod dense;
pub mod dense_laws;
pub mod device_op;
pub mod e4b;
pub mod e4b_int4;
pub mod encode_laws;
pub mod engine;
pub mod engine_laws;
pub mod fault_laws;
pub mod gemma4_arch;
pub mod gemma4_bring_up;
pub mod gemma4_int4;
pub mod gemma4_layer_exec;
pub mod gemma4_metal;
pub mod gemma4_serve;
pub mod generate;
pub mod generation;
pub mod half_float;
pub mod image_embeds;
pub mod int4_reference;
pub mod kernel_laws;
pub mod kv_layout;
pub mod kv_metadata;
pub mod launch_laws;
pub mod layer_laws;
pub mod metal_laws;
pub mod plan_laws;
pub mod probe;
pub mod program;
pub mod program_laws;
pub mod prompt_plan;
pub mod regions;
pub mod sched_state;
pub mod scheduler;
pub mod scoring;
pub mod session;
pub mod session_laws;
pub mod size_laws;
pub mod spec_decode;
pub mod step_laws;
pub mod text;
pub mod token_tail;
