use rvllm_runtime::gemma4_arch::Gemma4LayerType;
use rvllm_runtime::gemma4_layer_exec::Gemma4LayerDims;
use rvllm_runtime::gemma4_metal::{
    gemma4_forward_metal_impl, gemma4_metal_end_to_end_available, validate_metal_buffers,
    Gemma4LayerMetalBuffers, MetalBuffer, MetalFault,
};

fn dims() -> Gemma4LayerDims {
    Gemma4LayerDims {
        num_tokens: 2,
        hidden: 16,
        num_heads: 2,
        num_kv_heads: 1,
        head_dim: 8,
        rotary_dim: 8,
        rope_table_rows: 64,
        intermediate: 32,
        block_size: 4,
        max_blocks_per_seq: 3,
        num_blocks_total: 5,
        attn_scale_bits: 1.0f32.to_bits(),
        rms_eps_bits: 1e-6f32.to_bits(),
        layer_type: Gemma4LayerType::GlobalAttention,
        sliding_window: 16,
        f16_kv: false,
        num_hidden_layers: 2,
        layer_idx: 0,
        ple_dim: 0,
        kv_shared: false,
    }
}

/// Buffers that are exactly as long as the layer needs.
fn exact() -> Gemma4LayerMetalBuffers {
    Gemma4LayerMetalBuffers {
        attn_norm_gamma: 32,
        post_attn_norm_gamma: 32,
        pre_ff_norm_gamma: 32,
        post_ff_norm_gamma: 32,
        q_norm_gamma: 16,
        k_norm_gamma: 16,
        qkv_fp8: 32 * 16,
        qkv_scale: 4,
        o_fp8: 16 * 16,
        o_scale: 4,
        gate_up_fp8: 2 * 32 * 16,
        gate_up_scale: 4,
        down_fp8: 16 * 32,
        down_scale: 4,
        layer_scalar: 2,
        qkv_f16: 2 * 32 * 16,
        o_f16: 2 * 16 * 16,
        gate_up_f16: 4 * 32 * 16,
        down_f16: 2 * 16 * 32,
        hidden_fp8: 32,
        hidden_scale: 8,
        q_out: 64,
        k_out: 32,
        v_out: 32,
        q_normed: 64,
        k_normed: 32,
        v_normed: 32,
        q_fp8: 32,
        k_cache: 5 * 4 * 8,
        v_cache: 5 * 4 * 8,
        q_scale_ptr: 4,
        kv_scale_ptr: 4,
        k_scale_cache: 5 * 4 * 4,
        v_scale_cache: 5 * 4 * 4,
        q_scale_cache: 2 * 2 * 4,
        attn_out: 64,
        attn_out_fp8: 32,
        attn_out_scale: 8,
        delta_f16: 64,
        gate_up_out: 2 * 2 * 32 * 2,
        gate_up_out_fp8: 64,
        gate_up_out_scale: 8,
        mlp_out_fp8: 32,
        mlp_out_scale: 8,
        residual: 64,
        positions: 8,
        slot_mapping: 8,
        cos: 4,
        sin: 4,
        block_tables: 12,
        context_lens: 4,
    }
}

#[test]
fn exact_buffers_are_accepted_and_longer_ones_too() {
    assert_eq!(validate_metal_buffers(&dims(), &exact()), Ok(()));
    let longer = Gemma4LayerMetalBuffers { qkv_fp8: 1 << 40, residual: 65, ..exact() };
    assert_eq!(validate_metal_buffers(&dims(), &longer), Ok(()));
}

#[test]
fn a_short_buffer_is_named() {
    let short = Gemma4LayerMetalBuffers { k_cache: 159, ..exact() };
    assert_eq!(
        validate_metal_buffers(&dims(), &short),
        Err(MetalFault::TooSmall(MetalBuffer::KCache))
    );
    let two = Gemma4LayerMetalBuffers { cos: 3, block_tables: 0, ..exact() };
    assert_eq!(validate_metal_buffers(&dims(), &two), Err(MetalFault::TooSmall(MetalBuffer::Cos)));
    let half = Gemma4LayerDims { f16_kv: true, ..dims() };
    assert_eq!(
        validate_metal_buffers(&half, &exact()),
        Err(MetalFault::TooSmall(MetalBuffer::KCache))
    );
}

#[test]
fn impossible_dimensions_are_refused() {
    let bad = [
        Gemma4LayerDims { num_tokens: 0, ..dims() },
        Gemma4LayerDims { rotary_dim: 10, ..dims() },
        Gemma4LayerDims { rotary_dim: 7, ..dims() },
        Gemma4LayerDims { attn_scale_bits: f32::NAN.to_bits(), ..dims() },
        Gemma4LayerDims { rms_eps_bits: f32::INFINITY.to_bits(), ..dims() },
        Gemma4LayerDims { rms_eps_bits: (-1.0f32).to_bits(), ..dims() },
    ];
    for d in bad {
        assert_eq!(validate_metal_buffers(&d, &exact()), Err(MetalFault::InvalidDimensions));
    }
    let zero = Gemma4LayerDims { rms_eps_bits: (-0.0f32).to_bits(), ..dims() };
    assert_eq!(validate_metal_buffers(&zero, &exact()), Ok(()));
    let wide = Gemma4LayerDims { num_heads: u32::MAX, ..dims() };
    assert_eq!(validate_metal_buffers(&wide, &exact()), Err(MetalFault::QWidth));
    let wide = Gemma4LayerDims { num_kv_heads: u32::MAX, ..dims() };
    assert_eq!(validate_metal_buffers(&wide, &exact()), Err(MetalFault::KvWidth));
    let wide = Gemma4LayerDims { num_kv_heads: 0x1000_0000, ..dims() };
    assert_eq!(validate_metal_buffers(&wide, &exact()), Err(MetalFault::QkvWidth));
    let many = Gemma4LayerDims { num_blocks_total: u32::MAX, block_size: u32::MAX, ..dims() };
    assert_eq!(validate_metal_buffers(&many, &exact()), Err(MetalFault::ShapeOverflow));
    let many = Gemma4LayerDims {
        num_blocks_total: u32::MAX,
        block_size: 0x1800_0000,
        f16_kv: true,
        ..dims()
    };
    assert_eq!(validate_metal_buffers(&many, &exact()), Err(MetalFault::ByteSpanOverflow));
}

#[test]
fn the_forward_pass_is_refused() {
    assert!(!gemma4_metal_end_to_end_available());
    assert_eq!(
        gemma4_forward_metal_impl(&dims(), &exact()),
        Err(MetalFault::EndToEndParityNotEstablished)
    );
    let short = Gemma4LayerMetalBuffers { residual: 1, ..exact() };
    assert_eq!(
        gemma4_forward_metal_impl(&dims(), &short),
        Err(MetalFault::TooSmall(MetalBuffer::Residual))
    );
}
