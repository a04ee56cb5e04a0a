//! The vocabulary of device work.
//!
//! A plan is a sequence of `DeviceOp`s, performed in order on one stream.  Every
//! pointer is a device address, every length is in elements unless its name says
//! bytes, and every floating-point parameter travels as its bit pattern.

use vstd::prelude::*;

verus! {

/// Which of the two attention backends a launch uses.
#[derive(Copy, Clone, Debug, PartialEq, Eq, Structural)]
pub enum AttentionSite {
    Sliding,
    Global,
}

/// Three launch dimensions.
#[derive(Copy, Clone, Debug, PartialEq, Eq, Structural)]
pub struct Dim3 {
    pub x: u32,
    pub y: u32,
    pub z: u32,
}

/// Shape of one paged decode launch.
#[derive(Copy, Clone, Debug, PartialEq, Eq, Structural)]
pub struct PagedDecodeParams {
    pub num_seqs: u32,
    pub num_heads: u32,
    pub num_kv_heads: u32,
    pub head_dim: u32,
    pub block_size: u32,
    pub max_blocks_per_seq: u32,
    pub num_blocks_total: u32,
    pub scale_bits: u32,
    pub window_size_left: i32,
}

/// Shape of one rotary-embedding launch.  With `num_kv_heads == 0` it rotates the
/// queries only and writes nothing to the key/value cache.
#[derive(Copy, Clone, Debug, PartialEq, Eq, Structural)]
pub struct RopeParams {
    pub num_tokens: u32,
    pub num_heads: u32,
    pub num_kv_heads: u32,
    pub head_dim: u32,
    pub rotary_dim: u32,
    pub rope_table_rows: u32,
    pub block_size: u32,
    pub num_blocks_total: u32,
}

#[allow(inconsistent_fields)]
#[derive(Copy, Clone, Debug, PartialEq, Eq, Structural)]
pub enum DeviceOp {
    /// Asynchronous device-to-device copy.
    CopyDtoD { dst: u64, src: u64, bytes: u64 },
    /// Asynchronous byte fill.
    MemsetD8 { dst: u64, value: u8, bytes: u64 },
    /// `out, scale = quantize(rmsnorm(src) * gamma)`, one scale per token.
    RmsnormFp8Quant {
        num_tokens: u32,
        hidden: u32,
        eps_bits: u32,
        out_fp8: u64,
        out_scale: u64,
        src: u64,
        gamma: u64,
    },
    /// `data = rmsnorm(data) * gamma`.
    RmsnormInplace { num_tokens: u32, hidden: u32, eps_bits: u32, data: u64, gamma: u64 },
    /// Fused norm of the query, key and value rows of one interleaved buffer.
    QkvRmsnorm {
        num_tokens: u32,
        num_heads: u32,
        num_kv_heads: u32,
        head_dim: u32,
        eps_bits: u32,
        src_row_stride: u32,
        q_src: u64,
        k_src: u64,
        v_src: u64,
        q_dst: u64,
        k_dst: u64,
        v_dst: u64,
        q_gamma: u64,
        k_gamma: u64,
    },
    /// f16 by f16 matrix product into f32.
    F16GemmF32 { a: u64, b: u64, out: u64, m: u32, n: u32, k: u32 },
    /// FP8 matrix product into f16, both operands scaled.
    Fp8Gemm { a: u64, b: u64, out: u64, m: u32, n: u32, k: u32, a_scale: u64, b_scale: u64 },
    /// FP8 matrix product into f32, both operands scaled.
    Fp8GemmF32 { a: u64, b: u64, out: u64, m: u32, n: u32, k: u32, a_scale: u64, b_scale: u64 },
    /// f16 activations against FP8 weights with a two-dimensional block scale.
    Fp8GemvF16In { m: u32, n: u32, k: u32, out: u64, weight: u64, blockscale: u64, act: u64 },
    /// INT4 weights against FP8 activations; applies the weight group scales only.
    W4a8Gemm {
        a: u64,
        weight: u64,
        scales: u64,
        c: u64,
        d: u64,
        m: i32,
        n: i32,
        k: i32,
        group_size: i32,
        alpha_bits: u32,
        beta_bits: u32,
        workspace: u64,
        workspace_bytes: usize,
    },
    /// Row-by-column scaled FP8 product of the SM90 library.
    CutlassChannelscale {
        out: u64,
        a: u64,
        b: u64,
        a_scale: u64,
        b_chscale: u64,
        m: u32,
        n: u32,
        k: u32,
        workspace: u64,
        workspace_bytes: usize,
    },
    /// Spreads the activation scales into the block layout of the SM120 library.
    PrepSfa { src: u64, dst: u64, m: u32, k: u32 },
    /// Spreads the weight block scales into the block layout of the SM120 library.
    PrepSfb { src: u64, dst: u64, n: u32, k: u32 },
    /// Block-scaled FP8 product of the SM120 library.
    CutlassBlockscaleSm120 {
        out: u64,
        a: u64,
        b: u64,
        sfa: u64,
        sfb: u64,
        m: u32,
        n: u32,
        k: u32,
        workspace: u64,
        workspace_bytes: usize,
    },
    /// One-row FP8 product, the reduction split over `split_k` blocks that add up in `out`.
    GemvSplitK {
        out: u64,
        weight: u64,
        wscale: u64,
        act: u64,
        act_scale: u64,
        n: u32,
        k: u32,
        split_k: u32,
        grid: Dim3,
        block: Dim3,
    },
    /// One-row FP8 product, the activations staged `tile_k` at a time.
    GemvKTiled {
        out: u64,
        weight: u64,
        wscale: u64,
        act: u64,
        act_scale: u64,
        n: u32,
        k: u32,
        tile_k: u32,
        grid: Dim3,
        block: Dim3,
        smem: u32,
    },
    /// `data[m, n] *= scale[n]` on f16.
    ScaleColsF16 { data: u64, scale: u64, m: u32, n: u32, grid: Dim3, block: Dim3 },
    /// `data[m, n] *= scale[n]` on f32.
    ScaleColsF32 { data: u64, scale: u64, m: u32, n: u32, grid: Dim3, block: Dim3 },
    /// `data[m, n] *= scale[m] / scale[0]` on f32.
    ScaleRowsF32Ratio { data: u64, scale: u64, m: u32, n: u32, grid: Dim3, block: Dim3 },
    /// `data[m, n] *= scale[m]` on f16.
    ScaleRowsF16Pertoken { num_rows: u32, n: u32, data: u64, scale: u64 },
    /// Saturating cast of `n` values.
    F32ToF16Sat { n: u32, dst: u64, src: u64 },
    /// Partial rotary embedding; queries stay f16, keys and values go to an f16 cache.
    RopeF16Kv {
        params: RopeParams,
        q_in: u64,
        k_in: u64,
        v_in: u64,
        q_out: u64,
        k_cache: u64,
        v_cache: u64,
        cos: u64,
        sin: u64,
        positions: u64,
        slot_mapping: u64,
    },
    /// Partial rotary embedding; queries, keys and values are quantized to FP8.
    RopeFp8Kv {
        params: RopeParams,
        q_in: u64,
        k_in: u64,
        v_in: u64,
        q_fp8: u64,
        k_cache: u64,
        v_cache: u64,
        k_scale_cache: u64,
        v_scale_cache: u64,
        q_scale_cache: u64,
        cos: u64,
        sin: u64,
        positions: u64,
        slot_mapping: u64,
        q_scale: u64,
    },
    /// Paged attention over an f16 cache, one query per sequence.
    PagedDecodeF16 {
        site: AttentionSite,
        params: PagedDecodeParams,
        out: u64,
        q: u64,
        k_cache: u64,
        v_cache: u64,
        block_tables: u64,
        context_lens: u64,
        workspace: u64,
        workspace_bytes: usize,
    },
    /// Paged attention over an FP8 cache, one query per sequence.
    PagedDecodeFp8 {
        site: AttentionSite,
        params: PagedDecodeParams,
        out: u64,
        q: u64,
        k_cache: u64,
        v_cache: u64,
        k_scale_cache: u64,
        v_scale_cache: u64,
        q_scale_cache: u64,
        block_tables: u64,
        context_lens: u64,
        workspace: u64,
        workspace_bytes: usize,
        q_scale: u64,
    },
    /// Paged attention over an FP8 cache, many queries per sequence.
    PagedPrefillFp8 {
        site: AttentionSite,
        num_tokens: u32,
        max_seqlen_q: u32,
        params: PagedDecodeParams,
        out: u64,
        q: u64,
        k_cache: u64,
        v_cache: u64,
        block_tables: u64,
        context_lens: u64,
        cu_seqlens_q: u64,
        workspace: u64,
        workspace_bytes: usize,
        k_scale_cache: u64,
        v_scale_cache: u64,
        q_scale_cache: u64,
        q_scale: u64,
        k_descale: u64,
        v_descale: u64,
    },
    /// Writes the context length of every query of a chunk, as 32-bit integers.
    StageQueryContexts { dst: u64, num_tokens: u32, chunk_start: u32, window: Option<u32> },
    /// `out, scale = quantize(src)`, one scale per token.
    QuantizeFp8PerToken { num_tokens: u32, dim: u32, out_fp8: u64, out_scale: u64, src: u64 },
    /// `residual += rmsnorm(src) * gamma`, `src` in f32.
    NormAddResidual {
        num_tokens: u32,
        hidden: u32,
        eps_bits: u32,
        src: u64,
        gamma: u64,
        residual: u64,
    },
    /// `residual += rmsnorm(src) * gamma`, `src` in f16.
    NormAddResidualF16In {
        num_tokens: u32,
        hidden: u32,
        eps_bits: u32,
        src: u64,
        gamma: u64,
        residual: u64,
    },
    /// `out, scale = quantize(gelu(gate) * up)`, one scale per token.
    GeluMulFp8Quant {
        num_tokens: u32,
        intermediate: u32,
        out_fp8: u64,
        out_scale: u64,
        gate_up: u64,
    },
    /// `out = gelu(gate) * up` in f16.
    GeluMulF16 { out: u64, gate_up: u64, intermediate: u32, grid: Dim3, block: Dim3 },
    /// `gate = gelu(gate) * per_layer_inputs[token, layer]` in f16.
    PleGeluMulF16 {
        gate: u64,
        per_layer_inputs: u64,
        layer_idx: u32,
        num_layers: u32,
        ple_dim: u32,
        grid: Dim3,
        block: Dim3,
    },
    /// Adds a layer's per-layer-embedding contribution to the residual stream.
    PleGate {
        num_tokens: u32,
        hidden: u32,
        h_ple: u32,
        pli_stride: u32,
        eps_bits: u32,
        residual: u64,
        gate_w: u64,
        proj_w: u64,
        per_layer_input: u64,
        post_norm_gamma: u64,
    },
    /// `residual *= scalar`, the scalar stored as f16.
    ResidualScaleF16 { num_tokens: u32, hidden: u32, residual: u64, scalar: u64 },
    /// `residual *= scalar`, the scalar stored as bf16.
    ResidualScaleBf16 { num_tokens: u32, hidden: u32, residual: u64, scalar: u64 },
    /// `logits = cap * tanh(logits / cap)`.
    LogitSoftcap { num_tokens: u32, vocab: u32, cap_bits: u32, logits: u64 },
    /// Expands packed 4-bit rows to f16.
    DequantPackToF16 {
        packed: u64,
        scale: u64,
        out: u64,
        n: i32,
        k: i32,
        group_size: i32,
        grid: Dim3,
        block: Dim3,
    },
    /// Encodes an f16 matrix as reordered INT4 with packed FP8 scale tables.
    EncodeW4a8 {
        src: u64,
        n: i32,
        k: i32,
        group_size: i32,
        dst_int4: u64,
        dst_scales: u64,
        scales_f32: u64,
    },
    /// Scores of the kept rows, rounded to bf16.
    LmheadInt4Gemv {
        residual: u64,
        packed: u64,
        scale: u64,
        scores: u64,
        m: i32,
        k_rows: i32,
        hidden: i32,
        group_size: i32,
        grid: Dim3,
        block: Dim3,
        smem: u32,
    },
    /// Leftmost best kept row of every score row, as a vocabulary id.
    LmheadArgmaxRemap {
        scores: u64,
        keep_ids: u64,
        out_token: u64,
        m: i32,
        k_rows: i32,
        grid: Dim3,
        block: Dim3,
    },
    /// Kept-row scores spread over the whole vocabulary, minus infinity elsewhere.
    LmheadScatterFullVocab {
        scores: u64,
        keep_ids: u64,
        out: u64,
        m: i32,
        k_rows: i32,
        full_vocab: i32,
        grid: Dim3,
        block: Dim3,
    },
    /// `dst[i] = table[ids[i]]`, one row of `hidden` f16 numbers per token.
    EmbeddingGather { num_tokens: u32, hidden: u32, vocab: u32, dst: u64, table: u64, ids: u64 },
    /// `out[i]` is the column of the largest logit of row `i`.
    Argmax { num_tokens: u32, vocab: u32, logits: u64, out: u64 },
    /// `dst = keep_ids[src]` for one token of a pruned vocabulary.
    MapTokenId { keep_len: u32, src: u64, dst: u64, keep_ids: u64 },
    /// `out = (rmsnorm(projection / sqrt(hidden)) + embeds) / sqrt(2)` for every token and layer.
    PleProjectCombine {
        out: u64,
        projection: u64,
        embeds: u64,
        norm_gamma: u64,
        num_layers: u32,
        ple_dim: u32,
        hidden: u32,
        eps_bits: u32,
        grid: Dim3,
        block: Dim3,
        shared_bytes: u32,
    },
    /// The same combination by the kernel that accompanies the per-layer gate.
    PleProjectionCombine {
        num_tokens: u32,
        num_layers: u32,
        h_ple: u32,
        hidden: u32,
        eps_bits: u32,
        projection: u64,
        gathered: u64,
        norm_gamma: u64,
        out: u64,
    },
    /// The host waits until everything before has finished.
    Fence,
}

} // verus!
