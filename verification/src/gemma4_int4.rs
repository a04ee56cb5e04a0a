//! INT4 decoder products and a pruned language-model-head greedy tail.
//!
//! A packed weight holds `[out_features, in_features / 8]` lanes of eight signed 4-bit
//! values, least significant first, and one f16 scale per row and group.  The decoder
//! products take it in the layout of the w4a8 kernel, into which it is encoded once.
//! The pruned head scores its kept rows only; its greedy winner is the leftmost best
//! row, remapped to the vocabulary.

use crate::device_op::{DeviceOp, Dim3};
use vstd::prelude::*;
use vstd::string::StrSliceExecFns;

verus! {

/// Kernel symbols of the pruned head.
pub const FN_LMHEAD_INT4_GEMV: &'static str = "lmhead_int4_gemv_bf16score_kernel";

pub const FN_LMHEAD_ARGMAX_REMAP: &'static str = "lmhead_argmax_remap_kernel";

pub const FN_LMHEAD_SCATTER_FULLVOCAB: &'static str = "lmhead_scatter_full_vocab_kernel";

pub const FN_DEQUANT_PACK_TO_F16: &'static str = "dequant_pack_to_f16_kernel";

pub const LMH_WARPS_PER_BLOCK: u32 = 8;

pub const LMH_ARGMAX_BLOCK: u32 = 1024;

// ---------------------------------------------------------------------------
// Packed weights
// ---------------------------------------------------------------------------

/// A pack-quantized weight.
#[derive(Copy, Clone, Debug, PartialEq, Eq, Structural)]
pub struct WPacked {
    /// Device address of the lanes.
    pub packed: u64,
    /// Device address of the group scales.
    pub scale: u64,
    pub out_features: usize,
    pub in_features: usize,
    pub packed_cols: usize,
    pub scale_groups: usize,
    pub group_size: usize,
    pub num_bits: u32,
    pub symmetric: bool,
}

/// What is wrong with a packed weight.
#[derive(Copy, Clone, Debug, PartialEq, Eq, Structural)]
pub enum PackFault {
    /// A dimension is zero.
    EmptyShape,
    OutFeaturesExceedI32,
    InFeaturesExceedI32,
    NullPacked,
    NullScale,
    /// Anything but four bits.
    NumBits,
    /// Asymmetric quantization.
    Asymmetric,
    /// The row length is not a multiple of eight.
    RaggedLanes,
    /// The lane count does not match the row length.
    PackedCols,
    /// The group size is zero or does not divide the row length.
    GroupSize,
    /// The scale count does not match the group size.
    ScaleGroups,
    GroupSizeExceedsI32,
    PackedColsExceedI32,
    ScaleGroupsExceedI32,
    /// The number of lanes overflows the machine word.
    PackedCountOverflow,
    /// The number of scales overflows the machine word.
    ScaleCountOverflow,
}

/// The value as a kernel takes it, where it fits.
pub fn checked_i32(value: usize) -> (r: Option<i32>)
    ensures
        value <= i32::MAX ==> r == Some(value as i32),
        value > i32::MAX ==> r is None,
{
    if value > i32::MAX as usize {
        None
    } else {
        Some(value as i32)
    }
}

impl WPacked {
    /// The layout that the kernels read: every size is positive, fits the kernel interface,
    /// and follows from the shape and the group size.
    pub open spec fn well_laid_out(self) -> bool {
        &&& 0 < self.out_features <= i32::MAX
        &&& 0 < self.in_features <= i32::MAX
        &&& self.packed != 0
        &&& self.scale != 0
        &&& self.num_bits == 4
        &&& self.symmetric
        &&& self.in_features == 8 * self.packed_cols
        &&& self.group_size > 0
        &&& self.in_features == self.group_size * self.scale_groups
        &&& self.out_features * self.packed_cols <= usize::MAX
        &&& self.out_features * self.scale_groups <= usize::MAX
    }

    /// The first fault, in the order in which the layout is examined.
    pub open spec fn fault(self) -> Option<PackFault> {
        if self.out_features == 0 || self.in_features == 0 {
            Some(PackFault::EmptyShape)
        } else if self.out_features > i32::MAX {
            Some(PackFault::OutFeaturesExceedI32)
        } else if self.in_features > i32::MAX {
            Some(PackFault::InFeaturesExceedI32)
        } else if self.packed == 0 {
            Some(PackFault::NullPacked)
        } else if self.scale == 0 {
            Some(PackFault::NullScale)
        } else if self.num_bits != 4 {
            Some(PackFault::NumBits)
        } else if !self.symmetric {
            Some(PackFault::Asymmetric)
        } else if self.in_features % 8 != 0 {
            Some(PackFault::RaggedLanes)
        } else if self.packed_cols != self.in_features / 8 {
            Some(PackFault::PackedCols)
        } else if self.group_size == 0 || self.in_features % self.group_size != 0 {
            Some(PackFault::GroupSize)
        } else if self.scale_groups != self.in_features / self.group_size {
            Some(PackFault::ScaleGroups)
        } else if self.group_size > i32::MAX {
            Some(PackFault::GroupSizeExceedsI32)
        } else if self.packed_cols > i32::MAX {
            Some(PackFault::PackedColsExceedI32)
        } else if self.scale_groups > i32::MAX {
            Some(PackFault::ScaleGroupsExceedI32)
        } else if self.out_features * self.packed_cols > usize::MAX {
            Some(PackFault::PackedCountOverflow)
        } else if self.out_features * self.scale_groups > usize::MAX {
            Some(PackFault::ScaleCountOverflow)
        } else {
            None
        }
    }

    /// Rows, as a kernel takes them.
    pub fn out_features_i32(&self) -> (r: Result<i32, PackFault>)
        ensures
            r == (if self.out_features <= i32::MAX {
                Ok(self.out_features as i32)
            } else {
                Err(PackFault::OutFeaturesExceedI32)
            }),
    {
        match checked_i32(self.out_features) {
            Some(v) => Ok(v),
            None => Err(PackFault::OutFeaturesExceedI32),
        }
    }

    /// Columns, as a kernel takes them.
    pub fn in_features_i32(&self) -> (r: Result<i32, PackFault>)
        ensures
            r == (if self.in_features <= i32::MAX {
                Ok(self.in_features as i32)
            } else {
                Err(PackFault::InFeaturesExceedI32)
            }),
    {
        match checked_i32(self.in_features) {
            Some(v) => Ok(v),
            None => Err(PackFault::InFeaturesExceedI32),
        }
    }

    /// Columns of a group, as a kernel takes them.
    pub fn group_size_i32(&self) -> (r: Result<i32, PackFault>)
        ensures
            r == (if self.group_size <= i32::MAX {
                Ok(self.group_size as i32)
            } else {
                Err(PackFault::GroupSizeExceedsI32)
            }),
    {
        match checked_i32(self.group_size) {
            Some(v) => Ok(v),
            None => Err(PackFault::GroupSizeExceedsI32),
        }
    }

    /// Groups of a row, as a kernel takes them.
    pub fn num_groups_i32(&self) -> (r: Result<i32, PackFault>)
        ensures
            r == (if self.scale_groups <= i32::MAX {
                Ok(self.scale_groups as i32)
            } else {
                Err(PackFault::ScaleGroupsExceedI32)
            }),
    {
        match checked_i32(self.scale_groups) {
            Some(v) => Ok(v),
            None => Err(PackFault::ScaleGroupsExceedI32),
        }
    }

    /// Words of a row, as a kernel takes them.
    pub fn packed_cols_i32(&self) -> (r: Result<i32, PackFault>)
        ensures
            r == (if self.packed_cols <= i32::MAX {
                Ok(self.packed_cols as i32)
            } else {
                Err(PackFault::PackedColsExceedI32)
            }),
    {
        match checked_i32(self.packed_cols) {
            Some(v) => Ok(v),
            None => Err(PackFault::PackedColsExceedI32),
        }
    }

    /// Rejects every layout that the kernels would misread.
    pub fn validate(&self) -> (r: Result<(), PackFault>)
        ensures
            r == (match self.fault() {
                Some(fault) => Err::<(), PackFault>(fault),
                None => Ok::<(), PackFault>(()),
            }),
            r is Ok <==> self.well_laid_out(),
    {
        proof {
            law_pack_fault_characterizes_layout(*self);
        }
        if self.out_features == 0 || self.in_features == 0 {
            return Err(PackFault::EmptyShape);
        }
        if let Err(fault) = self.out_features_i32() {
            return Err(fault);
        }
        if let Err(fault) = self.in_features_i32() {
            return Err(fault);
        }
        if self.packed == 0 {
            return Err(PackFault::NullPacked);
        }
        if self.scale == 0 {
            return Err(PackFault::NullScale);
        }
        if self.num_bits != 4 {
            return Err(PackFault::NumBits);
        }
        if !self.symmetric {
            return Err(PackFault::Asymmetric);
        }
        if self.in_features % 8 != 0 {
            return Err(PackFault::RaggedLanes);
        }
        if self.packed_cols != self.in_features / 8 {
            return Err(PackFault::PackedCols);
        }
        if self.group_size == 0 || self.in_features % self.group_size != 0 {
            return Err(PackFault::GroupSize);
        }
        if self.scale_groups != self.in_features / self.group_size {
            return Err(PackFault::ScaleGroups);
        }
        if let Err(fault) = self.group_size_i32() {
            return Err(fault);
        }
        if let Err(fault) = self.packed_cols_i32() {
            return Err(fault);
        }
        if let Err(fault) = self.num_groups_i32() {
            return Err(fault);
        }
        if self.out_features.checked_mul(self.packed_cols).is_none() {
            return Err(PackFault::PackedCountOverflow);
        }
        if self.out_features.checked_mul(self.scale_groups).is_none() {
            return Err(PackFault::ScaleCountOverflow);
        }
        Ok(())
    }
}

/// A packed weight is free of faults exactly if it has the layout that the kernels read.
pub proof fn law_pack_fault_characterizes_layout(w: WPacked)
    ensures
        w.fault() is None <==> w.well_laid_out(),
{
    let k = w.in_features as int;
    let g = w.group_size as int;
    let s = w.scale_groups as int;
    if g > 0 && k > 0 {
        if k % g == 0 && s == k / g {
            assert(k == g * s && g <= k && s <= k) by (nonlinear_arith)
                requires
                    g > 0,
                    k > 0,
                    k % g == 0,
                    s == k / g,
            ;
        }
        if k == g * s {
            assert(k % g == 0 && k / g == s && g <= k && s <= k) by (nonlinear_arith)
                requires
                    g > 0,
                    k > 0,
                    s >= 0,
                    k == g * s,
            ;
        }
    }
}

// ---------------------------------------------------------------------------
// Settings, each with a twin that makes a silent fallback an error
// ---------------------------------------------------------------------------

/// A setting is on exactly if its value is the text `1`.
pub open spec fn is_one(value: Option<&str>) -> bool {
    value matches Some(text) && text@ == seq!['1']
}

/// Whether a setting's value is the text `1`.
pub fn flag(value: Option<&str>) -> (on: bool)
    ensures
        on == is_one(value),
{
    match value {
        Some(text) => {
            let on = text.unicode_len() == 1 && text.get_char(0) == '1';
            assert(text@.len() == 1 && text@[0] == '1' ==> text@ =~= seq!['1']);
            on
        },
        None => false,
    }
}

/// `RVLLM_INT4`: the decoder products should take the INT4 path.
pub fn int4_requested(value: Option<&str>) -> (on: bool)
    ensures
        on == is_one(value),
{
    flag(value)
}

/// `RVLLM_INT4_REQUIRE`: not taking the INT4 path is an error.
pub fn int4_required(value: Option<&str>) -> (on: bool)
    ensures
        on == is_one(value),
{
    flag(value)
}

/// `RVLLM_LMHEAD_PRUNE`: the head should be the pruned one.
pub fn lmhead_prune_requested(value: Option<&str>) -> (on: bool)
    ensures
        on == is_one(value),
{
    flag(value)
}

/// `RVLLM_LMHEAD_PRUNE_REQUIRE`: not using the pruned head is an error.
pub fn lmhead_prune_required(value: Option<&str>) -> (on: bool)
    ensures
        on == is_one(value),
{
    flag(value)
}

/// `RVLLM_LMHEAD_FULLVOCAB`: spread the kept-row scores over the whole vocabulary.
pub fn lmhead_fullvocab(value: Option<&str>) -> (on: bool)
    ensures
        on == is_one(value),
{
    flag(value)
}

/// A required path did not engage.
#[derive(Clone, Debug)]
pub struct RequiredPathMissing {
    pub what: String,
}

/// Fails exactly if a path is required and did not engage, and names the path.
pub fn enforce_required(flag_engaged: bool, required: bool, what: &str) -> (r: Result<
    (),
    RequiredPathMissing,
>)
    ensures
        r is Err <==> required && !flag_engaged,
        r is Err ==> r->Err_0.what@ == what@,
{
    if required && !flag_engaged {
        return Err(RequiredPathMissing { what: what.to_owned() });
    }
    Ok(())
}

// ---------------------------------------------------------------------------
// Decoder products
// ---------------------------------------------------------------------------

/// One decoder weight in the layout of the w4a8 kernel.
#[derive(Copy, Clone, Debug, PartialEq, Eq, Structural)]
pub struct Int4LinearW4a8 {
    /// Reordered 4-bit weight.
    pub b_int4_reordered: u64,
    /// `[n, k / group]` packed FP8 scale tables.
    pub b_scales_packed: u64,
    pub n: i32,
    pub k: i32,
    pub group_size: i32,
}

/// The four encoded products of one decoder layer, shaped as the fused FP8 weights are.
#[derive(Copy, Clone, Debug, PartialEq, Eq, Structural)]
pub struct Int4DecoderLayer {
    /// `n` is the query rows plus twice the key/value rows, or the query rows alone where the
    /// layer owns no keys and values.
    pub qkv: Int4LinearW4a8,
    pub o: Int4LinearW4a8,
    /// `n` is twice the intermediate size.
    pub gate_up: Int4LinearW4a8,
    pub down: Int4LinearW4a8,
}

/// What the INT4 path of a whole model needs.
#[derive(Clone, Debug)]
pub struct Gemma4Int4Runtime {
    pub layers: Vec<Int4DecoderLayer>,
    pub lm_head: LmHeadPruned,
    pub workspace: u64,
    pub workspace_bytes: usize,
}

/// The INT4 path of one layer: its weights, the shared workspace, and how much of it the
/// library asked for in each of the four products.
#[derive(Copy, Clone, Debug, PartialEq, Eq, Structural)]
pub struct Int4LayerExec {
    pub layer: Int4DecoderLayer,
    pub workspace: u64,
    pub workspace_bytes: usize,
    pub qkv_needed: usize,
    pub o_needed: usize,
    pub gate_up_needed: usize,
    pub down_needed: usize,
}

/// Why an INT4 product cannot be launched.
#[derive(Copy, Clone, Debug, PartialEq, Eq, Structural)]
pub enum W4a8Fault {
    NullWeight,
    NullScales,
    NullActivations,
    NullOutput,
    /// A dimension is not positive.
    Shape,
    /// The group size does not divide the reduction.
    GroupSize,
    /// A scale factor is not finite.
    ScaleNotFinite,
    /// A residual is added from a null address.
    NullResidual,
    /// The workspace is smaller than the library asks for.
    WorkspaceTooSmall { needed: usize },
    NullWorkspace,
}

/// The bit pattern is that of a finite number.
pub open spec fn f32_finite(bits: u32) -> bool {
    (bits as int / 0x80_0000) % 0x100 != 0xff
}

/// The bit pattern is that of a zero of either sign.
pub open spec fn f32_zero(bits: u32) -> bool {
    bits == 0 || bits == 0x8000_0000
}

/// The pattern is neither an infinity nor no number.
pub fn f32_bits_finite(bits: u32) -> (yes: bool)
    ensures
        yes == f32_finite(bits),
{
    (bits / 0x80_0000) % 0x100 != 0xff
}

pub open spec fn w4a8_fault(
    lin: Int4LinearW4a8,
    a: u64,
    c: u64,
    d: u64,
    m: i32,
    alpha_bits: u32,
    beta_bits: u32,
    workspace: u64,
    workspace_bytes: usize,
    needed: usize,
) -> Option<W4a8Fault> {
    if lin.b_int4_reordered == 0 {
        Some(W4a8Fault::NullWeight)
    } else if lin.b_scales_packed == 0 {
        Some(W4a8Fault::NullScales)
    } else if a == 0 {
        Some(W4a8Fault::NullActivations)
    } else if d == 0 {
        Some(W4a8Fault::NullOutput)
    } else if m <= 0 || lin.n <= 0 || lin.k <= 0 || lin.group_size <= 0 {
        Some(W4a8Fault::Shape)
    } else if lin.k as int % lin.group_size as int != 0 {
        Some(W4a8Fault::GroupSize)
    } else if !f32_finite(alpha_bits) || !f32_finite(beta_bits) {
        Some(W4a8Fault::ScaleNotFinite)
    } else if !f32_zero(beta_bits) && c == 0 {
        Some(W4a8Fault::NullResidual)
    } else if workspace_bytes < needed {
        Some(W4a8Fault::WorkspaceTooSmall { needed })
    } else if needed != 0 && workspace == 0 {
        Some(W4a8Fault::NullWorkspace)
    } else {
        None
    }
}

/// One decoder product `d = alpha * a x w^T + beta * c`.  `needed` is the workspace that the
/// library asks for at this shape.
pub fn route_decoder_gemm_w4a8(
    lin: &Int4LinearW4a8,
    a: u64,
    c: u64,
    d: u64,
    m: i32,
    alpha_bits: u32,
    beta_bits: u32,
    workspace: u64,
    workspace_bytes: usize,
    needed: usize,
) -> (r: Result<DeviceOp, W4a8Fault>)
    ensures
        match w4a8_fault(
            *lin,
            a,
            c,
            d,
            m,
            alpha_bits,
            beta_bits,
            workspace,
            workspace_bytes,
            needed,
        ) {
            Some(fault) => r == Err::<DeviceOp, W4a8Fault>(fault),
            None => r == Ok::<DeviceOp, W4a8Fault>(
                DeviceOp::W4a8Gemm {
                    a,
                    weight: lin.b_int4_reordered,
                    scales: lin.b_scales_packed,
                    c,
                    d,
                    m,
                    n: lin.n,
                    k: lin.k,
                    group_size: lin.group_size,
                    alpha_bits,
                    beta_bits,
                    workspace,
                    workspace_bytes,
                },
            ),
        },
{
    if lin.b_int4_reordered == 0 {
        return Err(W4a8Fault::NullWeight);
    }
    if lin.b_scales_packed == 0 {
        return Err(W4a8Fault::NullScales);
    }
    if a == 0 {
        return Err(W4a8Fault::NullActivations);
    }
    if d == 0 {
        return Err(W4a8Fault::NullOutput);
    }
    if m <= 0 || lin.n <= 0 || lin.k <= 0 || lin.group_size <= 0 {
        return Err(W4a8Fault::Shape);
    }
    if lin.k % lin.group_size != 0 {
        return Err(W4a8Fault::GroupSize);
    }
    if !f32_bits_finite(alpha_bits) || !f32_bits_finite(beta_bits) {
        return Err(W4a8Fault::ScaleNotFinite);
    }
    if beta_bits != 0 && beta_bits != 0x8000_0000 && c == 0 {
        return Err(W4a8Fault::NullResidual);
    }
    if workspace_bytes < needed {
        return Err(W4a8Fault::WorkspaceTooSmall { needed });
    }
    if needed != 0 && workspace == 0 {
        return Err(W4a8Fault::NullWorkspace);
    }
    Ok(
        DeviceOp::W4a8Gemm {
            a,
            weight: lin.b_int4_reordered,
            scales: lin.b_scales_packed,
            c,
            d,
            m,
            n: lin.n,
            k: lin.k,
            group_size: lin.group_size,
            alpha_bits,
            beta_bits,
            workspace,
            workspace_bytes,
        },
    )
}

/// Why a packed weight cannot be expanded or encoded.
#[derive(Copy, Clone, Debug, PartialEq, Eq, Structural)]
pub enum EncodeFault {
    Pack(PackFault),
    NullF16Scratch,
    NullInt4,
    NullScalesPacked,
    NullScalesF32,
    NullPacked,
    NullScale,
    NullOutput,
    /// A dimension is not positive.
    Shape,
    /// The row length is not a multiple of eight.
    RaggedLanes,
    /// The group size does not divide the row length.
    GroupSize,
}

pub open spec fn dequant_fault(
    packed: u64,
    scale: u64,
    out: u64,
    n: i32,
    k: i32,
    group_size: i32,
) -> Option<EncodeFault> {
    if packed == 0 {
        Some(EncodeFault::NullPacked)
    } else if scale == 0 {
        Some(EncodeFault::NullScale)
    } else if out == 0 {
        Some(EncodeFault::NullOutput)
    } else if n <= 0 || k <= 0 || group_size <= 0 {
        Some(EncodeFault::Shape)
    } else if k as int % 8 != 0 {
        Some(EncodeFault::RaggedLanes)
    } else if k as int % group_size as int != 0 {
        Some(EncodeFault::GroupSize)
    } else {
        None
    }
}

/// The expansion of `n` rows of `k` packed values: one block per row, one thread per column
/// up to the largest block.
pub open spec fn dequant_op(
    packed: u64,
    scale: u64,
    out: u64,
    n: i32,
    k: i32,
    group_size: i32,
) -> DeviceOp {
    DeviceOp::DequantPackToF16 {
        packed,
        scale,
        out,
        n,
        k,
        group_size,
        grid: Dim3 { x: n as u32, y: 1, z: 1 },
        block: Dim3 {
            x: if k < 1024 {
                k as u32
            } else {
                1024
            },
            y: 1,
            z: 1,
        },
    }
}

/// Expands a packed matrix of `n` rows and `k` columns.
pub fn dequant_pack_to_f16(packed: u64, scale: u64, out: u64, n: i32, k: i32, group_size: i32) -> (r:
    Result<DeviceOp, EncodeFault>)
    ensures
        r == (match dequant_fault(packed, scale, out, n, k, group_size) {
            Some(fault) => Err::<DeviceOp, EncodeFault>(fault),
            None => Ok::<DeviceOp, EncodeFault>(
                dequant_op(packed, scale, out, n, k, group_size),
            ),
        }),
{
    if packed == 0 {
        return Err(EncodeFault::NullPacked);
    }
    if scale == 0 {
        return Err(EncodeFault::NullScale);
    }
    if out == 0 {
        return Err(EncodeFault::NullOutput);
    }
    if n <= 0 || k <= 0 || group_size <= 0 {
        return Err(EncodeFault::Shape);
    }
    if k % 8 != 0 {
        return Err(EncodeFault::RaggedLanes);
    }
    if k % group_size != 0 {
        return Err(EncodeFault::GroupSize);
    }
    Ok(
        DeviceOp::DequantPackToF16 {
            packed,
            scale,
            out,
            n,
            k,
            group_size,
            grid: Dim3 { x: n as u32, y: 1, z: 1 },
            block: Dim3 {
                x: if k < 1024 {
                    k as u32
                } else {
                    1024
                },
                y: 1,
                z: 1,
            },
        },
    )
}

/// The two launches that encode a packed weight, and the handle that they fill.
#[derive(Copy, Clone, Debug, PartialEq, Eq, Structural)]
pub struct EncodePlan {
    pub dequant: DeviceOp,
    pub encode: DeviceOp,
    pub linear: Int4LinearW4a8,
}

/// Where the encoder works: the f16 copy, the two destinations and the f32 scales.
#[derive(Copy, Clone, Debug, PartialEq, Eq, Structural)]
pub struct EncodeBuffers {
    pub f16_scratch: u64,
    pub dst_int4: u64,
    pub dst_scales_packed: u64,
    pub scales_f32_ws: u64,
}

pub open spec fn encode_fault(wp: WPacked, buf: EncodeBuffers) -> Option<EncodeFault> {
    if wp.fault() is Some {
        Some(EncodeFault::Pack(wp.fault()->0))
    } else if buf.f16_scratch == 0 {
        Some(EncodeFault::NullF16Scratch)
    } else if buf.dst_int4 == 0 {
        Some(EncodeFault::NullInt4)
    } else if buf.dst_scales_packed == 0 {
        Some(EncodeFault::NullScalesPacked)
    } else if buf.scales_f32_ws == 0 {
        Some(EncodeFault::NullScalesF32)
    } else {
        None
    }
}

/// Converts a packed decoder weight into the w4a8 layout: expand to f16, then encode.  A
/// layout that passes validation is never refused by the expansion.
pub fn encode_from_pack(wp: &WPacked, buf: &EncodeBuffers) -> (r: Result<EncodePlan, EncodeFault>)
    ensures
        match encode_fault(*wp, *buf) {
            Some(fault) => r == Err::<EncodePlan, EncodeFault>(fault),
            None => ({
                let n = wp.out_features as i32;
                let k = wp.in_features as i32;
                let group_size = wp.group_size as i32;
                &&& n == wp.out_features && k == wp.in_features && group_size == wp.group_size
                &&& r == Ok::<EncodePlan, EncodeFault>(
                    EncodePlan {
                        dequant: dequant_op(wp.packed, wp.scale, buf.f16_scratch, n, k, group_size),
                        encode: DeviceOp::EncodeW4a8 {
                            src: buf.f16_scratch,
                            n,
                            k,
                            group_size,
                            dst_int4: buf.dst_int4,
                            dst_scales: buf.dst_scales_packed,
                            scales_f32: buf.scales_f32_ws,
                        },
                        linear: Int4LinearW4a8 {
                            b_int4_reordered: buf.dst_int4,
                            b_scales_packed: buf.dst_scales_packed,
                            n,
                            k,
                            group_size,
                        },
                    },
                )
            }),
        },
{
    if let Err(fault) = wp.validate() {
        return Err(EncodeFault::Pack(fault));
    }
    if buf.f16_scratch == 0 {
        return Err(EncodeFault::NullF16Scratch);
    }
    if buf.dst_int4 == 0 {
        return Err(EncodeFault::NullInt4);
    }
    if buf.dst_scales_packed == 0 {
        return Err(EncodeFault::NullScalesPacked);
    }
    if buf.scales_f32_ws == 0 {
        return Err(EncodeFault::NullScalesF32);
    }
    let n: i32 = wp.out_features as i32;
    let k: i32 = wp.in_features as i32;
    let group_size: i32 = wp.group_size as i32;
    let dequant = match dequant_pack_to_f16(
        wp.packed,
        wp.scale,
        buf.f16_scratch,
        n,
        k,
        group_size,
    ) {
        Ok(op) => op,
        Err(fault) => return Err(fault),
    };
    Ok(
        EncodePlan {
            dequant,
            encode: DeviceOp::EncodeW4a8 {
                src: buf.f16_scratch,
                n,
                k,
                group_size,
                dst_int4: buf.dst_int4,
                dst_scales: buf.dst_scales_packed,
                scales_f32: buf.scales_f32_ws,
            },
            linear: Int4LinearW4a8 {
                b_int4_reordered: buf.dst_int4,
                b_scales_packed: buf.dst_scales_packed,
                n,
                k,
                group_size,
            },
        },
    )
}

// ---------------------------------------------------------------------------
// Pruned head
// ---------------------------------------------------------------------------

/// The head as served for greedy decoding: kept rows with one scale each.
#[derive(Copy, Clone, Debug, PartialEq, Eq, Structural)]
pub struct LmHeadPruned {
    pub w: WPacked,
    /// Device address of the map from kept row to vocabulary id.
    pub keep_ids: u64,
    pub k_rows: i32,
    pub full_vocab: i32,
}

/// Why the pruned head cannot be launched.
#[derive(Copy, Clone, Debug, PartialEq, Eq, Structural)]
pub enum HeadFault {
    NullResidual,
    NullScores,
    NullOutToken,
    NullFullVocabOutput,
    Pack(PackFault),
    NullKeepIds,
    /// The kept rows or the vocabulary are not positive.
    Shape,
    /// More kept rows than vocabulary ids.
    KRowsExceedVocab,
    /// The kept rows are not the rows of the weight.
    KRowsMismatch,
    /// No tokens, or no hidden columns.
    LaunchShape,
    MExceedsI32,
    HiddenExceedsI32,
    /// The hidden size is not the row length of the weight.
    HiddenMismatch,
    /// The weight does not have one group per row.
    GroupSize,
    SharedMemoryOverflow,
    ZeroTokens,
}

impl LmHeadPruned {
    pub open spec fn fault(self) -> Option<HeadFault> {
        if self.w.fault() is Some {
            Some(HeadFault::Pack(self.w.fault()->0))
        } else if self.keep_ids == 0 {
            Some(HeadFault::NullKeepIds)
        } else if self.k_rows <= 0 || self.full_vocab <= 0 {
            Some(HeadFault::Shape)
        } else if self.k_rows > self.full_vocab {
            Some(HeadFault::KRowsExceedVocab)
        } else if self.w.out_features != self.k_rows {
            Some(HeadFault::KRowsMismatch)
        } else {
            None
        }
    }

    pub open spec fn launch_fault(self, m: u32, hidden: u32) -> Option<HeadFault> {
        if self.fault() is Some {
            self.fault()
        } else if m == 0 || hidden == 0 {
            Some(HeadFault::LaunchShape)
        } else if m > i32::MAX {
            Some(HeadFault::MExceedsI32)
        } else if hidden > i32::MAX {
            Some(HeadFault::HiddenExceedsI32)
        } else if self.w.in_features != hidden {
            Some(HeadFault::HiddenMismatch)
        } else if self.w.group_size != hidden {
            Some(HeadFault::GroupSize)
        } else if hidden * 4 > u32::MAX {
            Some(HeadFault::SharedMemoryOverflow)
        } else {
            None
        }
    }

    /// The score launch: eight rows per block, the residual row in shared memory.
    pub open spec fn gemv_op(self, residual: u64, scores: u64, m: u32, hidden: u32) -> DeviceOp {
        DeviceOp::LmheadInt4Gemv {
            residual,
            packed: self.w.packed,
            scale: self.w.scale,
            scores,
            m: m as i32,
            k_rows: self.k_rows,
            hidden: hidden as i32,
            group_size: self.w.group_size as i32,
            grid: Dim3 { x: ((self.k_rows + 7) / 8) as u32, y: m, z: 1 },
            block: Dim3 { x: 256, y: 1, z: 1 },
            smem: (hidden * 4) as u32,
        }
    }
}

/// Tells what is wrong with a pruned head, whatever it is launched on.
pub fn validate_head(head: &LmHeadPruned) -> (r: Result<(), HeadFault>)
    ensures
        r == (match head.fault() {
            Some(fault) => Err::<(), HeadFault>(fault),
            None => Ok::<(), HeadFault>(()),
        }),
{
    if let Err(fault) = head.w.validate() {
        return Err(HeadFault::Pack(fault));
    }
    if head.keep_ids == 0 {
        return Err(HeadFault::NullKeepIds);
    }
    if head.k_rows <= 0 || head.full_vocab <= 0 {
        return Err(HeadFault::Shape);
    }
    if head.k_rows > head.full_vocab {
        return Err(HeadFault::KRowsExceedVocab);
    }
    if head.w.out_features != head.k_rows as usize {
        return Err(HeadFault::KRowsMismatch);
    }
    Ok(())
}

/// The sizes of a score launch: tokens, hidden columns, bytes of shared memory.
pub fn validate_head_launch(head: &LmHeadPruned, m: u32, hidden: u32) -> (r: Result<
    (i32, i32, u32),
    HeadFault,
>)
    ensures
        r == (match head.launch_fault(m, hidden) {
            Some(fault) => Err::<(i32, i32, u32), HeadFault>(fault),
            None => Ok::<(i32, i32, u32), HeadFault>(
                (m as i32, hidden as i32, (hidden * 4) as u32),
            ),
        }),
{
    if let Err(fault) = validate_head(head) {
        return Err(fault);
    }
    if m == 0 || hidden == 0 {
        return Err(HeadFault::LaunchShape);
    }
    if m > i32::MAX as u32 {
        return Err(HeadFault::MExceedsI32);
    }
    if hidden > i32::MAX as u32 {
        return Err(HeadFault::HiddenExceedsI32);
    }
    if head.w.in_features != hidden as usize {
        return Err(HeadFault::HiddenMismatch);
    }
    if head.w.group_size != hidden as usize {
        return Err(HeadFault::GroupSize);
    }
    match hidden.checked_mul(4) {
        Some(smem) => Ok((m as i32, hidden as i32, smem)),
        None => Err(HeadFault::SharedMemoryOverflow),
    }
}

/// The score launch, or why it is refused.
pub open spec fn scores_of(
    head: LmHeadPruned,
    residual: u64,
    scores: u64,
    m: u32,
    hidden: u32,
) -> Result<DeviceOp, HeadFault> {
    if residual == 0 {
        Err::<DeviceOp, HeadFault>(HeadFault::NullResidual)
    } else if scores == 0 {
        Err(HeadFault::NullScores)
    } else {
        match head.launch_fault(m, hidden) {
            Some(fault) => Err(fault),
            None => Ok(head.gemv_op(residual, scores, m, hidden)),
        }
    }
}

/// Scores of the kept rows only.
pub fn lmhead_int4_scores(
    head: &LmHeadPruned,
    residual: u64,
    scores: u64,
    m: u32,
    hidden: u32,
) -> (r: Result<DeviceOp, HeadFault>)
    ensures
        r == scores_of(*head, residual, scores, m, hidden),
{
    if residual == 0 {
        return Err(HeadFault::NullResidual);
    }
    if scores == 0 {
        return Err(HeadFault::NullScores);
    }
    let (m_i, hidden_i, smem) = match validate_head_launch(head, m, hidden) {
        Ok(sizes) => sizes,
        Err(fault) => return Err(fault),
    };
    Ok(
        DeviceOp::LmheadInt4Gemv {
            residual,
            packed: head.w.packed,
            scale: head.w.scale,
            scores,
            m: m_i,
            k_rows: head.k_rows,
            hidden: hidden_i,
            group_size: head.w.group_size as i32,
            grid: Dim3 {
                x: (head.k_rows as u32 + (LMH_WARPS_PER_BLOCK - 1)) / LMH_WARPS_PER_BLOCK,
                y: m,
                z: 1,
            },
            block: Dim3 { x: LMH_WARPS_PER_BLOCK * 32, y: 1, z: 1 },
            smem,
        },
    )
}

/// The two launches of the greedy tail, or why they are refused.
pub open spec fn prune_of(
    head: LmHeadPruned,
    residual: u64,
    scores: u64,
    out_token: u64,
    m: u32,
    hidden: u32,
) -> Result<(DeviceOp, DeviceOp), HeadFault> {
    if residual == 0 {
        Err::<(DeviceOp, DeviceOp), HeadFault>(HeadFault::NullResidual)
    } else if scores == 0 {
        Err(HeadFault::NullScores)
    } else if out_token == 0 {
        Err(HeadFault::NullOutToken)
    } else {
        match head.launch_fault(m, hidden) {
            Some(fault) => Err(fault),
            None => Ok(
                (
                    head.gemv_op(residual, scores, m, hidden),
                    DeviceOp::LmheadArgmaxRemap {
                        scores,
                        keep_ids: head.keep_ids,
                        out_token,
                        m: m as i32,
                        k_rows: head.k_rows,
                        grid: Dim3 { x: m, y: 1, z: 1 },
                        block: Dim3 { x: LMH_ARGMAX_BLOCK, y: 1, z: 1 },
                    },
                ),
            ),
        }
    }
}

/// The greedy tail: scores, then the leftmost best row of each, remapped.
pub fn lmhead_prune_argmax(
    head: &LmHeadPruned,
    residual: u64,
    scores: u64,
    out_token: u64,
    m: u32,
    hidden: u32,
) -> (r: Result<(DeviceOp, DeviceOp), HeadFault>)
    ensures
        r == prune_of(*head, residual, scores, out_token, m, hidden),
{
    if residual == 0 {
        return Err(HeadFault::NullResidual);
    }
    if scores == 0 {
        return Err(HeadFault::NullScores);
    }
    if out_token == 0 {
        return Err(HeadFault::NullOutToken);
    }
    let gemv = match lmhead_int4_scores(head, residual, scores, m, hidden) {
        Ok(op) => op,
        Err(fault) => return Err(fault),
    };
    Ok(
        (
            gemv,
            DeviceOp::LmheadArgmaxRemap {
                scores,
                keep_ids: head.keep_ids,
                out_token,
                m: m as i32,
                k_rows: head.k_rows,
                grid: Dim3 { x: m, y: 1, z: 1 },
                block: Dim3 { x: LMH_ARGMAX_BLOCK, y: 1, z: 1 },
            },
        ),
    )
}

/// The spreading launch, or why it is refused.
pub open spec fn scatter_of(
    head: LmHeadPruned,
    scores: u64,
    out: u64,
    m: u32,
) -> Result<DeviceOp, HeadFault> {
    if scores == 0 {
        Err::<DeviceOp, HeadFault>(HeadFault::NullScores)
    } else if out == 0 {
        Err(HeadFault::NullFullVocabOutput)
    } else if head.fault() is Some {
        Err(head.fault()->0)
    } else if m == 0 {
        Err(HeadFault::ZeroTokens)
    } else if m > i32::MAX {
        Err(HeadFault::MExceedsI32)
    } else {
        Ok(
            DeviceOp::LmheadScatterFullVocab {
                scores,
                keep_ids: head.keep_ids,
                out,
                m: m as i32,
                k_rows: head.k_rows,
                full_vocab: head.full_vocab,
                grid: Dim3 { x: m, y: 1, z: 1 },
                block: Dim3 { x: LMH_ARGMAX_BLOCK, y: 1, z: 1 },
            },
        )
    }
}

/// Spreads kept-row scores over the whole vocabulary.
pub fn lmhead_scatter_full_vocab(head: &LmHeadPruned, scores: u64, out: u64, m: u32) -> (r: Result<
    DeviceOp,
    HeadFault,
>)
    ensures
        r == scatter_of(*head, scores, out, m),
{
    if scores == 0 {
        return Err(HeadFault::NullScores);
    }
    if out == 0 {
        return Err(HeadFault::NullFullVocabOutput);
    }
    if let Err(fault) = validate_head(head) {
        return Err(fault);
    }
    if m == 0 {
        return Err(HeadFault::ZeroTokens);
    }
    if m > i32::MAX as u32 {
        return Err(HeadFault::MExceedsI32);
    }
    Ok(
        DeviceOp::LmheadScatterFullVocab {
            scores,
            keep_ids: head.keep_ids,
            out,
            m: m as i32,
            k_rows: head.k_rows,
            full_vocab: head.full_vocab,
            grid: Dim3 { x: m, y: 1, z: 1 },
            block: Dim3 { x: LMH_ARGMAX_BLOCK, y: 1, z: 1 },
        },
    )
}

} // verus!
