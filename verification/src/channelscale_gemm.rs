//! Routing of one FP8 matrix product whose weight may carry a per-channel scale.
//!
//! A nonzero `b_chscale` means that the weight's real scale is the per-channel
//! vector and that `b_scale_scalar` only holds a neutral one.  A route that ignored
//! the vector would emit unscaled values, so every route either applies it, applies
//! the two-dimensional block scale in its place, or is not taken when it is present.

use crate::device_op::{DeviceOp, Dim3};
use vstd::prelude::*;

verus! {

/// Smallest row count of the SM120 block-scaled kernel.
pub const CUTLASS_M_MIN: u32 = 128;

/// Warps in one block of the one-row kernels.
pub const GEMV_WARPS_PER_BLOCK: u32 = 8;

/// The matrix library that was loaded.
#[derive(Copy, Clone, Debug, PartialEq, Eq, Structural)]
pub enum CutlassBackend {
    /// SM90 library with the row-by-column scale epilogue.
    So,
    /// SM120 library.  `has_prep` says that both scale preparation entries exist, and
    /// `sfa_bytes` is what the library answered for the activation scales of this product.
    SoSm120 { has_prep: bool, sfa_bytes: usize },
    /// No library.
    Absent,
    /// A library that this version does not know.
    Unknown,
}

/// One product `out = (a * a_scale) x (b * b_scale)^T`, `m` by `n`, reduced over `k`.
#[derive(Copy, Clone, Debug, PartialEq, Eq, Structural)]
pub struct ChannelscaleGemm {
    pub out: u64,
    pub a: u64,
    pub b: u64,
    pub a_scale: u64,
    /// Per-row vector of the weight's scales, or 0.
    pub b_chscale: u64,
    /// Two-dimensional block scale of the weight, or 0 where none can be given.
    pub b_blockscale: u64,
    pub b_scale_scalar: u64,
    pub m: u32,
    pub n: u32,
    pub k: u32,
    pub scratch_f32: u64,
    pub workspace: u64,
    pub workspace_bytes: usize,
}

/// Operator settings and device facts that steer the routing.
#[derive(Copy, Clone, Debug, PartialEq, Eq, Structural)]
pub struct GemmTuning {
    /// Use the one-row kernels where they apply.
    pub gemv_m1: bool,
    /// Use the SM120 block-scaled kernel where it applies.
    pub cutlass_sm120: bool,
    /// Largest row count that prefers the library-free product on SM90.
    pub lt_max_m: i32,
    pub lt_small_m: bool,
    /// Let the library-free product write f16 directly for one row.
    pub lt_f16_out: bool,
    pub split_k: u32,
    pub tile_k: u32,
    /// Compute capability.
    pub sm_major: i32,
    pub sm_minor: i32,
}

#[derive(Copy, Clone, Debug, PartialEq, Eq, Structural)]
pub enum GemmFault {
    /// The one-row kernels need compute capability 8.9 or newer.
    GemvUnsupported,
    /// The loaded matrix library has no channel-scaled product.
    UnknownBackend,
}

/// How a product is carried out.
#[derive(Copy, Clone, Debug, PartialEq, Eq, Structural)]
pub enum GemmRoute {
    /// One-row kernel, reduction split over blocks.
    GemvSplitK,
    /// One-row kernel, activations staged tile by tile.
    GemvKTiled,
    /// SM120 kernel on prepared block scales.
    Blockscale { sfa_bytes: usize },
    /// Product into f16, then scale the columns in place.
    F16ScaleCols,
    /// Product into f32, correct the rows, scale the columns, cast.
    F32ScaleCast,
    /// Product with one scalar weight scale.
    Scalar,
    /// SM90 kernel with the row-by-column epilogue.
    Channelscale,
}

/// Compute capability from which the one-row FP8 kernels produce output.
pub fn fp8_channelscale_gemv_supported(major: i32, minor: i32) -> (yes: bool)
    ensures
        yes == gemv_supported(major as int, minor as int),
{
    major > 8 || (major == 8 && minor >= 9)
}

pub open spec fn gemv_supported(major: int, minor: int) -> bool {
    major > 8 || (major == 8 && minor >= 9)
}

/// The split factor: as set, 8 where unset, never below 1.
pub fn split_k_setting(parsed: Option<i32>) -> (split: u32)
    ensures
        split == (match parsed {
            Some(v) => if v >= 1 {
                v as int
            } else {
                1
            },
            None => 8,
        }),
{
    let v: i32 = match parsed {
        Some(v) => v,
        None => 8,
    };
    if v < 1 {
        1
    } else {
        v as u32
    }
}

/// The tile width: as set, 8192 where unset, at least 16, rounded up to a multiple of 16.
pub fn tile_k_setting(parsed: Option<i32>) -> (tile: u32)
    requires
        parsed is Some ==> parsed->0 <= i32::MAX - 15,
    ensures
        tile % 16 == 0,
        ({
            let want = match parsed {
                Some(v) => if v >= 16 {
                    v as int
                } else {
                    16
                },
                None => 8192,
            };
            want <= tile < want + 16
        }),
{
    let v: i32 = match parsed {
        Some(v) => v,
        None => 8192,
    };
    let want: i32 = if v < 16 {
        16
    } else {
        v
    };
    (((want + 15) / 16) * 16) as u32
}

/// The largest row count that prefers the library-free product: as set, else 64, or 0 on
/// devices where that product is off by default.
pub fn lt_max_m_setting(parsed: Option<i32>, default_off: bool) -> (max_m: i32)
    ensures
        max_m == (match parsed {
            Some(v) => v,
            None => if default_off {
                0
            } else {
                64i32
            },
        }),
{
    match parsed {
        Some(v) => v,
        None => if default_off {
            0
        } else {
            64
        },
    }
}

impl ChannelscaleGemm {
    /// A scale source exists, and every size and address that some route computes fits.
    pub open spec fn fits(self, backend: CutlassBackend) -> bool {
        &&& self.b_chscale != 0 || self.b_scale_scalar != 0
        &&& self.m <= i32::MAX
        &&& self.n <= i32::MAX
        &&& self.k <= i32::MAX
        &&& self.m * self.n <= i32::MAX
        &&& backend matches CutlassBackend::SoSm120 { sfa_bytes, .. } ==> self.scratch_f32
            + sfa_bytes + 15 <= u64::MAX && sfa_bytes + 15 <= usize::MAX
    }

    /// The route, in order of preference.
    pub open spec fn route(self, backend: CutlassBackend, tuning: GemmTuning) -> Result<
        GemmRoute,
        GemmFault,
    > {
        let by_scale = |scaled: GemmRoute|
            if self.b_chscale != 0 {
                scaled
            } else {
                GemmRoute::Scalar
            };
        if self.m == 1 && self.b_chscale != 0 && tuning.gemv_m1 {
            if !gemv_supported(tuning.sm_major as int, tuning.sm_minor as int) {
                Err(GemmFault::GemvUnsupported)
            } else if self.n <= 8192 && self.k >= 8192 {
                Ok(GemmRoute::GemvSplitK)
            } else {
                Ok(GemmRoute::GemvKTiled)
            }
        } else {
            match backend {
                CutlassBackend::SoSm120 { has_prep, sfa_bytes } => if self.m >= CUTLASS_M_MIN
                    && self.b_blockscale != 0 && tuning.cutlass_sm120 && has_prep {
                    Ok(GemmRoute::Blockscale { sfa_bytes })
                } else {
                    Ok(by_scale(GemmRoute::F32ScaleCast))
                },
                CutlassBackend::So => if self.m <= tuning.lt_max_m && tuning.lt_small_m {
                    Ok(
                        by_scale(
                            if self.m == 1 && tuning.lt_f16_out {
                                GemmRoute::F16ScaleCols
                            } else {
                                GemmRoute::F32ScaleCast
                            },
                        ),
                    )
                } else {
                    Ok(GemmRoute::Channelscale)
                },
                CutlassBackend::Absent => Ok(by_scale(GemmRoute::F32ScaleCast)),
                CutlassBackend::Unknown => Err(GemmFault::UnknownBackend),
            }
        }
    }

    /// Threads per block of the elementwise kernels is 256; this many blocks cover `total`.
    pub open spec fn blocks_for(total: int) -> u32 {
        ((total + 255) / 256) as u32
    }

    /// The work of a route.
    pub open spec fn ops_of(self, route: GemmRoute, tuning: GemmTuning) -> Seq<DeviceOp> {
        let cast = |n: int|
            DeviceOp::F32ToF16Sat { n: n as u32, dst: self.out, src: self.scratch_f32 };
        let gemv_grid = ((self.n + 7) / 8) as u32;
        match route {
            GemmRoute::GemvSplitK => seq![
                DeviceOp::MemsetD8 {
                    dst: self.scratch_f32,
                    value: 0,
                    bytes: (self.n * 4) as u64,
                },
                DeviceOp::GemvSplitK {
                    out: self.scratch_f32,
                    weight: self.b,
                    wscale: self.b_chscale,
                    act: self.a,
                    act_scale: self.a_scale,
                    n: self.n,
                    k: self.k,
                    split_k: tuning.split_k,
                    grid: Dim3 { x: gemv_grid, y: tuning.split_k, z: 1 },
                    block: Dim3 { x: 256, y: 1, z: 1 },
                },
                cast(self.n as int),
            ],
            GemmRoute::GemvKTiled => seq![
                DeviceOp::GemvKTiled {
                    out: self.scratch_f32,
                    weight: self.b,
                    wscale: self.b_chscale,
                    act: self.a,
                    act_scale: self.a_scale,
                    n: self.n,
                    k: self.k,
                    tile_k: tuning.tile_k,
                    grid: Dim3 { x: gemv_grid, y: 1, z: 1 },
                    block: Dim3 { x: 256, y: 1, z: 1 },
                    smem: (2 * staged_activations(tuning.tile_k as int, self.k as int)) as u32,
                },
                cast(self.n as int),
            ],
            GemmRoute::Blockscale { sfa_bytes } => {
                let sfb = (self.scratch_f32 + round_up_16(sfa_bytes as int)) as u64;
                seq![
                    DeviceOp::PrepSfa {
                        src: self.a_scale,
                        dst: self.scratch_f32,
                        m: self.m,
                        k: self.k,
                    },
                    DeviceOp::PrepSfb { src: self.b_blockscale, dst: sfb, n: self.n, k: self.k },
                    DeviceOp::CutlassBlockscaleSm120 {
                        out: self.out,
                        a: self.a,
                        b: self.b,
                        sfa: self.scratch_f32,
                        sfb,
                        m: self.m,
                        n: self.n,
                        k: self.k,
                        workspace: self.workspace,
                        workspace_bytes: self.workspace_bytes,
                    },
                ]
            },
            GemmRoute::F16ScaleCols => seq![
                self.scalar_op(),
                DeviceOp::ScaleColsF16 {
                    data: self.out,
                    scale: self.b_chscale,
                    m: self.m,
                    n: self.n,
                    grid: Dim3 { x: Self::blocks_for(self.n as int), y: self.m, z: 1 },
                    block: Dim3 { x: 256, y: 1, z: 1 },
                },
            ],
            GemmRoute::F32ScaleCast => {
                let grid = Dim3 { x: Self::blocks_for(self.m * self.n), y: 1, z: 1 };
                let block = Dim3 { x: 256, y: 1, z: 1 };
                let product = seq![
                    DeviceOp::Fp8GemmF32 {
                        a: self.a,
                        b: self.b,
                        out: self.scratch_f32,
                        m: self.m,
                        n: self.n,
                        k: self.k,
                        a_scale: self.a_scale,
                        b_scale: self.b_scale_scalar,
                    },
                ];
                let rows = if self.m > 1 {
                    seq![
                        DeviceOp::ScaleRowsF32Ratio {
                            data: self.scratch_f32,
                            scale: self.a_scale,
                            m: self.m,
                            n: self.n,
                            grid,
                            block,
                        },
                    ]
                } else {
                    Seq::empty()
                };
                let cols = if self.b_chscale != 0 {
                    seq![
                        DeviceOp::ScaleColsF32 {
                            data: self.scratch_f32,
                            scale: self.b_chscale,
                            m: self.m,
                            n: self.n,
                            grid,
                            block,
                        },
                    ]
                } else {
                    Seq::empty()
                };
                (product + rows + cols).push(cast(self.m * self.n))
            },
            GemmRoute::Scalar => seq![self.scalar_op()],
            GemmRoute::Channelscale => seq![
                DeviceOp::CutlassChannelscale {
                    out: self.out,
                    a: self.a,
                    b: self.b,
                    a_scale: self.a_scale,
                    b_chscale: self.b_chscale,
                    m: self.m,
                    n: self.n,
                    k: self.k,
                    workspace: self.workspace,
                    workspace_bytes: self.workspace_bytes,
                },
            ],
        }
    }

    pub open spec fn scalar_op(self) -> DeviceOp {
        DeviceOp::Fp8Gemm {
            a: self.a,
            b: self.b,
            out: self.out,
            m: self.m,
            n: self.n,
            k: self.k,
            a_scale: self.a_scale,
            b_scale: self.b_scale_scalar,
        }
    }

    /// The whole work of this product, or why it cannot be done.
    pub open spec fn plan(self, backend: CutlassBackend, tuning: GemmTuning) -> Result<
        Seq<DeviceOp>,
        GemmFault,
    > {
        match self.route(backend, tuning) {
            Ok(route) => Ok(self.ops_of(route, tuning)),
            Err(fault) => Err(fault),
        }
    }
}

pub open spec fn round_up_16(x: int) -> int {
    ((x + 15) / 16) * 16
}

/// Activations that one block stages: a tile, or all of them where they are fewer, at least 16.
pub open spec fn staged_activations(tile_k: int, k: int) -> int {
    let staged = if tile_k < k {
        tile_k
    } else {
        k
    };
    if staged < 16 {
        16
    } else {
        staged
    }
}

impl ChannelscaleGemm {
    /// Chooses the route of this product.
    pub fn choose_route(&self, backend: CutlassBackend, tuning: &GemmTuning) -> (r: Result<
        GemmRoute,
        GemmFault,
    >)
        requires
            self.m <= i32::MAX,
        ensures
            r == self.route(backend, *tuning),
    {
        if self.m == 1 && self.b_chscale != 0 && tuning.gemv_m1 {
            if !fp8_channelscale_gemv_supported(tuning.sm_major, tuning.sm_minor) {
                return Err(GemmFault::GemvUnsupported);
            }
            return if self.n <= 8192 && self.k >= 8192 {
                Ok(GemmRoute::GemvSplitK)
            } else {
                Ok(GemmRoute::GemvKTiled)
            };
        }
        match backend {
            CutlassBackend::SoSm120 { has_prep, sfa_bytes } => {
                if self.m >= CUTLASS_M_MIN && self.b_blockscale != 0 && tuning.cutlass_sm120
                    && has_prep {
                    Ok(GemmRoute::Blockscale { sfa_bytes })
                } else if self.b_chscale != 0 {
                    Ok(GemmRoute::F32ScaleCast)
                } else {
                    Ok(GemmRoute::Scalar)
                }
            },
            CutlassBackend::So => {
                if self.m as i32 <= tuning.lt_max_m && tuning.lt_small_m {
                    if self.b_chscale == 0 {
                        Ok(GemmRoute::Scalar)
                    } else if self.m == 1 && tuning.lt_f16_out {
                        Ok(GemmRoute::F16ScaleCols)
                    } else {
                        Ok(GemmRoute::F32ScaleCast)
                    }
                } else {
                    Ok(GemmRoute::Channelscale)
                }
            },
            CutlassBackend::Absent => {
                if self.b_chscale != 0 {
                    Ok(GemmRoute::F32ScaleCast)
                } else {
                    Ok(GemmRoute::Scalar)
                }
            },
            CutlassBackend::Unknown => Err(GemmFault::UnknownBackend),
        }
    }

    fn scalar_gemm(&self) -> (op: DeviceOp)
        ensures
            op == self.scalar_op(),
    {
        DeviceOp::Fp8Gemm {
            a: self.a,
            b: self.b,
            out: self.out,
            m: self.m,
            n: self.n,
            k: self.k,
            a_scale: self.a_scale,
            b_scale: self.b_scale_scalar,
        }
    }
}

/// Appends the work of one product to `ops`.  On a fault nothing is appended.
pub fn fp8_gemm_channelscale_or_fallback(
    g: &ChannelscaleGemm,
    backend: CutlassBackend,
    tuning: &GemmTuning,
    ops: &mut Vec<DeviceOp>,
) -> (r: Result<(), GemmFault>)
    requires
        g.fits(backend),
        tuning.tile_k <= i32::MAX,
    ensures
        match g.plan(backend, *tuning) {
            Ok(work) => r is Ok && final(ops)@ == old(ops)@ + work,
            Err(fault) => r == Err::<(), GemmFault>(fault) && final(ops)@ == old(ops)@,
        },
{
    let route = match g.choose_route(backend, tuning) {
        Ok(route) => route,
        Err(fault) => return Err(fault),
    };
    let ghost before = ops@;
    let gemv_grid: u32 = (g.n + (GEMV_WARPS_PER_BLOCK - 1)) / GEMV_WARPS_PER_BLOCK;
    let block = Dim3 { x: 256, y: 1, z: 1 };
    match route {
        GemmRoute::GemvSplitK => {
            ops.push(
                DeviceOp::MemsetD8 { dst: g.scratch_f32, value: 0, bytes: g.n as u64 * 4 },
            );
            ops.push(
                DeviceOp::GemvSplitK {
                    out: g.scratch_f32,
                    weight: g.b,
                    wscale: g.b_chscale,
                    act: g.a,
                    act_scale: g.a_scale,
                    n: g.n,
                    k: g.k,
                    split_k: tuning.split_k,
                    grid: Dim3 { x: gemv_grid, y: tuning.split_k, z: 1 },
                    block,
                },
            );
            ops.push(DeviceOp::F32ToF16Sat { n: g.n, dst: g.out, src: g.scratch_f32 });
        },
        GemmRoute::GemvKTiled => {
            let tiled: u32 = if tuning.tile_k < g.k {
                tuning.tile_k
            } else {
                g.k
            };
            let staged: u32 = if tiled < 16 {
                16
            } else {
                tiled
            };
            ops.push(
                DeviceOp::GemvKTiled {
                    out: g.scratch_f32,
                    weight: g.b,
                    wscale: g.b_chscale,
                    act: g.a,
                    act_scale: g.a_scale,
                    n: g.n,
                    k: g.k,
                    tile_k: tuning.tile_k,
                    grid: Dim3 { x: gemv_grid, y: 1, z: 1 },
                    block,
                    smem: staged * 2,
                },
            );
            ops.push(DeviceOp::F32ToF16Sat { n: g.n, dst: g.out, src: g.scratch_f32 });
        },
        GemmRoute::Blockscale { sfa_bytes } => {
            let aligned: usize = (sfa_bytes + 15) / 16 * 16;
            let sfb: u64 = g.scratch_f32 + aligned as u64;
            ops.push(DeviceOp::PrepSfa { src: g.a_scale, dst: g.scratch_f32, m: g.m, k: g.k });
            ops.push(DeviceOp::PrepSfb { src: g.b_blockscale, dst: sfb, n: g.n, k: g.k });
            ops.push(
                DeviceOp::CutlassBlockscaleSm120 {
                    out: g.out,
                    a: g.a,
                    b: g.b,
                    sfa: g.scratch_f32,
                    sfb,
                    m: g.m,
                    n: g.n,
                    k: g.k,
                    workspace: g.workspace,
                    workspace_bytes: g.workspace_bytes,
                },
            );
        },
        GemmRoute::F16ScaleCols => {
            ops.push(g.scalar_gemm());
            ops.push(
                DeviceOp::ScaleColsF16 {
                    data: g.out,
                    scale: g.b_chscale,
                    m: g.m,
                    n: g.n,
                    grid: Dim3 { x: (g.n + 255) / 256, y: g.m, z: 1 },
                    block,
                },
            );
        },
        GemmRoute::F32ScaleCast => {
            let total: u32 = g.m * g.n;
            let grid = Dim3 { x: (total + 255) / 256, y: 1, z: 1 };
            ops.push(
                DeviceOp::Fp8GemmF32 {
                    a: g.a,
                    b: g.b,
                    out: g.scratch_f32,
                    m: g.m,
                    n: g.n,
                    k: g.k,
                    a_scale: g.a_scale,
                    b_scale: g.b_scale_scalar,
                },
            );
            if g.m > 1 {
                ops.push(
                    DeviceOp::ScaleRowsF32Ratio {
                        data: g.scratch_f32,
                        scale: g.a_scale,
                        m: g.m,
                        n: g.n,
                        grid,
                        block,
                    },
                );
            }
            if g.b_chscale != 0 {
                ops.push(
                    DeviceOp::ScaleColsF32 {
                        data: g.scratch_f32,
                        scale: g.b_chscale,
                        m: g.m,
                        n: g.n,
                        grid,
                        block,
                    },
                );
            }
            ops.push(DeviceOp::F32ToF16Sat { n: total, dst: g.out, src: g.scratch_f32 });
        },
        GemmRoute::Scalar => {
            ops.push(g.scalar_gemm());
        },
        GemmRoute::Channelscale => {
            ops.push(
                DeviceOp::CutlassChannelscale {
                    out: g.out,
                    a: g.a,
                    b: g.b,
                    a_scale: g.a_scale,
                    b_chscale: g.b_chscale,
                    m: g.m,
                    n: g.n,
                    k: g.k,
                    workspace: g.workspace,
                    workspace_bytes: g.workspace_bytes,
                },
            );
        },
    }
    assert(ops@ =~= before + g.ops_of(route, *tuning));
    Ok(())
}

/// The operation takes its weight scale from the per-channel vector at `scale`.
pub open spec fn applies_channel_scale(op: DeviceOp, scale: u64) -> bool {
    match op {
        DeviceOp::GemvSplitK { wscale, .. } => wscale == scale,
        DeviceOp::GemvKTiled { wscale, .. } => wscale == scale,
        DeviceOp::ScaleColsF16 { scale: s, .. } => s == scale,
        DeviceOp::ScaleColsF32 { scale: s, .. } => s == scale,
        DeviceOp::CutlassChannelscale { b_chscale, .. } => b_chscale == scale,
        _ => false,
    }
}

/// The operation takes its weight scale from the block scale at `scale`.
pub open spec fn applies_block_scale(op: DeviceOp, scale: u64) -> bool {
    op matches DeviceOp::PrepSfb { src, .. } && src == scale
}

/// How many operations of `work` satisfy `p`.
pub open spec fn count_ops(work: Seq<DeviceOp>, p: spec_fn(DeviceOp) -> bool) -> nat
    decreases work.len(),
{
    if work.len() == 0 {
        0
    } else {
        count_ops(work.drop_last(), p) + if p(work.last()) {
            1nat
        } else {
            0nat
        }
    }
}

/// A weight with a per-channel scale is never multiplied without it: whatever the backend
/// and the settings, the work applies the channel vector exactly once, or a present block
/// scale in its place.
pub proof fn law_channel_scale_is_never_dropped(
    g: ChannelscaleGemm,
    backend: CutlassBackend,
    tuning: GemmTuning,
)
    requires
        g.b_chscale != 0,
        g.plan(backend, tuning) is Ok,
    ensures
        ({
            let work = g.plan(backend, tuning)->Ok_0;
            let by_channel = count_ops(
                work,
                |op: DeviceOp| applies_channel_scale(op, g.b_chscale),
            );
            let by_block = count_ops(
                work,
                |op: DeviceOp| applies_block_scale(op, g.b_blockscale),
            );
            ||| by_channel == 1 && by_block == 0
            ||| by_channel == 0 && by_block == 1 && g.b_blockscale != 0
        }),
{
    reveal_with_fuel(count_ops, 5);
}

/// The work is never empty, and its last operation leaves the product at the output address.
pub proof fn law_gemm_ends_with_its_output(
    g: ChannelscaleGemm,
    backend: CutlassBackend,
    tuning: GemmTuning,
)
    requires
        g.plan(backend, tuning) is Ok,
    ensures
        ({
            let work = g.plan(backend, tuning)->Ok_0;
            &&& work.len() > 0
            &&& writes_output(work.last(), g.out)
        }),
{
}

/// The operation leaves a product at `out`.
pub open spec fn writes_output(op: DeviceOp, out: u64) -> bool {
    match op {
        DeviceOp::F32ToF16Sat { dst, .. } => dst == out,
        DeviceOp::ScaleColsF16 { data, .. } => data == out,
        DeviceOp::Fp8Gemm { out: o, .. } => o == out,
        DeviceOp::CutlassChannelscale { out: o, .. } => o == out,
        DeviceOp::CutlassBlockscaleSm120 { out: o, .. } => o == out,
        _ => false,
    }
}

/// With one row there is no row to correct: the work holds no row-ratio operation, so a
/// one-row product is computed exactly as in step-by-step decoding.
pub proof fn law_single_row_is_not_corrected(
    g: ChannelscaleGemm,
    backend: CutlassBackend,
    tuning: GemmTuning,
    i: int,
)
    requires
        g.m == 1,
        g.plan(backend, tuning) is Ok,
        0 <= i < g.plan(backend, tuning)->Ok_0.len(),
    ensures
        !(g.plan(backend, tuning)->Ok_0[i] is ScaleRowsF32Ratio),
{
}

} // verus!
