//! Per-layer embeddings of the small models: the weights they add to a layer, the state that
//! one step shares between its layers, and how both are brought up.
//!
//! Bringing up takes two steps.  The first says how large each region must be; the second,
//! given where the regions are, says what is launched to fill them.

use crate::text::parse_unsigned;
use crate::device_op::DeviceOp;
use crate::gemma4_int4::{
    dequant_pack_to_f16, EncodeFault, PackFault, WPacked,
};
use vstd::prelude::*;

verus! {

// ---------------------------------------------------------------------------
// State
// ---------------------------------------------------------------------------

/// Per-layer-embedding weights of one decoder layer.
#[derive(Copy, Clone, Debug, PartialEq, Eq, Structural)]
pub struct Gemma4E4bLayerPtrs {
    /// `[h_ple, hidden]` in f16.
    pub gate_w: u64,
    /// `[hidden, h_ple]` in f16.
    pub proj_w: u64,
    pub post_norm: u64,
    /// The layer whose cache this layer reads; a layer without a source owns its cache.
    pub kv_share_src: Option<usize>,
}

/// Per-layer-embedding state of a model.
#[derive(Clone, Debug)]
pub struct Gemma4E4bRuntime {
    pub layers: Vec<Gemma4E4bLayerPtrs>,
    pub h_ple: u32,
    /// The combined inputs of the current step, `[num_tokens, num_layers, h_ple]` in f16.
    pub per_layer_inputs: u64,
    /// Window of the sliding layers.
    pub sliding_window: u32,
}

/// Packed weights of one layer.  A layer that shares its cache has no keys and values.
#[derive(Copy, Clone, Debug, PartialEq, Eq, Structural)]
pub struct E4bLayerWeights {
    pub q_proj: WPacked,
    pub k_proj: Option<WPacked>,
    pub v_proj: Option<WPacked>,
    pub o_proj: WPacked,
    pub gate_proj: WPacked,
    pub up_proj: WPacked,
    pub down_proj: WPacked,
    pub per_layer_input_gate: WPacked,
    pub per_layer_projection: WPacked,
    pub post_per_layer_input_norm: u64,
    pub kv_share_src: Option<usize>,
}

/// A loaded model with packed weights.
#[derive(Debug)]
pub struct E4bModel {
    pub layers: Vec<E4bLayerWeights>,
    /// `[vocab, num_layers * h_ple]`.
    pub embed_tokens_per_layer: u64,
    pub per_layer_model_projection: WPacked,
    pub per_layer_projection_norm: u64,
    pub lm_head: WPacked,
    /// Vocabulary id of every kept row of the head.
    pub keep_ids: Vec<u32>,
    pub pruned_vocab_k: i32,
    pub full_vocab: i32,
}

/// What the environment says of the sliding window.
#[derive(Copy, Clone, Debug)]
pub enum WindowSetting<'a> {
    Absent,
    NotUnicode,
    Text(&'a str),
}

/// What decides whether the per-layer embeddings can be brought up.
#[derive(Copy, Clone, Debug)]
pub struct E4bRequest<'a> {
    pub num_layers: u32,
    pub h_ple: u32,
    /// Without the embedding kernels the model must not run.
    pub require: bool,
    pub has_ple_kernels: bool,
    pub configured_window: usize,
    pub window: WindowSetting<'a>,
}

#[derive(Copy, Clone, Debug, PartialEq, Eq, Structural)]
pub enum E4bFault {
    /// No layers, or no embedding width.
    DegenerateDims,
    PleKernelsAbsent,
    WindowExceedsU32,
    WindowZero,
    /// The setting is not a positive 32-bit number.
    WindowSetting,
    WindowNotUnicode,
    NoLayers,
    LayerCount,
    DequantKernelAbsent,
    Pack(PackFault),
    Encode(EncodeFault),
    /// More tokens than the buffers hold.
    TooManyTokens,
    EmbedKernelAbsent,
    CombineKernelAbsent,
}

// ---------------------------------------------------------------------------
// Admission
// ---------------------------------------------------------------------------

/// The window of the sliding layers: the setting, or what the model was configured with.
pub open spec fn window_of(configured: usize, setting: WindowSetting) -> Result<u32, E4bFault> {
    if configured > u32::MAX {
        Err(E4bFault::WindowExceedsU32)
    } else if configured == 0 {
        Err(E4bFault::WindowZero)
    } else {
        match setting {
            WindowSetting::Absent => Ok(configured as u32),
            WindowSetting::NotUnicode => Err(E4bFault::WindowNotUnicode),
            WindowSetting::Text(text) => match crate::text::unsigned_at_most(
                text@,
                u32::MAX as int,
            ) {
                Some(v) => if v > 0 {
                    Ok(v as u32)
                } else {
                    Err(E4bFault::WindowSetting)
                },
                None => Err(E4bFault::WindowSetting),
            },
        }
    }
}

/// The window of the sliding layers.
pub fn sliding_window(configured: usize, setting: WindowSetting) -> (r: Result<u32, E4bFault>)
    ensures
        r == window_of(configured, setting),
{
    if configured as u128 > u32::MAX as u128 {
        return Err(E4bFault::WindowExceedsU32);
    }
    if configured == 0 {
        return Err(E4bFault::WindowZero);
    }
    match setting {
        WindowSetting::Absent => Ok(configured as u32),
        WindowSetting::NotUnicode => Err(E4bFault::WindowNotUnicode),
        WindowSetting::Text(text) => match parse_unsigned(text, u32::MAX as u64) {
            Some(v) => if v > 0 {
                Ok(v as u32)
            } else {
                Err(E4bFault::WindowSetting)
            },
            None => Err(E4bFault::WindowSetting),
        },
    }
}

impl<'a> E4bRequest<'a> {
    /// The window with which a model of `loaded` layers is brought up, or why it is not.
    pub open spec fn admission(self, loaded: int) -> Result<u32, E4bFault> {
        if self.h_ple == 0 || self.num_layers == 0 {
            Err(E4bFault::DegenerateDims)
        } else if self.require && !self.has_ple_kernels {
            Err(E4bFault::PleKernelsAbsent)
        } else {
            match window_of(self.configured_window, self.window) {
                Err(fault) => Err(fault),
                Ok(window) => if loaded == 0 {
                    Err(E4bFault::NoLayers)
                } else if loaded != self.num_layers {
                    Err(E4bFault::LayerCount)
                } else {
                    Ok(window)
                },
            }
        }
    }

    /// Accepts the request for a model of `loaded` layers, and gives its window.
    pub fn accept(&self, loaded: usize) -> (r: Result<u32, E4bFault>)
        ensures
            r == self.admission(loaded as int),
    {
        if self.h_ple == 0 || self.num_layers == 0 {
            return Err(E4bFault::DegenerateDims);
        }
        if self.require && !self.has_ple_kernels {
            return Err(E4bFault::PleKernelsAbsent);
        }
        let window: u32 = match sliding_window(self.configured_window, self.window) {
            Ok(window) => window,
            Err(fault) => return Err(fault),
        };
        if loaded == 0 {
            return Err(E4bFault::NoLayers);
        }
        if loaded as u128 != self.num_layers as u128 {
            return Err(E4bFault::LayerCount);
        }
        Ok(window)
    }
}

// ---------------------------------------------------------------------------
// Regions
// ---------------------------------------------------------------------------

/// Bytes of the dense f16 form of a packed weight.
pub open spec fn dense_bytes(w: WPacked) -> int {
    w.out_features * w.in_features * 2
}

/// Bytes of the regions.
#[derive(Copy, Clone, Debug, PartialEq, Eq, Structural)]
pub struct E4bRegions {
    pub gate_w: usize,
    pub proj_w: usize,
    pub model_projection: usize,
    pub per_layer_inputs: usize,
    pub gather: usize,
    pub proj_f32: usize,
    pub proj_f16: usize,
}

/// Addresses of the regions.
#[derive(Copy, Clone, Debug, PartialEq, Eq, Structural)]
pub struct E4bAddresses {
    pub gate_w: u64,
    pub proj_w: u64,
    pub model_projection: u64,
    pub per_layer_inputs: u64,
    pub gather: u64,
    pub proj_f32: u64,
    pub proj_f16: u64,
}

impl E4bModel {
    /// Bytes from one layer's dense weight to the next: every layer is shaped as the first.
    pub open spec fn gate_slice(&self) -> int {
        dense_bytes(self.layers@[0].per_layer_input_gate)
    }

    pub open spec fn proj_slice(&self) -> int {
        dense_bytes(self.layers@[0].per_layer_projection)
    }

    /// Elements of the per-layer inputs.
    pub open spec fn input_elems(&self, num_layers: u32, h_ple: u32, max_tokens: u32) -> int {
        max_tokens * (num_layers * h_ple)
    }

    /// The largest size is addressable.
    pub open spec fn regions_fit(&self, num_layers: u32, h_ple: u32, max_tokens: u32) -> bool {
        &&& num_layers * self.gate_slice() <= usize::MAX
        &&& num_layers * self.proj_slice() <= usize::MAX
        &&& dense_bytes(self.per_layer_model_projection) <= usize::MAX
        &&& num_layers * h_ple <= u32::MAX
        &&& self.input_elems(num_layers, h_ple, max_tokens) * 4 <= usize::MAX
    }
}

fn dense_size(w: &WPacked) -> (bytes: Option<usize>)
    ensures
        dense_bytes(*w) <= usize::MAX ==> bytes == Some(dense_bytes(*w) as usize),
        dense_bytes(*w) > usize::MAX ==> bytes is None,
{
    proof {
        let p = w.out_features * w.in_features;
        assert(p >= 0) by (nonlinear_arith)
            requires
                p == w.out_features * w.in_features,
        ;
    }
    match w.out_features.checked_mul(w.in_features) {
        Some(elems) => elems.checked_mul(2),
        None => None,
    }
}

fn times(a: u32, b: usize) -> (p: Option<usize>)
    ensures
        a * b <= usize::MAX ==> p == Some((a * b) as usize),
        a * b > usize::MAX ==> p is None,
{
    proof {
        assert(a * b >= 0) by (nonlinear_arith);
    }
    (a as usize).checked_mul(b)
}

/// How large the regions are; nothing where a size cannot be addressed.
pub fn e4b_regions(model: &E4bModel, num_layers: u32, h_ple: u32, max_tokens: u32) -> (r: Option<
    E4bRegions,
>)
    requires
        model.layers@.len() > 0,
        num_layers > 0,
    ensures
        r is Some <==> model.regions_fit(num_layers, h_ple, max_tokens),
        r matches Some(sizes) ==> {
            &&& sizes.gate_w == num_layers * model.gate_slice()
            &&& sizes.proj_w == num_layers * model.proj_slice()
            &&& sizes.model_projection == dense_bytes(model.per_layer_model_projection)
            &&& sizes.per_layer_inputs == model.input_elems(num_layers, h_ple, max_tokens) * 2
            &&& sizes.gather == sizes.per_layer_inputs
            &&& sizes.proj_f16 == sizes.per_layer_inputs
            &&& sizes.proj_f32 == 2 * sizes.per_layer_inputs
        },
{
    let ghost fit = model.regions_fit(num_layers, h_ple, max_tokens);
    proof {
        let g = model.gate_slice();
        let p = model.proj_slice();
        assert(g <= num_layers * g) by (nonlinear_arith)
            requires
                num_layers > 0,
                g >= 0,
        ;
        assert(p <= num_layers * p) by (nonlinear_arith)
            requires
                num_layers > 0,
                p >= 0,
        ;
        assert(num_layers * h_ple >= 0) by (nonlinear_arith);
        assert(max_tokens * (num_layers * h_ple) >= 0) by (nonlinear_arith)
            requires
                num_layers * h_ple >= 0,
        ;
    }
    let gate_w: usize = match dense_size(&model.layers[0].per_layer_input_gate) {
        Some(slice) => match times(num_layers, slice) {
            Some(bytes) => bytes,
            None => return None,
        },
        None => return None,
    };
    let proj_w: usize = match dense_size(&model.layers[0].per_layer_projection) {
        Some(slice) => match times(num_layers, slice) {
            Some(bytes) => bytes,
            None => return None,
        },
        None => return None,
    };
    let model_projection: usize = match dense_size(&model.per_layer_model_projection) {
        Some(bytes) => bytes,
        None => return None,
    };
    let row: u32 = match num_layers.checked_mul(h_ple) {
        Some(row) => row,
        None => return None,
    };
    let elems: usize = match times(max_tokens, row as usize) {
        Some(elems) => elems,
        None => return None,
    };
    let proj_f32: usize = match elems.checked_mul(4) {
        Some(bytes) => bytes,
        None => return None,
    };
    let half: usize = elems * 2;
    Some(
        E4bRegions {
            gate_w,
            proj_w,
            model_projection,
            per_layer_inputs: half,
            gather: half,
            proj_f32,
            proj_f16: half,
        },
    )
}

// ---------------------------------------------------------------------------
// Filling
// ---------------------------------------------------------------------------

/// The expansion of a packed weight into `out`, or why it is refused.
pub open spec fn expand(w: WPacked, out: u64) -> Result<DeviceOp, E4bFault> {
    if w.fault() is Some {
        Err(E4bFault::Pack(w.fault()->0))
    } else if out == 0 {
        Err(E4bFault::Encode(EncodeFault::NullOutput))
    } else {
        Ok(
            crate::gemma4_int4::dequant_op(
                w.packed,
                w.scale,
                out,
                w.out_features as i32,
                w.in_features as i32,
                w.group_size as i32,
            ),
        )
    }
}

fn expand_pack(w: &WPacked, out: u64) -> (r: Result<DeviceOp, E4bFault>)
    ensures
        r == expand(*w, out),
{
    if let Err(fault) = w.validate() {
        return Err(E4bFault::Pack(fault));
    }
    match dequant_pack_to_f16(
        w.packed,
        w.scale,
        out,
        w.out_features as i32,
        w.in_features as i32,
        w.group_size as i32,
    ) {
        Ok(op) => Ok(op),
        Err(fault) => Err(E4bFault::Encode(fault)),
    }
}

/// Tells whether `count` dense copies of `w` behind `base` can be addressed.
fn reaches_end(base: u64, count: usize, w: &WPacked) -> (yes: bool)
    requires
        count > 0,
    ensures
        yes == (base + count * dense_bytes(*w) <= u64::MAX),
{
    let ghost elems = w.out_features * w.in_features;
    proof {
        assert(0 <= elems <= 0xffff_ffff_ffff_ffff * 0xffff_ffff_ffff_ffff) by (nonlinear_arith)
            requires
                elems == w.out_features * w.in_features,
                w.out_features <= 0xffff_ffff_ffff_ffff,
                w.in_features <= 0xffff_ffff_ffff_ffff,
        ;
        assert(elems * 2 <= count * (elems * 2)) by (nonlinear_arith)
            requires
                count > 0,
                elems >= 0,
        ;
    }
    let elems: u128 = w.out_features as u128 * w.in_features as u128;
    if elems > u64::MAX as u128 {
        return false;
    }
    if elems * 2 > u64::MAX as u128 {
        return false;
    }
    proof {
        assert(0 <= count * (elems * 2) <= 0xffff_ffff_ffff_ffff * 0xffff_ffff_ffff_ffff)
            by (nonlinear_arith)
            requires
                elems * 2 <= 0xffff_ffff_ffff_ffff,
                count <= 0xffff_ffff_ffff_ffff,
        ;
    }
    count as u128 * (elems * 2) <= (u64::MAX - base) as u128
}

/// What brings the per-layer embeddings up.
struct E4bPlan {
    ops: Vec<DeviceOp>,
    runtime: Gemma4E4bRuntime,
}

impl E4bModel {
    pub open spec fn layer_ptrs(&self, at: E4bAddresses, i: int) -> Gemma4E4bLayerPtrs {
        Gemma4E4bLayerPtrs {
            gate_w: (at.gate_w + i * self.gate_slice()) as u64,
            proj_w: (at.proj_w + i * self.proj_slice()) as u64,
            post_norm: self.layers@[i].post_per_layer_input_norm,
            kv_share_src: self.layers@[i].kv_share_src,
        }
    }

    /// The expansions of the first `n` layers, or the first refusal.
    pub open spec fn layer_expansions(&self, at: E4bAddresses, n: int) -> Result<
        Seq<DeviceOp>,
        E4bFault,
    >
        decreases n,
    {
        if n <= 0 {
            Ok(Seq::empty())
        } else {
            let ptrs = self.layer_ptrs(at, n - 1);
            match self.layer_expansions(at, n - 1) {
                Err(fault) => Err(fault),
                Ok(before) => match expand(
                    self.layers@[n - 1].per_layer_input_gate,
                    ptrs.gate_w,
                ) {
                    Err(fault) => Err(fault),
                    Ok(a) => match expand(
                        self.layers@[n - 1].per_layer_projection,
                        ptrs.proj_w,
                    ) {
                        Err(fault) => Err(fault),
                        Ok(b) => Ok(before + seq![a, b]),
                    },
                },
            }
        }
    }

    /// The model projection, then every layer's two weights, then a wait.
    pub open spec fn expansions(&self, has_dequant: bool, at: E4bAddresses) -> Result<
        Seq<DeviceOp>,
        E4bFault,
    > {
        if self.per_layer_model_projection.fault() is Some {
            Err(E4bFault::Pack(self.per_layer_model_projection.fault()->0))
        } else if !has_dequant {
            Err(E4bFault::DequantKernelAbsent)
        } else {
            match expand(self.per_layer_model_projection, at.model_projection) {
                Err(fault) => Err(fault),
                Ok(op) => match self.layer_expansions(at, self.layers@.len() as int) {
                    Err(fault) => Err(fault),
                    Ok(ops) => Ok(seq![op] + ops + seq![DeviceOp::Fence]),
                },
            }
        }
    }

    /// What the layers of a model that is up read.
    pub open spec fn is_runtime(
        &self,
        rt: Gemma4E4bRuntime,
        at: E4bAddresses,
        h_ple: u32,
        window: u32,
    ) -> bool {
        &&& rt.layers@ == Seq::new(self.layers@.len(), |i: int| self.layer_ptrs(at, i))
        &&& rt.h_ple == h_ple
        &&& rt.per_layer_inputs == at.per_layer_inputs
        &&& rt.sliding_window == window
    }

    /// The slices can be addressed.
    pub open spec fn slices_fit(&self, at: E4bAddresses) -> bool {
        &&& self.layers@.len() > 0
        &&& at.gate_w + self.layers@.len() * self.gate_slice() <= u64::MAX
        &&& at.proj_w + self.layers@.len() * self.proj_slice() <= u64::MAX
    }

    /// Tells whether the slices can be addressed.
    pub fn check_slices(&self, at: &E4bAddresses) -> (yes: bool)
        ensures
            yes == self.slices_fit(*at),
    {
        if self.layers.len() == 0 {
            return false;
        }
        let n: usize = self.layers.len();
        reaches_end(at.gate_w, n, &self.layers[0].per_layer_input_gate) && reaches_end(
            at.proj_w,
            n,
            &self.layers[0].per_layer_projection,
        )
    }

    proof fn lemma_refusal_persists(&self, at: E4bAddresses, n: int, m: int)
        requires
            0 <= n <= m,
            self.layer_expansions(at, n) is Err,
        ensures
            self.layer_expansions(at, m) == self.layer_expansions(at, n),
        decreases m,
    {
        if n < m {
            self.lemma_refusal_persists(at, n, m - 1);
        }
    }
}

proof fn lemma_slice(i: int, n: int, slice: int)
    by (nonlinear_arith)
    requires
        0 <= i < n,
        0 <= slice,
    ensures
        0 <= i * slice,
        i * slice + slice <= n * slice,
        slice <= n * slice,
{
}

/// Expands the model projection and the two weights of every layer, and gathers what the layers
/// read.
fn fresh_plan(m: &E4bModel, req: &E4bRequest, window: u32, has_dequant: bool, at: &E4bAddresses) -> (r:
    Result<E4bPlan, E4bFault>)
    requires
        m.slices_fit(*at),
        req.admission(m.layers@.len() as int) == Ok::<u32, E4bFault>(window),
    ensures
        match m.expansions(has_dequant, *at) {
            Err(fault) => r == Err::<E4bPlan, E4bFault>(fault),
            Ok(ops) => r is Ok && r->Ok_0.ops@ == ops && m.is_runtime(
                r->Ok_0.runtime,
                *at,
                req.h_ple,
                window,
            ),
        },
{
    if let Err(fault) = m.per_layer_model_projection.validate() {
        return Err(E4bFault::Pack(fault));
    }
    if !has_dequant {
        return Err(E4bFault::DequantKernelAbsent);
    }
    let mut ops: Vec<DeviceOp> = Vec::new();
    match expand_pack(&m.per_layer_model_projection, at.model_projection) {
        Ok(op) => ops.push(op),
        Err(fault) => return Err(fault),
    }
    let ghost head = ops@;
    let n: usize = m.layers.len();
    let gate = m.layers[0].per_layer_input_gate;
    let proj = m.layers[0].per_layer_projection;
    proof {
        let g = gate.out_features * gate.in_features;
        let p = proj.out_features * proj.in_features;
        assert(g >= 0) by (nonlinear_arith)
            requires
                g == gate.out_features * gate.in_features,
        ;
        assert(p >= 0) by (nonlinear_arith)
            requires
                p == proj.out_features * proj.in_features,
        ;
        lemma_slice(0, n as int, m.gate_slice());
        lemma_slice(0, n as int, m.proj_slice());
    }
    let gate_slice: u64 = gate.out_features as u64 * gate.in_features as u64 * 2;
    let proj_slice: u64 = proj.out_features as u64 * proj.in_features as u64 * 2;
    let mut layers: Vec<Gemma4E4bLayerPtrs> = Vec::new();
    let mut i: usize = 0;
    while i < n
        invariant
            n == m.layers@.len(),
            i <= n,
            m.slices_fit(*at),
            gate_slice == m.gate_slice(),
            proj_slice == m.proj_slice(),
            layers@ == Seq::new(i as nat, |k: int| m.layer_ptrs(*at, k)),
            m.layer_expansions(*at, i as int) is Ok,
            ops@ == head + m.layer_expansions(*at, i as int)->Ok_0,
            has_dequant,
            m.per_layer_model_projection.fault() is None,
            expand(m.per_layer_model_projection, at.model_projection) == Ok::<DeviceOp, E4bFault>(
                head[0],
            ),
            head.len() == 1,
        decreases n - i,
    {
        proof {
            lemma_slice(i as int, n as int, m.gate_slice());
            lemma_slice(i as int, n as int, m.proj_slice());
        }
        let layer = &m.layers[i];
        let ptrs = Gemma4E4bLayerPtrs {
            gate_w: at.gate_w + i as u64 * gate_slice,
            proj_w: at.proj_w + i as u64 * proj_slice,
            post_norm: layer.post_per_layer_input_norm,
            kv_share_src: layer.kv_share_src,
        };
        assert(ptrs == m.layer_ptrs(*at, i as int));
        match expand_pack(&layer.per_layer_input_gate, ptrs.gate_w) {
            Ok(op) => ops.push(op),
            Err(fault) => {
                proof {
                    m.lemma_refusal_persists(*at, i + 1, n as int);
                }
                return Err(fault);
            },
        }
        match expand_pack(&layer.per_layer_projection, ptrs.proj_w) {
            Ok(op) => ops.push(op),
            Err(fault) => {
                proof {
                    m.lemma_refusal_persists(*at, i + 1, n as int);
                }
                return Err(fault);
            },
        }
        layers.push(ptrs);
        assert(ops@ =~= head + m.layer_expansions(*at, i + 1)->Ok_0);
        assert(layers@ =~= Seq::new((i + 1) as nat, |k: int| m.layer_ptrs(*at, k)));
        i += 1;
    }
    ops.push(DeviceOp::Fence);
    assert(head =~= seq![head[0]]);
    assert(ops@ =~= m.expansions(has_dequant, *at)->Ok_0);
    Ok(
        E4bPlan {
            ops,
            runtime: Gemma4E4bRuntime {
                layers,
                h_ple: req.h_ple,
                per_layer_inputs: at.per_layer_inputs,
                sliding_window: window,
            },
        },
    )
}

/// The per-layer embeddings of an engine, once they are up.
#[derive(Debug)]
pub struct E4bState {
    pub runtime: Gemma4E4bRuntime,
    pub at: E4bAddresses,
    /// Tokens that the buffers hold.
    pub max_tokens: u32,
}

/// What is run, and the state afterwards.
#[derive(Debug)]
pub struct E4bPopulated {
    pub ops: Vec<DeviceOp>,
    pub state: Option<E4bState>,
}

impl<'a> E4bRequest<'a> {
    /// The state already is what the request asks for.
    pub open spec fn is_up(self, loaded: int, current: Option<E4bState>, max_tokens: u32) -> bool {
        &&& current is Some
        &&& current->0.max_tokens == max_tokens
        &&& current->0.runtime.h_ple == self.h_ple
        &&& current->0.runtime.layers@.len() == loaded
        &&& self.admission(loaded) == Ok::<u32, E4bFault>(current->0.runtime.sliding_window)
    }

    fn check_up(&self, window: u32, loaded: usize, current: &Option<E4bState>, max_tokens: u32) -> (
        yes: bool)
        requires
            self.admission(loaded as int) == Ok::<u32, E4bFault>(window),
        ensures
            yes == self.is_up(loaded as int, *current, max_tokens),
    {
        match current {
            None => false,
            Some(s) => s.max_tokens == max_tokens && s.runtime.h_ple == self.h_ple
                && s.runtime.layers.len() == loaded && s.runtime.sliding_window == window,
        }
    }
}

/// Tells whether bringing the per-layer embeddings up takes memory: not without them, and not
/// where they are up already.
pub fn needs_memory(
    model: Option<&E4bModel>,
    req: &E4bRequest,
    max_tokens: u32,
    current: &Option<E4bState>,
) -> (r: Result<bool, E4bFault>)
    ensures
        match model {
            None => r == Ok::<bool, E4bFault>(false),
            Some(m) => match req.admission(m.layers@.len() as int) {
                Err(fault) => r == Err::<bool, E4bFault>(fault),
                Ok(_) => r == Ok::<bool, E4bFault>(
                    !req.is_up(m.layers@.len() as int, *current, max_tokens),
                ),
            },
        },
{
    let m = match model {
        Some(m) => m,
        None => return Ok(false),
    };
    match req.accept(m.layers.len()) {
        Ok(window) => Ok(!req.check_up(window, m.layers.len(), current, max_tokens)),
        Err(fault) => Err(fault),
    }
}

/// What bringing the per-layer embeddings up comes to.
pub open spec fn is_populated(
    r: Result<E4bPopulated, E4bFault>,
    model: Option<&E4bModel>,
    req: E4bRequest,
    has_dequant: bool,
    at: E4bAddresses,
    max_tokens: u32,
    current: Option<E4bState>,
) -> bool {
    match model {
        None => r is Ok && r->Ok_0.ops@.len() == 0 && r->Ok_0.state == current,
        Some(m) => match req.admission(m.layers@.len() as int) {
            Err(fault) => r == Err::<E4bPopulated, E4bFault>(fault),
            Ok(window) => if req.is_up(m.layers@.len() as int, current, max_tokens) {
                r is Ok && r->Ok_0.ops@.len() == 0 && r->Ok_0.state == current
            } else {
                match m.expansions(has_dequant, at) {
                    Err(fault) => r == Err::<E4bPopulated, E4bFault>(fault),
                    Ok(ops) => {
                        &&& r is Ok
                        &&& r->Ok_0.ops@ == ops
                        &&& r->Ok_0.state is Some
                        &&& r->Ok_0.state->0.at == at
                        &&& r->Ok_0.state->0.max_tokens == max_tokens
                        &&& m.is_runtime(r->Ok_0.state->0.runtime, at, req.h_ple, window)
                    },
                }
            },
        },
    }
}

/// Brings the per-layer embeddings of a model up, for passes of up to `max_tokens` tokens.  A
/// model without per-layer embeddings has nothing to bring up, and neither has one whose
/// embeddings are up already.
pub fn populate_e4b(
    model: Option<&E4bModel>,
    req: &E4bRequest,
    has_dequant: bool,
    at: &E4bAddresses,
    max_tokens: u32,
    current: Option<E4bState>,
) -> (r: Result<E4bPopulated, E4bFault>)
    requires
        model matches Some(m) ==> m.layers@.len() > 0 && !req.is_up(
            m.layers@.len() as int,
            current,
            max_tokens,
        ) ==> m.slices_fit(*at),
    ensures
        is_populated(r, model, *req, has_dequant, *at, max_tokens, current),
{
    let m = match model {
        Some(m) => m,
        None => return Ok(E4bPopulated { ops: Vec::new(), state: current }),
    };
    let window: u32 = match req.accept(m.layers.len()) {
        Ok(window) => window,
        Err(fault) => return Err(fault),
    };
    if req.check_up(window, m.layers.len(), &current, max_tokens) {
        return Ok(E4bPopulated { ops: Vec::new(), state: current });
    }
    match fresh_plan(m, req, window, has_dequant, at) {
        Ok(plan) => Ok(
            E4bPopulated {
                ops: plan.ops,
                state: Some(E4bState { runtime: plan.runtime, at: *at, max_tokens }),
            },
        ),
        Err(fault) => Err(fault),
    }
}

/// Bringing the embeddings up is idempotent for a given number of tokens: where it succeeded,
/// doing it again takes no memory, runs nothing, and leaves the state as it is, whatever
/// addresses are offered.
pub proof fn law_populating_is_idempotent(
    model: Option<&E4bModel>,
    req: E4bRequest,
    has_dequant: bool,
    first_at: E4bAddresses,
    second_at: E4bAddresses,
    max_tokens: u32,
    before: Option<E4bState>,
    first: Result<E4bPopulated, E4bFault>,
    second: Result<E4bPopulated, E4bFault>,
)
    requires
        is_populated(first, model, req, has_dequant, first_at, max_tokens, before),
        first is Ok,
        is_populated(second, model, req, has_dequant, second_at, max_tokens, first->Ok_0.state),
    ensures
        model matches Some(m) ==> req.is_up(
            m.layers@.len() as int,
            first->Ok_0.state,
            max_tokens,
        ),
        second is Ok,
        second->Ok_0.ops@.len() == 0,
        second->Ok_0.state == first->Ok_0.state,
{
}

/// Where every layer is shaped as the first, the dense weights of the layers tile their region:
/// a slice ends where the next begins, and the last ends with the region.
pub proof fn law_dense_weights_tile_their_region(
    m: E4bModel,
    sizes: E4bRegions,
    at: E4bAddresses,
    i: int,
)
    requires
        m.slices_fit(at),
        0 <= i < m.layers@.len(),
        sizes.gate_w == m.layers@.len() * m.gate_slice(),
        sizes.proj_w == m.layers@.len() * m.proj_slice(),
        dense_bytes(m.layers@[i].per_layer_input_gate) == m.gate_slice(),
        dense_bytes(m.layers@[i].per_layer_projection) == m.proj_slice(),
    ensures
        at.gate_w <= m.layer_ptrs(at, i).gate_w,
        m.layer_ptrs(at, i).gate_w + dense_bytes(m.layers@[i].per_layer_input_gate) <= at.gate_w
            + sizes.gate_w,
        i + 1 < m.layers@.len() ==> m.layer_ptrs(at, i + 1).gate_w == m.layer_ptrs(at, i).gate_w
            + dense_bytes(m.layers@[i].per_layer_input_gate),
        at.proj_w <= m.layer_ptrs(at, i).proj_w,
        m.layer_ptrs(at, i).proj_w + dense_bytes(m.layers@[i].per_layer_projection) <= at.proj_w
            + sizes.proj_w,
        i + 1 < m.layers@.len() ==> m.layer_ptrs(at, i + 1).proj_w == m.layer_ptrs(at, i).proj_w
            + dense_bytes(m.layers@[i].per_layer_projection),
{
    let n = m.layers@.len() as int;
    let g = m.layers@[0].per_layer_input_gate;
    let p = m.layers@[0].per_layer_projection;
    assert(dense_bytes(g) >= 0) by (nonlinear_arith)
        requires
            dense_bytes(g) == g.out_features * g.in_features * 2,
    ;
    assert(dense_bytes(p) >= 0) by (nonlinear_arith)
        requires
            dense_bytes(p) == p.out_features * p.in_features * 2,
    ;
    lemma_slice(i, n, m.gate_slice());
    lemma_slice(i, n, m.proj_slice());
    if i + 1 < n {
        lemma_slice(i + 1, n, m.gate_slice());
        lemma_slice(i + 1, n, m.proj_slice());
        let gs = m.gate_slice();
        let ps = m.proj_slice();
        assert((i + 1) * gs == i * gs + gs) by (nonlinear_arith);
        assert((i + 1) * ps == i * ps + ps) by (nonlinear_arith);
    }
}

// ---------------------------------------------------------------------------
// Every step
// ---------------------------------------------------------------------------

/// What the combination of per-layer inputs reads and writes.
#[derive(Copy, Clone, Debug, PartialEq, Eq, Structural)]
pub struct PleCombine {
    pub num_layers: u32,
    pub h_ple: u32,
    pub hidden: u32,
    pub vocab: u32,
    pub eps_bits: u32,
    /// Tokens that the buffers hold.
    pub max_tokens: u32,
    pub has_embed_kernel: bool,
    pub has_combine_kernel: bool,
    pub embed_tokens_per_layer: u64,
    pub projection_norm: u64,
    pub at: E4bAddresses,
}

impl PleCombine {
    pub open spec fn row(self) -> int {
        self.num_layers * self.h_ple
    }

    /// Every size that a step of at most `max_tokens` tokens computes fits the kernels.
    pub open spec fn fits(self) -> bool {
        self.row() <= i32::MAX && self.max_tokens * self.row() <= u32::MAX
    }

    pub open spec fn fault(self, num_tokens: u32) -> Option<E4bFault> {
        if num_tokens > self.max_tokens {
            Some(E4bFault::TooManyTokens)
        } else if !self.has_embed_kernel {
            Some(E4bFault::EmbedKernelAbsent)
        } else if !self.has_combine_kernel {
            Some(E4bFault::CombineKernelAbsent)
        } else {
            None
        }
    }

    /// Gather the per-layer rows, project the embedded tokens, combine the two.
    pub open spec fn work(self, num_tokens: u32, token_ids: u64, embedded: u64) -> Seq<DeviceOp> {
        seq![
            DeviceOp::EmbeddingGather {
                num_tokens,
                hidden: self.row() as u32,
                vocab: self.vocab,
                dst: self.at.gather,
                table: self.embed_tokens_per_layer,
                ids: token_ids,
            },
            DeviceOp::F16GemmF32 {
                a: embedded,
                b: self.at.model_projection,
                out: self.at.proj_f32,
                m: num_tokens,
                n: self.row() as u32,
                k: self.hidden,
            },
            DeviceOp::F32ToF16Sat {
                n: (num_tokens * self.row()) as u32,
                dst: self.at.proj_f16,
                src: self.at.proj_f32,
            },
            DeviceOp::PleProjectionCombine {
                num_tokens,
                num_layers: self.num_layers,
                h_ple: self.h_ple,
                hidden: self.hidden,
                eps_bits: self.eps_bits,
                projection: self.at.proj_f16,
                gathered: self.at.gather,
                norm_gamma: self.projection_norm,
                out: self.at.per_layer_inputs,
            },
        ]
    }

    /// Tells whether the steps can be planned.
    pub fn check_fits(&self) -> (yes: bool)
        ensures
            yes == self.fits(),
    {
        proof {
            assert(self.num_layers * self.h_ple <= 0xffff_ffff_0000_0000) by (nonlinear_arith);
            assert(self.num_layers * self.h_ple >= 0) by (nonlinear_arith);
        }
        let row: u64 = self.num_layers as u64 * self.h_ple as u64;
        if row > i32::MAX as u64 {
            return false;
        }
        proof {
            assert(self.max_tokens * row <= 0xffff_ffff * 0x7fff_ffff) by (nonlinear_arith)
                requires
                    row <= 0x7fff_ffff,
                    self.max_tokens <= 0xffff_ffff,
            ;
            assert(self.max_tokens * row >= 0) by (nonlinear_arith);
        }
        self.max_tokens as u64 * row <= u32::MAX as u64
    }
}

/// Fills the per-layer inputs of a step.  Without per-layer embeddings there is nothing to do.
pub fn run_ple_combine(
    combine: Option<&PleCombine>,
    num_tokens: u32,
    token_ids: u64,
    embedded: u64,
) -> (r: Result<Vec<DeviceOp>, E4bFault>)
    requires
        combine matches Some(c) ==> c.fits(),
    ensures
        match combine {
            None => r is Ok && r->Ok_0@ == Seq::<DeviceOp>::empty(),
            Some(c) => match c.fault(num_tokens) {
                Some(fault) => r == Err::<Vec<DeviceOp>, E4bFault>(fault),
                None => r is Ok && r->Ok_0@ == c.work(num_tokens, token_ids, embedded),
            },
        },
{
    let mut ops: Vec<DeviceOp> = Vec::new();
    let c = match combine {
        Some(c) => c,
        None => return Ok(ops),
    };
    if num_tokens > c.max_tokens {
        return Err(E4bFault::TooManyTokens);
    }
    if !c.has_embed_kernel {
        return Err(E4bFault::EmbedKernelAbsent);
    }
    if !c.has_combine_kernel {
        return Err(E4bFault::CombineKernelAbsent);
    }
    proof {
        let row = c.row();
        assert(0 <= num_tokens * row <= c.max_tokens * row) by (nonlinear_arith)
            requires
                0 <= row,
                num_tokens <= c.max_tokens,
        ;
        assert(c.num_layers * c.h_ple >= 0) by (nonlinear_arith);
    }
    let row: u32 = c.num_layers * c.h_ple;
    ops.push(
        DeviceOp::EmbeddingGather {
            num_tokens,
            hidden: row,
            vocab: c.vocab,
            dst: c.at.gather,
            table: c.embed_tokens_per_layer,
            ids: token_ids,
        },
    );
    ops.push(
        DeviceOp::F16GemmF32 {
            a: embedded,
            b: c.at.model_projection,
            out: c.at.proj_f32,
            m: num_tokens,
            n: row,
            k: c.hidden,
        },
    );
    ops.push(
        DeviceOp::F32ToF16Sat { n: num_tokens * row, dst: c.at.proj_f16, src: c.at.proj_f32 },
    );
    ops.push(
        DeviceOp::PleProjectionCombine {
            num_tokens,
            num_layers: c.num_layers,
            h_ple: c.h_ple,
            hidden: c.hidden,
            eps_bits: c.eps_bits,
            projection: c.at.proj_f16,
            gathered: c.at.gather,
            norm_gamma: c.projection_norm,
            out: c.at.per_layer_inputs,
        },
    );
    assert(ops@ =~= c.work(num_tokens, token_ids, embedded));
    Ok(ops)
}

} // verus!
