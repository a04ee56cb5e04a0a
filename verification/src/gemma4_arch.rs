//! Shape of a Gemma 4 model, as far as the runtime reads it.

use vstd::prelude::*;

verus! {

#[derive(Copy, Clone, Debug, PartialEq, Eq, Structural)]
pub enum Gemma4LayerType {
    SlidingAttention,
    GlobalAttention,
}

/// Attention shape of one layer.
#[derive(Copy, Clone, Debug, PartialEq, Eq, Structural)]
pub struct LayerShape {
    pub layer_type: Gemma4LayerType,
    pub head_dim: u32,
    pub num_kv_heads: u32,
    pub rotary_dim: u32,
}

/// Shape of a whole model.
#[derive(Debug)]
pub struct Gemma4Arch {
    pub layers: Vec<LayerShape>,
    pub hidden_size: u32,
    pub vocab_size: u32,
    pub num_attention_heads: u32,
    pub intermediate_size: u32,
    pub sliding_window_size: u32,
    pub max_position_embeddings: u32,
    /// Width of a layer's embedding, or 0 where the model has none.
    pub hidden_size_per_layer_input: u32,
    /// Rows of the per-layer embedding table.
    pub vocab_size_per_layer_input: u32,
    /// Trailing layers that read the cache of an earlier layer.
    pub num_kv_shared_layers: usize,
    pub rms_norm_eps_bits: u32,
    pub logit_softcap_bits: u32,
    pub max_head_dim: u32,
    pub max_kv_heads: u32,
}

impl Gemma4Arch {
    /// The maxima bound every layer.
    pub open spec fn wf(&self) -> bool {
        forall|l: int|
            0 <= l < self.layers@.len() ==> (#[trigger] self.layers@[l]).head_dim
                <= self.max_head_dim && self.layers@[l].num_kv_heads <= self.max_kv_heads
    }

    /// A model with per-layer embeddings.
    pub open spec fn spec_is_e4b(&self) -> bool {
        self.hidden_size_per_layer_input > 0
    }

    /// Tells whether the model has per-layer embeddings.
    pub fn is_e4b(&self) -> (yes: bool)
        ensures
            yes == self.spec_is_e4b(),
    {
        self.hidden_size_per_layer_input > 0
    }
}

} // verus!
