//! Transformer layer shapes: the dimension bookkeeping of attention and
//! feed-forward blocks. The forward passes over tensors live outside
//! this library.

use vstd::prelude::*;

verus! {

/// Multi-head attention: model width split across heads.
pub struct MultiHeadAttention {
    n_heads: usize,
    d_model: usize,
    d_head: usize,
}

impl MultiHeadAttention {
    /// Number of attention heads.
    pub closed spec fn spec_n_heads(self) -> usize {
        self.n_heads
    }

    /// Model width.
    pub closed spec fn spec_d_model(self) -> usize {
        self.d_model
    }

    /// Width of one head: the model width divided by the head count.
    pub closed spec fn spec_d_head(self) -> usize {
        self.d_head
    }

    /// Create an attention block of `n_heads` heads over width `d_model`.
    pub fn new(n_heads: usize, d_model: usize) -> (r: Self)
        requires
            n_heads > 0,
        ensures
            r.spec_n_heads() == n_heads,
            r.spec_d_model() == d_model,
            r.spec_d_head() == d_model as int / n_heads as int,
    {
        let d_head = d_model / n_heads;
        MultiHeadAttention { n_heads, d_model, d_head }
    }
}

/// Feed-forward block: model width and inner width.
pub struct FeedForward {
    d_model: usize,
    d_ff: usize,
}

impl FeedForward {
    /// Model width.
    pub closed spec fn spec_d_model(self) -> usize {
        self.d_model
    }

    /// Inner width.
    pub closed spec fn spec_d_ff(self) -> usize {
        self.d_ff
    }

    /// Create a feed-forward block.
    pub fn new(d_model: usize, d_ff: usize) -> (r: Self)
        ensures
            r.spec_d_model() == d_model,
            r.spec_d_ff() == d_ff,
    {
        FeedForward { d_model, d_ff }
    }
}

/// One transformer encoder layer: attention followed by feed-forward.
pub struct TransformerEncoderLayer {
    attention: MultiHeadAttention,
    ffn: FeedForward,
}

impl TransformerEncoderLayer {
    /// The attention block.
    pub closed spec fn spec_attention(self) -> MultiHeadAttention {
        self.attention
    }

    /// The feed-forward block.
    pub closed spec fn spec_ffn(self) -> FeedForward {
        self.ffn
    }

    /// Create an encoder layer of the given widths.
    pub fn new(d_model: usize, n_heads: usize, d_ff: usize) -> (r: Self)
        requires
            n_heads > 0,
        ensures
            r.spec_attention().spec_n_heads() == n_heads,
            r.spec_attention().spec_d_model() == d_model,
            r.spec_ffn().spec_d_model() == d_model,
            r.spec_ffn().spec_d_ff() == d_ff,
    {
        TransformerEncoderLayer {
            attention: MultiHeadAttention::new(n_heads, d_model),
            ffn: FeedForward::new(d_model, d_ff),
        }
    }
}

} // verus!
