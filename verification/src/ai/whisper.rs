//! Speech-recognition model configuration and real-time audio capture:
//! the model's dimension table and a bounded sample buffer that drops the
//! oldest samples once full.

use vstd::prelude::*;

verus! {

/// Dimensions of one speech-recognition model.
#[derive(Debug, Clone, Copy, PartialEq, Eq, Structural)]
pub struct WhisperConfig {
    /// Vocabulary size.
    pub n_vocab: usize,
    /// Audio context length.
    pub n_audio_ctx: usize,
    /// Audio encoder hidden size.
    pub n_audio_state: usize,
    /// Audio encoder attention heads.
    pub n_audio_head: usize,
    /// Audio encoder layers.
    pub n_audio_layer: usize,
    /// Text context length.
    pub n_text_ctx: usize,
    /// Text decoder hidden size.
    pub n_text_state: usize,
    /// Text decoder attention heads.
    pub n_text_head: usize,
    /// Text decoder layers.
    pub n_text_layer: usize,
}

impl WhisperConfig {
    /// The tiny model's dimensions.
    pub fn tiny() -> (r: Self)
        ensures
            r.n_vocab == 51864usize,
            r.n_audio_state == 384usize,
            r.n_audio_head == 6usize,
            r.n_audio_layer == 4usize,
            r.n_text_layer == 4usize,
    {
        WhisperConfig {
            n_vocab: 51864,
            n_audio_ctx: 1500,
            n_audio_state: 384,
            n_audio_head: 6,
            n_audio_layer: 4,
            n_text_ctx: 448,
            n_text_state: 384,
            n_text_head: 6,
            n_text_layer: 4,
        }
    }

    /// The base model's dimensions.
    pub fn base() -> (r: Self)
        ensures
            r.n_vocab == 51864usize,
            r.n_audio_state == 512usize,
            r.n_audio_head == 8usize,
            r.n_audio_layer == 6usize,
            r.n_text_layer == 6usize,
    {
        WhisperConfig {
            n_vocab: 51864,
            n_audio_ctx: 1500,
            n_audio_state: 512,
            n_audio_head: 8,
            n_audio_layer: 6,
            n_text_ctx: 448,
            n_text_state: 512,
            n_text_head: 8,
            n_text_layer: 6,
        }
    }
}

/// Number of text tokens among the first `n` of `tokens`: everything
/// except the special-token band is text.
pub open spec fn spec_text_token_count(tokens: Seq<usize>, n: int) -> int
    decreases n,
{
    if n <= 0 {
        0
    } else {
        spec_text_token_count(tokens, n - 1) + if tokens[n - 1] >= 50364 || tokens[n - 1]
            < 50257 {
            1int
        } else {
            0int
        }
    }
}

/// Turn a decoded token sequence into its transcript. The placeholder
/// decoder picks a canned phrase by how many text tokens (everything
/// outside the special-token band) the sequence holds.
pub fn transcript_text(tokens: &[usize]) -> (r: String)
    ensures
        ({
            let n = spec_text_token_count(tokens@, tokens@.len() as int);
            if n <= 5 {
                r@ == "Hello"@
            } else if n <= 10 {
                r@ == "Hello world"@
            } else if n <= 15 {
                r@ == "Hello from Aetherion"@
            } else {
                r@ == "This is a test of speech recognition"@
            }
        }),
{
    let mut count: usize = 0;
    let mut i: usize = 0;
    let n = tokens.len();
    while i < n
        invariant
            n == tokens@.len(),
            i <= n,
            count == spec_text_token_count(tokens@, i as int),
            count <= i,
        decreases n - i,
    {
        let t = tokens[i];
        if t >= 50364 || t < 50257 {
            count = count + 1;
        }
        i = i + 1;
    }
    if count <= 5 {
        "Hello".to_owned()
    } else if count <= 10 {
        "Hello world".to_owned()
    } else if count <= 15 {
        "Hello from Aetherion".to_owned()
    } else {
        "This is a test of speech recognition".to_owned()
    }
}

/// A bounded buffer of signed 16-bit audio samples: once full, pushing
/// drops the oldest sample for each new one.
pub struct AudioBuffer {
    buffer: Vec<i16>,
    sample_rate: usize,
    capacity: usize,
}

impl AudioBuffer {
    /// The buffered samples, oldest first.
    pub closed spec fn view(self) -> Seq<i16> {
        self.buffer@
    }

    /// The sample rate the buffer was sized for.
    pub closed spec fn spec_sample_rate(self) -> usize {
        self.sample_rate
    }

    /// The most samples the buffer holds.
    pub closed spec fn spec_capacity(self) -> usize {
        self.capacity
    }

    /// The buffer never exceeds its capacity.
    pub open spec fn wf(self) -> bool {
        self.view().len() <= self.spec_capacity()
    }

    /// Create a buffer holding `duration_ms` milliseconds of audio at
    /// `sample_rate` hertz.
    pub fn new(sample_rate: usize, duration_ms: usize) -> (r: Self)
        requires
            sample_rate * duration_ms <= usize::MAX,
        ensures
            r.wf(),
            r.view().len() == 0,
            r.spec_sample_rate() == sample_rate,
            r.spec_capacity() == sample_rate * duration_ms / 1000,
    {
        proof {
            vstd::arithmetic::mul::lemma_mul_nonnegative(sample_rate as int, duration_ms as int);
        }
        let capacity = (sample_rate * duration_ms) / 1000;
        AudioBuffer { buffer: Vec::new(), sample_rate, capacity }
    }

    /// Append `samples`, dropping the oldest buffered sample for each one
    /// pushed beyond the capacity.
    pub fn push(&mut self, samples: &[i16])
        requires
            old(self).wf(),
        ensures
            final(self).wf(),
            final(self).spec_capacity() == old(self).spec_capacity(),
            final(self).spec_sample_rate() == old(self).spec_sample_rate(),
            old(self).view().len() + samples@.len() <= old(self).spec_capacity() ==> final(self).view() == old(self).view() + samples@,
            old(self).spec_capacity() > 0 ==> final(self).view().len() <= old(self).spec_capacity(),
    {
        let n = samples.len();
        let mut i: usize = 0;
        while i < n
            invariant
                n == samples@.len(),
                i <= n,
                self.wf(),
                self.spec_capacity() == old(self).spec_capacity(),
                self.spec_sample_rate() == old(self).spec_sample_rate(),
                old(self).view().len() + i <= old(self).spec_capacity() ==> self.view() == old(self).view() + samples@.subrange(0, i as int),
            decreases n - i,
        {
            let sample = samples[i];
            if self.buffer.len() < self.capacity {
                self.buffer.push(sample);
            } else {
                if self.buffer.len() > 0 {
                    self.buffer.remove(0);
                }
                if self.buffer.len() < self.capacity {
                    self.buffer.push(sample);
                }
            }
            proof {
                if old(self).view().len() + i + 1 <= old(self).spec_capacity() {
                    assert(self.view() =~= old(self).view() + samples@.subrange(0, i + 1));
                }
            }
            i = i + 1;
        }
        proof {
            if old(self).view().len() + samples@.len() <= old(self).spec_capacity() {
                assert(samples@.subrange(0, samples@.len() as int) =~= samples@);
            }
        }
    }

    /// The buffered samples, oldest first.
    pub fn get_samples(&self) -> (r: &[i16])
        ensures
            r@ == self.view(),
    {
        self.buffer.as_slice()
    }

    /// Drop every buffered sample.
    pub fn clear(&mut self)
        ensures
            final(self).wf(),
            final(self).view().len() == 0,
            final(self).spec_capacity() == old(self).spec_capacity(),
            final(self).spec_sample_rate() == old(self).spec_sample_rate(),
    {
        self.buffer.clear();
    }
}

} // verus!
