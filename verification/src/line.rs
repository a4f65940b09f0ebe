use vstd::prelude::*;

use crate::bits::{biased_exp, floor_mag, is_nan_bits, lt_zero, whole_part};
use crate::engine::{convolved, history_after, stream_outputs, FirFilter};
use crate::errors::FilterError;
use crate::synth::{frac_bits_spec, kernel_len_spec, synthesize, weight_spec};

verus! {

/// The fractional delay line: one coefficient synthesis at construction,
/// then a streaming convolution. This is the only type the surrounding
/// system needs to touch.
pub struct FractionalDelay {
    fir_filter: FirFilter,
}

/// The weight sequence a delay pattern synthesizes to, given the per-tap
/// sine and cosine tables.
pub open spec fn kernel_spec(delay_bits: u64, sines: Seq<u64>, cosines: Seq<u64>) -> Seq<u64> {
    Seq::new(
        kernel_len_spec(delay_bits) as nat,
        |t: int|
            weight_spec(
                t,
                frac_bits_spec(delay_bits),
                whole_part(delay_bits),
                sines[t],
                cosines[t],
            ),
    )
}

impl FractionalDelay {
    /// Well-formed whenever construction succeeded.
    pub closed spec fn wf(self) -> bool {
        self.fir_filter.wf()
    }

    /// The synthesized weight sequence the line convolves with.
    pub closed spec fn weights(self) -> Seq<u64> {
        self.fir_filter.weights()
    }

    /// The retained input history, newest first.
    pub closed spec fn history(self) -> Seq<u64> {
        self.fir_filter.history()
    }

    /// The filter length N.
    pub closed spec fn taps(self) -> int {
        self.fir_filter.taps()
    }

    /// Builds the line for the delay given as a binary64 bit pattern: the
    /// synthesized kernel drives a zero-filled convolution engine. Fails
    /// with `InvalidParameter` exactly on a negative delay; the sine and
    /// cosine tables are as `synthesize` asks.
    pub fn new(delay_bits: u64, sines: &Vec<u64>, cosines: &Vec<u64>) -> (r: Result<
        FractionalDelay,
        FilterError,
    >)
        requires
            is_nan_bits(delay_bits) || lt_zero(delay_bits) || (biased_exp(delay_bits) < 1075 && 2
                * floor_mag(delay_bits) + 1 <= usize::MAX),
            !lt_zero(delay_bits) ==> sines@.len() == kernel_len_spec(delay_bits)
                && cosines@.len() == kernel_len_spec(delay_bits),
        ensures
            lt_zero(delay_bits) <==> r is Err,
            r is Err ==> r->Err_0 == FilterError::InvalidParameter,
            r is Ok ==> r->Ok_0.wf() && r->Ok_0.taps() == kernel_len_spec(delay_bits)
                && r->Ok_0.weights() =~= kernel_spec(delay_bits, sines@, cosines@)
                && r->Ok_0.history() =~= Seq::new(kernel_len_spec(delay_bits) as nat, |n: int| 0u64),
    {
        let weights = match synthesize(delay_bits, sines, cosines) {
            Err(e) => { return Err(e) },
            Ok(w) => w,
        };
        match FirFilter::new(weights) {
            Err(e) => {
                proof {
                    // the synthesized kernel has at least one tap
                    assert(false);
                }
                Err(e)
            },
            Ok(f) => {
                proof {
                    let n_len = kernel_len_spec(delay_bits);
                    assert(f.weights() =~= kernel_spec(delay_bits, sines@, cosines@)) by {
                        assert forall|t: int| 0 <= t < n_len implies f.weights()[t] == kernel_spec(
                            delay_bits,
                            sines@,
                            cosines@,
                        )[t] by {
                            assert(f.weights()[t] == weights@[t]);
                        }
                    }
                    assert(f.history() =~= Seq::new(n_len as nat, |n: int| 0u64)) by {
                        assert forall|n: int| 0 <= n < n_len implies f.history()[n] == 0u64 by {
                            assert(f.history()[n] == Seq::new(weights@.len(), |k: int| 0u64)[n]);
                        }
                    }
                }
                Ok(FractionalDelay { fir_filter: f })
            },
        }
    }

    /// The filter length N, fixed for the line's lifetime.
    pub fn len(&self) -> (n: usize)
        ensures
            n == self.taps(),
    {
        self.fir_filter.len()
    }

    /// Processes one sample: a pure forward to the convolution engine. The
    /// history shifts by one, its length never changes, and the output is
    /// the weighted sum over the new history.
    pub fn process(&mut self, input: u64) -> (out: u64)
        requires
            old(self).wf(),
        ensures
            final(self).wf(),
            final(self).weights() == old(self).weights(),
            final(self).taps() == old(self).taps(),
            final(self).history() =~= seq![input] + old(self).history().take(
                old(self).taps() - 1,
            ),
            out == convolved(old(self).weights(), final(self).history()),
    {
        self.fir_filter.process(input)
    }

    /// Feeds a whole block of samples in order and collects the outputs:
    /// the output stream is a function of the weights, the prior history
    /// and the inputs alone.
    pub fn process_block(&mut self, inputs: &Vec<u64>) -> (outs: Vec<u64>)
        requires
            old(self).wf(),
        ensures
            final(self).wf(),
            final(self).weights() == old(self).weights(),
            final(self).taps() == old(self).taps(),
            outs@ =~= stream_outputs(old(self).weights(), old(self).history(), inputs@),
            final(self).history() =~= history_after(
                old(self).history(),
                inputs@,
                inputs@.len() as int,
            ),
    {
        self.fir_filter.process_block(inputs)
    }
}

} // verus!
