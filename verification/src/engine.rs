use vstd::prelude::*;

use crate::arith::{add_bits, add_of, mul_bits, mul_of};
use crate::errors::FilterError;

verus! {

// The streaming convolution engine: a fixed ring of the most recent N input
// samples (as binary64 bit patterns), a cursor marking the next slot to
// overwrite, and the weight sequence fixed at construction. Each processed
// sample overwrites the oldest slot and yields the weighted sum over the
// retained history, weight 0 on the newest sample.

/// The weighted sum over the first `n` taps, accumulated left to right from
/// a zero pattern: weight `k` multiplies the sample `k` steps older than the
/// newest one.
pub open spec fn acc_sum(w: Seq<u64>, h: Seq<u64>, n: int) -> u64
    decreases n,
{
    if n <= 0 {
        0u64
    } else {
        add_of(acc_sum(w, h, n - 1), mul_of(w[n - 1], h[n - 1]))
    }
}

/// The engine's output for weights `w` over history `h` (newest first).
pub open spec fn convolved(w: Seq<u64>, h: Seq<u64>) -> u64 {
    acc_sum(w, h, w.len() as int)
}

/// The history a buffer holds after `j` of the samples in `inputs` have been
/// fed on top of the history `pre`, newest first: the latest `j` inputs in
/// reverse order of arrival, then what remains of `pre`.
pub open spec fn history_after(pre: Seq<u64>, inputs: Seq<u64>, j: int) -> Seq<u64> {
    Seq::new(
        pre.len(),
        |n: int|
            if n < j {
                inputs[j - 1 - n]
            } else {
                pre[n - j]
            },
    )
}

/// The output stream the engine yields over `inputs`, starting from history
/// `pre`: a pure function of the weights, the prior history and the inputs
/// alone, so two engines in equal states fed equal streams emit bit-identical
/// streams.
pub open spec fn stream_outputs(w: Seq<u64>, pre: Seq<u64>, inputs: Seq<u64>) -> Seq<u64> {
    Seq::new(inputs.len(), |i: int| convolved(w, history_after(pre, inputs, i + 1)))
}

/// Determinism: the output stream is a function of the weight sequence, the
/// prior history and the input stream alone, so two engines in equal states
/// fed identical input streams emit bit-identical output streams.
pub proof fn lemma_stream_deterministic(
    w1: Seq<u64>,
    pre1: Seq<u64>,
    ins1: Seq<u64>,
    w2: Seq<u64>,
    pre2: Seq<u64>,
    ins2: Seq<u64>,
)
    requires
        w1 == w2,
        pre1 == pre2,
        ins1 == ins2,
    ensures
        stream_outputs(w1, pre1, ins1) == stream_outputs(w2, pre2, ins2),
{
}

/// The circular convolution engine of the delay line.
pub struct FirFilter {
    filter_weights: Vec<u64>,
    buffer: Vec<u64>,
    buf_index: usize,
    output: u64,
}

impl FirFilter {
    /// Well-formed: one buffer slot per weight, at least one tap, and the
    /// cursor inside the buffer.
    pub closed spec fn wf(self) -> bool {
        &&& self.buffer@.len() == self.filter_weights@.len()
        &&& self.filter_weights@.len() >= 1
        &&& self.buf_index < self.buffer@.len()
    }

    /// The fixed weight sequence.
    pub closed spec fn weights(self) -> Seq<u64> {
        self.filter_weights@
    }

    /// The filter length N: number of taps, buffer capacity.
    pub closed spec fn taps(self) -> int {
        self.filter_weights@.len() as int
    }

    /// The next slot the engine will overwrite.
    pub closed spec fn cursor(self) -> int {
        self.buf_index as int
    }

    /// The last output the engine computed.
    pub closed spec fn last_output(self) -> u64 {
        self.output
    }

    /// Where the sample `n` steps older than the newest one sits in the ring:
    /// `n` slots behind the cursor, wrapping at the lower end.
    pub closed spec fn history_index(self, n: int) -> int {
        if n < self.buf_index {
            self.buf_index - 1 - n
        } else {
            self.buf_index + self.taps() - 1 - n
        }
    }

    /// The retained history, newest first: entry `n` is the sample written
    /// `n` calls ago (zero where nothing was written yet).
    pub closed spec fn history(self) -> Seq<u64> {
        Seq::new(self.taps() as nat, |n: int| self.buffer@[self.history_index(n)])
    }

    /// Builds the engine: the weight sequence is kept as given, the ring is
    /// zero-filled, the cursor starts at slot 0. An empty weight sequence is
    /// the one invalid parameter.
    pub fn new(filter_weights: Vec<u64>) -> (r: Result<FirFilter, FilterError>)
        ensures
            filter_weights@.len() == 0 <==> r is Err,
            r is Err ==> r->Err_0 == FilterError::InvalidParameter,
            r is Ok ==> r->Ok_0.wf() && r->Ok_0.weights() == filter_weights@ && r->Ok_0.taps()
                == filter_weights@.len() && r->Ok_0.cursor() == 0 && r->Ok_0.history()
                =~= Seq::new(filter_weights@.len(), |n: int| 0u64) && r->Ok_0.last_output()
                == 0u64,
    {
        let length = filter_weights.len();
        if length == 0 {
            return Err(FilterError::InvalidParameter);
        }
        let mut buffer: Vec<u64> = Vec::new();
        let mut i: usize = 0;
        while i < length
            invariant
                i <= length,
                buffer@.len() == i,
                forall|k: int| 0 <= k < i ==> buffer@[k] == 0u64,
            decreases length - i,
        {
            buffer.push(0u64);
            i += 1;
        }
        let f = FirFilter { filter_weights, buffer, buf_index: 0, output: 0u64 };
        proof {
            assert forall|n: int| 0 <= n < f.taps() implies f.history()[n] == 0u64 by {
                assert(0 <= f.history_index(n) < f.taps());
            }
        }
        Ok(f)
    }

    /// Number of taps, which is also the fixed capacity of the ring buffer.
    pub fn len(&self) -> (n: usize)
        ensures
            n == self.taps(),
    {
        self.filter_weights.len()
    }

    /// Processes one sample: writes it over the oldest slot, advances the
    /// cursor with wraparound, and returns the weighted sum that pairs weight
    /// `n` with the sample `n` steps older than the one just written. The
    /// buffer never grows, and the new state and output are functions of the
    /// old state and the input alone.
    pub fn process(&mut self, input: u64) -> (out: u64)
        requires
            old(self).wf(),
        ensures
            final(self).wf(),
            final(self).weights() == old(self).weights(),
            final(self).taps() == old(self).taps(),
            final(self).cursor() == if old(self).cursor() + 1 == old(self).taps() {
                0int
            } else {
                old(self).cursor() + 1
            },
            final(self).history() =~= seq![input] + old(self).history().take(
                old(self).taps() - 1,
            ),
            out == convolved(old(self).weights(), final(self).history()),
            final(self).last_output() == out,
    {
        let ghost pre = *old(self);
        let len = self.buffer.len();
        self.buffer.set(self.buf_index, input);
        self.buf_index += 1;
        if self.buf_index >= len {
            self.buf_index = 0;
        }
        proof {
            assert forall|n: int| 0 <= n < len implies self.history()[n] == (seq![input]
                + pre.history().take(len - 1))[n] by {
                if n == 0 {
                    assert(self.history_index(0) == pre.buf_index);
                } else {
                    assert(self.history_index(n) == pre.history_index(n - 1));
                    assert(self.history_index(n) != pre.buf_index);
                }
            }
        }
        let mut out_acc: u64 = 0u64;
        let mut sum_index: usize = self.buf_index;
        let mut n: usize = 0;
        while n < len
            invariant
                self.wf(),
                len == self.taps(),
                sum_index <= len,
                n <= len,
                n == 0 ==> sum_index == self.buf_index,
                n >= 1 ==> sum_index == self.history_index(n - 1),
                out_acc == acc_sum(self.weights(), self.history(), n as int),
            decreases len - n,
        {
            if sum_index > 0 {
                sum_index -= 1;
            } else {
                sum_index = len - 1;
            }
            proof {
                assert(sum_index == self.history_index(n as int));
                assert(self.history()[n as int] == self.buffer@[sum_index as int]);
            }
            let term = mul_bits(self.filter_weights[n], self.buffer[sum_index]);
            out_acc = add_bits(out_acc, term);
            n += 1;
        }
        let ghost h_done = self.history();
        let ghost w_done = self.weights();
        self.output = out_acc;
        proof {
            assert(self.history() =~= h_done);
            assert(self.weights() == w_done);
            assert(w_done == pre.weights());
            assert(out_acc == acc_sum(w_done, h_done, len as int));
            assert(pre.weights().len() == len);
            assert(out_acc == convolved(pre.weights(), self.history()));
        }
        out_acc
    }

    /// Feeds a whole block of samples in order and collects the outputs.
    /// The output stream is `stream_outputs` of the weights, the prior
    /// history and the inputs — the same for any two engines in equal
    /// states, however the ring happens to be laid out.
    pub fn process_block(&mut self, inputs: &Vec<u64>) -> (outs: Vec<u64>)
        requires
            old(self).wf(),
        ensures
            final(self).wf(),
            final(self).weights() == old(self).weights(),
            final(self).taps() == old(self).taps(),
            outs@ =~= stream_outputs(old(self).weights(), old(self).history(), inputs@),
            final(self).history() =~= history_after(
                old(self).history(),
                inputs@,
                inputs@.len() as int,
            ),
    {
        let ghost pre_h = old(self).history();
        let ghost w = old(self).weights();
        let mut outs: Vec<u64> = Vec::new();
        let mut i: usize = 0;
        proof {
            assert(self.history() =~= history_after(pre_h, inputs@, 0));
        }
        while i < inputs.len()
            invariant
                self.wf(),
                self.weights() == w,
                self.taps() == pre_h.len(),
                i <= inputs@.len(),
                outs@.len() == i,
                self.history() =~= history_after(pre_h, inputs@, i as int),
                forall|k: int|
                    0 <= k < i ==> outs@[k] == convolved(
                        w,
                        history_after(pre_h, inputs@, k + 1),
                    ),
            decreases inputs@.len() - i,
        {
            let ghost h_before = self.history();
            let out = self.process(inputs[i]);
            proof {
                assert(self.history() =~= history_after(pre_h, inputs@, i + 1)) by {
                    assert forall|n: int| 0 <= n < pre_h.len() implies self.history()[n]
                        == history_after(pre_h, inputs@, i + 1)[n] by {
                        assert(self.history()[n] == (seq![inputs@[i as int]] + h_before.take(
                            pre_h.len() - 1,
                        ))[n]);
                    }
                }
            }
            outs.push(out);
            i += 1;
        }
        outs
    }
}

} // verus!
