//! The batch buffer itself and its constructor.

use crate::shape::{all_zero, has_shape, zero_batch, zero_sequence, ZERO};
use vstd::prelude::*;

verus! {

/// One batch of time-ordered records: `batch_size` sequences of `time_step`
/// steps of `input_dim` scalars.
///
/// A scalar is a single-precision value stored as its IEEE 754 bit pattern.
/// The fields are open to callers, who read and overwrite scalars in place;
/// the buffer is never resized, so [`Record::wf`] keeps holding.
pub struct Record {
    pub batches: Vec<Vec<Vec<u32>>>,
    pub batch_size: usize,
    pub time_step: usize,
    pub input_dim: usize,
}

impl View for Record {
    type V = Seq<Seq<Seq<u32>>>;

    /// The scalars of the buffer, by batch position, time step and feature.
    open spec fn view(&self) -> Seq<Seq<Seq<u32>>> {
        self.batches.deep_view()
    }
}

impl Record {
    /// The buffer has the shape that the three dimension fields announce.
    pub open spec fn wf(&self) -> bool {
        has_shape(self@, self.batch_size as nat, self.time_step as nat, self.input_dim as nat)
    }

    /// The view reads the nested vectors position by position: lengths and
    /// scalars of the view are those of the vectors in `batches`.
    pub proof fn lemma_view_reads_batches(&self)
        ensures
            self.batches@.len() == self@.len(),
            forall|i: int|
                0 <= i < self.batches@.len() ==> (#[trigger] self.batches@[i])@.len()
                    == self@[i].len(),
            forall|i: int, j: int|
                0 <= i < self.batches@.len() && 0 <= j < self.batches@[i]@.len() ==> (
                #[trigger] self.batches@[i]@[j])@ == self@[i][j],
    {
        assert forall|i: int, j: int|
            0 <= i < self.batches@.len() && 0 <= j < self.batches@[i]@.len() implies (
        #[trigger] self.batches@[i]@[j])@ == self@[i][j] by {
            assert(self.batches@[i]@[j]@ =~= self@[i][j]);
        }
    }

    /// Allocates the zero-filled buffer of the given dimensions. Any of them
    /// may be zero, which gives an empty axis.
    pub fn new(batch_size: usize, time_step: usize, input_dim: usize) -> (r: Record)
        ensures
            r.batch_size == batch_size,
            r.time_step == time_step,
            r.input_dim == input_dim,
            r@ == zero_batch(batch_size as nat, time_step as nat, input_dim as nat),
            r.wf(),
            all_zero(r@),
    {
        let step: Vec<u32> = vec![ZERO; input_dim];
        let sequence: Vec<Vec<u32>> = vec![step; time_step];
        assert forall|j: int| 0 <= j < sequence@.len() implies (#[trigger] sequence@[j])@
            == step@ by {
            assert(sequence@[j]@ =~= step@);
        }
        assert(sequence.deep_view() =~~= zero_sequence(time_step as nat, input_dim as nat));
        let batches: Vec<Vec<Vec<u32>>> = vec![sequence; batch_size];
        assert forall|i: int| 0 <= i < batches@.len() implies (
        #[trigger] batches@[i]).deep_view() == sequence.deep_view() by {
            assert(batches@[i].deep_view() =~~= sequence.deep_view());
        }
        assert(batches.deep_view() =~~= zero_batch(
            batch_size as nat,
            time_step as nat,
            input_dim as nat,
        ));
        Record { batches, batch_size, time_step, input_dim }
    }
}

} // verus!
