//! The mathematical model of a batch buffer: a sequence of sequences, each a
//! sequence of time steps, each a sequence of scalars.

use vstd::prelude::*;

verus! {

/// Bit pattern of the scalar `+0.0` in IEEE 754 single precision.
pub const ZERO: u32 = 0;

/// One time step of `input_dim` features, all zero.
pub open spec fn zero_step(input_dim: nat) -> Seq<u32> {
    Seq::new(input_dim, |k: int| ZERO)
}

/// One sequence of `time_step` zero steps.
pub open spec fn zero_sequence(time_step: nat, input_dim: nat) -> Seq<Seq<u32>> {
    Seq::new(time_step, |j: int| zero_step(input_dim))
}

/// A batch of `batch_size` zero sequences.
pub open spec fn zero_batch(batch_size: nat, time_step: nat, input_dim: nat) -> Seq<
    Seq<Seq<u32>>,
> {
    Seq::new(batch_size, |i: int| zero_sequence(time_step, input_dim))
}

/// `buf` has exactly `batch_size` sequences, each of exactly `time_step`
/// steps, each of exactly `input_dim` scalars.
pub open spec fn has_shape(
    buf: Seq<Seq<Seq<u32>>>,
    batch_size: nat,
    time_step: nat,
    input_dim: nat,
) -> bool {
    &&& buf.len() == batch_size
    &&& forall|i: int| 0 <= i < buf.len() ==> (#[trigger] buf[i]).len() == time_step
    &&& forall|i: int, j: int|
        0 <= i < buf.len() && 0 <= j < buf[i].len() ==> (#[trigger] buf[i][j]).len() == input_dim
}

/// Every scalar of `buf` is zero.
pub open spec fn all_zero(buf: Seq<Seq<Seq<u32>>>) -> bool {
    forall|i: int, j: int, k: int|
        0 <= i < buf.len() && 0 <= j < buf[i].len() && 0 <= k < buf[i][j].len() ==> (
        #[trigger] buf[i][j][k]) == ZERO
}

/// Number of scalars held by one sequence, summed over its steps.
pub open spec fn sequence_scalars(sequence: Seq<Seq<u32>>) -> nat
    decreases sequence.len(),
{
    if sequence.len() == 0 {
        0
    } else {
        sequence_scalars(sequence.drop_last()) + sequence.last().len()
    }
}

/// Number of scalars held by a buffer, summed over its sequences.
pub open spec fn batch_scalars(buf: Seq<Seq<Seq<u32>>>) -> nat
    decreases buf.len(),
{
    if buf.len() == 0 {
        0
    } else {
        batch_scalars(buf.drop_last()) + sequence_scalars(buf.last())
    }
}

/// The buffer obtained from `buf` by overwriting the scalar at batch position
/// `i`, time step `j`, feature `k` with `value`.
pub open spec fn with_scalar(buf: Seq<Seq<Seq<u32>>>, i: int, j: int, k: int, value: u32) -> Seq<
    Seq<Seq<u32>>,
> {
    buf.update(i, buf[i].update(j, buf[i][j].update(k, value)))
}

/// The zero batch has the requested shape on every axis, whatever the three
/// dimensions are, zero included.
pub proof fn lemma_zero_batch_has_shape(batch_size: nat, time_step: nat, input_dim: nat)
    ensures
        has_shape(zero_batch(batch_size, time_step, input_dim), batch_size, time_step, input_dim),
{
}

/// Every scalar of the zero batch is zero.
pub proof fn lemma_zero_batch_all_zero(batch_size: nat, time_step: nat, input_dim: nat)
    ensures
        all_zero(zero_batch(batch_size, time_step, input_dim)),
{
}

/// Shape and content determine the buffer: the zero batch is the only
/// all-zero buffer of its shape.
pub proof fn lemma_zero_batch_unique(
    buf: Seq<Seq<Seq<u32>>>,
    batch_size: nat,
    time_step: nat,
    input_dim: nat,
)
    requires
        has_shape(buf, batch_size, time_step, input_dim),
        all_zero(buf),
    ensures
        buf == zero_batch(batch_size, time_step, input_dim),
{
    assert(buf =~~= zero_batch(batch_size, time_step, input_dim));
}

/// With a batch size of zero the buffer has no sequence at all.
pub proof fn lemma_empty_batch(time_step: nat, input_dim: nat)
    ensures
        zero_batch(0, time_step, input_dim) == Seq::<Seq<Seq<u32>>>::empty(),
{
    assert(zero_batch(0, time_step, input_dim) =~= Seq::<Seq<Seq<u32>>>::empty());
}

/// With zero time steps the buffer keeps its `batch_size` sequences, and each
/// of them is empty.
pub proof fn lemma_empty_sequences(batch_size: nat, input_dim: nat)
    ensures
        zero_batch(batch_size, 0, input_dim).len() == batch_size,
        forall|i: int|
            0 <= i < batch_size ==> (#[trigger] zero_batch(batch_size, 0, input_dim)[i])
                == Seq::<Seq<u32>>::empty(),
{
    assert forall|i: int| 0 <= i < batch_size implies (#[trigger] zero_batch(
        batch_size,
        0,
        input_dim,
    )[i]) == Seq::<Seq<u32>>::empty() by {
        assert(zero_batch(batch_size, 0, input_dim)[i] =~= Seq::<Seq<u32>>::empty());
    }
}

/// With zero features the buffer keeps its `batch_size` sequences of
/// `time_step` steps, and each step is empty.
pub proof fn lemma_empty_steps(batch_size: nat, time_step: nat)
    ensures
        zero_batch(batch_size, time_step, 0).len() == batch_size,
        forall|i: int|
            0 <= i < batch_size ==> (#[trigger] zero_batch(batch_size, time_step, 0)[i]).len()
                == time_step,
        forall|i: int, j: int|
            0 <= i < batch_size && 0 <= j < time_step ==> (#[trigger] zero_batch(
                batch_size,
                time_step,
                0,
            )[i][j]) == Seq::<u32>::empty(),
{
    assert forall|i: int, j: int| 0 <= i < batch_size && 0 <= j < time_step implies (
    #[trigger] zero_batch(batch_size, time_step, 0)[i][j]) == Seq::<u32>::empty() by {
        assert(zero_batch(batch_size, time_step, 0)[i][j] =~= Seq::<u32>::empty());
    }
}

/// A sequence of `time_step` steps of `input_dim` scalars each holds
/// `time_step * input_dim` scalars.
pub proof fn lemma_sequence_scalars(sequence: Seq<Seq<u32>>, time_step: nat, input_dim: nat)
    requires
        sequence.len() == time_step,
        forall|j: int| 0 <= j < sequence.len() ==> (#[trigger] sequence[j]).len() == input_dim,
    ensures
        sequence_scalars(sequence) == time_step * input_dim,
    decreases time_step,
{
    if time_step > 0 {
        let front = sequence.drop_last();
        lemma_sequence_scalars(front, (time_step - 1) as nat, input_dim);
        assert((time_step - 1) * input_dim + input_dim == time_step * input_dim)
            by (nonlinear_arith);
    } else {
        assert(0 * input_dim == 0) by (nonlinear_arith);
    }
}

/// A buffer of a given shape holds `batch_size * time_step * input_dim`
/// scalars.
pub proof fn lemma_batch_scalars(
    buf: Seq<Seq<Seq<u32>>>,
    batch_size: nat,
    time_step: nat,
    input_dim: nat,
)
    requires
        has_shape(buf, batch_size, time_step, input_dim),
    ensures
        batch_scalars(buf) == batch_size * time_step * input_dim,
    decreases batch_size,
{
    if batch_size > 0 {
        let front = buf.drop_last();
        lemma_batch_scalars(front, (batch_size - 1) as nat, time_step, input_dim);
        lemma_sequence_scalars(buf.last(), time_step, input_dim);
        assert((batch_size - 1) * time_step * input_dim + time_step * input_dim == batch_size
            * time_step * input_dim) by (nonlinear_arith);
    } else {
        assert(0 * time_step * input_dim == 0) by (nonlinear_arith);
    }
}

/// Overwriting one scalar in place leaves the shape as it was, puts the new
/// value at its position and changes no other scalar.
pub proof fn lemma_with_scalar(
    buf: Seq<Seq<Seq<u32>>>,
    batch_size: nat,
    time_step: nat,
    input_dim: nat,
    i: int,
    j: int,
    k: int,
    value: u32,
)
    requires
        has_shape(buf, batch_size, time_step, input_dim),
        0 <= i < batch_size,
        0 <= j < time_step,
        0 <= k < input_dim,
    ensures
        has_shape(with_scalar(buf, i, j, k, value), batch_size, time_step, input_dim),
        with_scalar(buf, i, j, k, value)[i][j][k] == value,
        forall|a: int, b: int, c: int|
            0 <= a < batch_size && 0 <= b < time_step && 0 <= c < input_dim && !(a == i && b == j
                && c == k) ==> (#[trigger] with_scalar(buf, i, j, k, value)[a][b][c])
                == buf[a][b][c],
{
}

} // verus!
