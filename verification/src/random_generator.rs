use vstd::prelude::*;

verus! {

/// Capability contract for a deterministic pseudo-random generator.
///
/// Every concrete generator and every consumer of the sampler is written
/// against this contract alone. A generator is a plain value: its bounds
/// are fixed, every draw output and every state change is a pure function
/// of the current state, and cloning yields an independent value with
/// identical state.
pub trait RandomGenerator: Sized {
    /// The smallest value any draw can produce.
    spec fn spec_min(&self) -> i32;

    /// The largest value any draw can produce.
    spec fn spec_max(&self) -> i32;

    /// The output of the next draw, as a function of the current state.
    spec fn spec_output(&self) -> i32;

    /// The state after one in-place draw.
    spec fn spec_step(&self) -> Self;

    /// The state after a jump far ahead in the stream.
    spec fn spec_jump(&self) -> Self;

    /// The output bounds are ordered, so the native cardinality
    /// `spec_max() - spec_min() + 1` is at least one.
    proof fn lemma_bounds(&self)
        ensures
            self.spec_min() <= self.spec_max(),
    ;

    /// Every draw output lies within the declared bounds.
    proof fn lemma_output_in_bounds(&self)
        ensures
            self.spec_min() <= self.spec_output() <= self.spec_max(),
    ;

    /// Drawing never changes the declared bounds.
    proof fn lemma_step_keeps_bounds(&self)
        ensures
            self.spec_step().spec_min() == self.spec_min(),
            self.spec_step().spec_max() == self.spec_max(),
    ;

    /// The fixed lower bound of every value the generator can produce.
    fn min(&self) -> (r: i32)
        ensures
            r == self.spec_min(),
    ;

    /// The fixed upper bound of every value the generator can produce.
    fn max(&self) -> (r: i32)
        ensures
            r == self.spec_max(),
    ;

    /// An independent generator with identical current state. Mutating
    /// the clone can never affect the receiver: both are owned values.
    fn clone(&self) -> (r: Self)
        ensures
            r == *self,
    ;

    /// Pure draw: the next output value and the advanced generator,
    /// leaving the receiver unchanged.
    fn next(&self) -> (r: (i32, Self))
        ensures
            r.0 == self.spec_output(),
            r.1 == self.spec_step(),
    ;

    /// Pure jump: a new generator far ahead in the stream, leaving the
    /// receiver unchanged.
    fn jump(&self) -> (r: Self)
        ensures
            r == self.spec_jump(),
    ;

    /// In-place draw: advances the receiver's own state and returns the
    /// output value.
    #[allow(non_snake_case)]
    fn unsafeNext(&mut self) -> (r: i32)
        ensures
            r == old(self).spec_output(),
            *final(self) == old(self).spec_step(),
    ;

    /// In-place jump: advances the receiver's own state directly to the
    /// decorrelated point far ahead in the stream.
    #[allow(non_snake_case)]
    fn unsafeJump(&mut self)
        ensures
            *final(self) == old(self).spec_jump(),
    ;
}

/// The number of distinct values a generator's output range can take.
pub open spec fn cardinality<G: RandomGenerator>(g: G) -> int {
    g.spec_max() - g.spec_min() + 1
}

/// The generator state after `n` in-place draws.
pub open spec fn steps<G: RandomGenerator>(g: G, n: nat) -> G
    decreases n,
{
    if n == 0 {
        g
    } else {
        steps(g, (n - 1) as nat).spec_step()
    }
}

/// The output of the `n`-th draw (counting from zero), shifted so that
/// the smallest possible output becomes zero.
pub open spec fn delta_at<G: RandomGenerator>(g: G, n: nat) -> int {
    steps(g, n).spec_output() - g.spec_min()
}

/// Drawing any number of times splits into two stages of drawing.
pub proof fn lemma_steps_add<G: RandomGenerator>(g: G, m: nat, n: nat)
    ensures
        steps(g, m + n) == steps(steps(g, m), n),
    decreases n,
{
    if n > 0 {
        lemma_steps_add(g, m, (n - 1) as nat);
    }
}

/// The declared bounds stay fixed along the whole draw stream.
pub proof fn lemma_steps_keep_bounds<G: RandomGenerator>(g: G, n: nat)
    ensures
        steps(g, n).spec_min() == g.spec_min(),
        steps(g, n).spec_max() == g.spec_max(),
    decreases n,
{
    if n > 0 {
        lemma_steps_keep_bounds(g, (n - 1) as nat);
        steps(g, (n - 1) as nat).lemma_step_keeps_bounds();
    }
}

/// Every shifted draw output lies in `[0, cardinality)`.
pub proof fn lemma_delta_in_range<G: RandomGenerator>(g: G, n: nat)
    ensures
        0 <= delta_at(g, n) < cardinality(g),
{
    lemma_steps_keep_bounds(g, n);
    steps(g, n).lemma_output_in_bounds();
}

/// Determinism law: the whole draw stream, together with every jump
/// target, is a pure function of the starting state. Two generators in
/// equal states agree at every position of their output sequences.
pub proof fn lemma_stream_determinism<G: RandomGenerator>(g1: G, g2: G, n: nat)
    requires
        g1 == g2,
    ensures
        steps(g1, n) == steps(g2, n),
        steps(g1, n).spec_output() == steps(g2, n).spec_output(),
        steps(g1, n).spec_jump() == steps(g2, n).spec_jump(),
{
}

} // verus!
