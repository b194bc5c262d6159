//! Mutations: transformers that may change an assembled response before it
//! is sent, applied one after the other.

use vstd::prelude::*;
use crate::error::MutationError;
use crate::output::{MapperOutput, MapperOutputView};

verus! {

/// The failure that an outcome carries, if any.
pub open spec fn failure_of(outcome: Result<(), MutationError>) -> Option<Seq<char>> {
    match outcome {
        Ok(_) => None,
        Err(error) => Some(error@),
    }
}

/// A transformer of assembled responses. It may read and change the
/// request, the response and the stored result, or fail.
pub trait ResponseMutation {
    /// Whether one application may lead from `before` to `after`, failing
    /// with `failure` or succeeding with none. A mutation that says nothing
    /// of itself may do anything.
    open spec fn mutation_spec(
        &self,
        before: MapperOutputView,
        after: MapperOutputView,
        failure: Option<Seq<char>>,
    ) -> bool {
        true
    }

    /// Applies the mutation to `output`.
    fn apply_mutation(&self, output: &mut MapperOutput) -> (outcome: Result<(), MutationError>)
        ensures
            self.mutation_spec(old(output)@, final(output)@, failure_of(outcome)),
    ;
}

/// A registered mutation, of whatever type.
pub struct BoxedMutation(pub Box<dyn ResponseMutation>);

impl ResponseMutation for BoxedMutation {
    open spec fn mutation_spec(
        &self,
        before: MapperOutputView,
        after: MapperOutputView,
        failure: Option<Seq<char>>,
    ) -> bool {
        self.0.mutation_spec(before, after, failure)
    }

    fn apply_mutation(&self, output: &mut MapperOutput) -> (outcome: Result<(), MutationError>) {
        self.0.apply_mutation(output)
    }
}

/// Whether applying all of `mutations`, in order and each with success,
/// may lead from `before` to `after`.
pub open spec fn applies_all<M: ResponseMutation>(
    mutations: Seq<M>,
    before: MapperOutputView,
    after: MapperOutputView,
) -> bool
    decreases mutations.len(),
{
    if mutations.len() == 0 {
        after == before
    } else {
        exists|mid: MapperOutputView|
            applies_all(mutations.drop_last(), before, mid) && #[trigger] mutations.last().mutation_spec(
                mid,
                after,
                None,
            )
    }
}

/// Whether running the chain `mutations` may lead from `before` to
/// `after`. Without failure, every mutation was applied, in order. With a
/// failure, the mutations before the failing one were applied with success,
/// the failing one left `after`, and none after it ran.
pub open spec fn chain_spec<M: ResponseMutation>(
    mutations: Seq<M>,
    before: MapperOutputView,
    after: MapperOutputView,
    failure: Option<Seq<char>>,
) -> bool {
    if failure is None {
        applies_all(mutations, before, after)
    } else {
        exists|k: int, mid: MapperOutputView|
            0 <= k < mutations.len() && applies_all(mutations.take(k), before, mid)
                && #[trigger] mutations[k].mutation_spec(mid, after, failure)
    }
}

/// Runs the chain: applies the mutations in order and stops at the first
/// that fails.
pub fn apply_mutations<M: ResponseMutation>(mutations: &Vec<M>, output: &mut MapperOutput) -> (outcome: Result<
    (),
    MutationError,
>)
    ensures
        chain_spec(mutations@, old(output)@, final(output)@, failure_of(outcome)),
{
    let mut i: usize = 0;
    assert(mutations@.take(0).len() == 0);
    while i < mutations.len()
        invariant
            i <= mutations.len(),
            applies_all(mutations@.take(i as int), old(output)@, output@),
        decreases mutations.len() - i,
    {
        let ghost mid = output@;
        match mutations[i].apply_mutation(output) {
            Ok(_) => {
                proof {
                    let next = mutations@.take(i + 1);
                    assert(next.drop_last() == mutations@.take(i as int));
                    assert(next.last() == mutations@[i as int]);
                    assert(next.last().mutation_spec(mid, output@, None));
                }
            },
            Err(error) => {
                assert(applies_all(mutations@.take(i as int), old(output)@, mid)
                    && mutations@[i as int].mutation_spec(mid, output@, Some(error@)));
                return Err(error);
            },
        }
        i = i + 1;
    }
    assert(mutations@.take(i as int) == mutations@);
    Ok(())
}

/// Where the first mutation of a chain can only fail, the chain fails, and
/// what it leaves is what that first mutation left: no later mutation has
/// had any effect.
pub proof fn law_first_failure_ends_the_chain<M: ResponseMutation>(
    mutations: Seq<M>,
    before: MapperOutputView,
    after: MapperOutputView,
    failure: Option<Seq<char>>,
)
    requires
        mutations.len() > 0,
        forall|b: MapperOutputView, a: MapperOutputView| !mutations[0].mutation_spec(b, a, None),
        chain_spec(mutations, before, after, failure),
    ensures
        failure is Some,
        mutations[0].mutation_spec(before, after, failure),
{
    if failure is None {
        lemma_applies_all_first(mutations, before, after);
    } else {
        let (k, mid) = choose|k: int, mid: MapperOutputView|
            0 <= k < mutations.len() && applies_all(mutations.take(k), before, mid)
                && #[trigger] mutations[k].mutation_spec(mid, after, failure);
        if k > 0 {
            assert(mutations.take(k)[0] == mutations[0]);
            lemma_applies_all_first(mutations.take(k), before, mid);
        } else {
            assert(mutations.take(0).len() == 0);
        }
    }
}

/// A chain that was applied in full began with a success of its first
/// mutation.
proof fn lemma_applies_all_first<M: ResponseMutation>(
    mutations: Seq<M>,
    before: MapperOutputView,
    after: MapperOutputView,
)
    requires
        mutations.len() > 0,
        applies_all(mutations, before, after),
    ensures
        exists|mid: MapperOutputView| #[trigger] mutations[0].mutation_spec(before, mid, None),
    decreases mutations.len(),
{
    let mid = choose|mid: MapperOutputView|
        applies_all(mutations.drop_last(), before, mid) && #[trigger] mutations.last().mutation_spec(
            mid,
            after,
            None,
        );
    if mutations.len() == 1 {
        assert(mutations.drop_last().len() == 0);
        assert(mutations.last() == mutations[0]);
        assert(mutations[0].mutation_spec(before, after, None));
    } else {
        assert(mutations.drop_last()[0] == mutations[0]);
        lemma_applies_all_first(mutations.drop_last(), before, mid);
    }
}

} // verus!
