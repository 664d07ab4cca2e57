//! What holds of every life of a wrapper.
//!
//! A life is the creation of a wrapper and then any sequence of requests
//! and releases, in any order and as many as one likes, whether the
//! requests are refused or not. The calls of a life are the calls that the
//! wrapper gives along the way, in order.

use crate::call::CallView;
use crate::request::{release_outcome, Creation, Request};
use vstd::prelude::*;

verus! {

/// One thing that happens to a wrapper after its creation.
pub enum Step {
    /// A request, with its inputs.
    Ask(Request),
    /// A release.
    Release,
}

impl Step {
    /// The call that a wrapper gives at this step, if it gives one.
    pub open spec fn call(self, live: bool) -> Option<CallView> {
        match self {
            Step::Ask(request) => match request.outcome(live) {
                Ok(call) => Some(call),
                Err(_) => None,
            },
            Step::Release => release_outcome(live),
        }
    }

    /// Whether the wrapper still has its handle after this step.
    pub open spec fn leaves_live(self, live: bool) -> bool {
        match self {
            Step::Ask(_) => live,
            Step::Release => false,
        }
    }
}

/// The calls that a wrapper gives over `steps`, in order, starting live or
/// released.
pub open spec fn calls(live: bool, steps: Seq<Step>) -> Seq<CallView>
    decreases steps.len(),
{
    if steps.len() == 0 {
        Seq::empty()
    } else {
        let later = calls(steps[0].leaves_live(live), steps.drop_first());
        match steps[0].call(live) {
            Some(call) => seq![call] + later,
            None => later,
        }
    }
}

/// The calls of a whole life: the one that creates, then those of the
/// steps.
pub open spec fn life(creation: Creation, steps: Seq<Step>) -> Seq<CallView> {
    seq![creation.call()] + calls(true, steps)
}

/// Whether a call loads a dictionary.
pub open spec fn creates(call: CallView) -> bool {
    call is Create || call is CreateKey
}

/// A released wrapper gives no call, whatever is asked of it.
pub proof fn lemma_released_is_silent(steps: Seq<Step>)
    ensures
        calls(false, steps) == Seq::<CallView>::empty(),
    decreases steps.len(),
{
    if steps.len() > 0 {
        lemma_released_is_silent(steps.drop_first());
    }
}

/// Among the calls of a wrapper the one that frees the handle can only be
/// the last, and none of them loads a dictionary.
pub proof fn lemma_destroy_is_last(live: bool, steps: Seq<Step>)
    ensures
        forall|i: int|
            0 <= i < calls(live, steps).len() && #[trigger] calls(live, steps)[i] is Destroy ==> i
                == calls(live, steps).len() - 1,
        forall|i: int|
            0 <= i < calls(live, steps).len() ==> !creates(#[trigger] calls(live, steps)[i]),
    decreases steps.len(),
{
    if steps.len() > 0 {
        let first = steps[0];
        let rest = steps.drop_first();
        lemma_destroy_is_last(first.leaves_live(live), rest);
        if first is Release {
            lemma_released_is_silent(rest);
        }
    }
}

/// Once a release is among the steps, a wrapper that started live has
/// given the call that frees the handle, as its last call.
pub proof fn lemma_release_destroys(steps: Seq<Step>, k: int)
    requires
        0 <= k < steps.len(),
        steps[k] is Release,
    ensures
        calls(true, steps).len() > 0,
        calls(true, steps).last() is Destroy,
    decreases steps.len(),
{
    let first = steps[0];
    let rest = steps.drop_first();
    if first is Release {
        lemma_released_is_silent(rest);
        assert(calls(true, steps) =~= seq![CallView::Destroy]);
    } else {
        assert(rest[k - 1] == steps[k]);
        lemma_release_destroys(rest, k - 1);
    }
}

/// The handle is created once and freed at most once: in every life the
/// first call loads the dictionary and no later one does; the call that
/// frees the handle occurs at most once, and nothing is called after it.
pub proof fn lemma_destroy_at_most_once(creation: Creation, steps: Seq<Step>)
    ensures
        creates(life(creation, steps)[0]),
        forall|i: int|
            0 < i < life(creation, steps).len() ==> !creates(#[trigger] life(creation, steps)[i]),
        forall|i: int, j: int|
            0 <= i < life(creation, steps).len() && 0 <= j < life(creation, steps).len()
                && #[trigger] life(creation, steps)[i] is Destroy
                && #[trigger] life(creation, steps)[j] is Destroy ==> i == j,
        forall|i: int|
            0 <= i < life(creation, steps).len() && #[trigger] life(creation, steps)[i] is Destroy
                ==> i == life(creation, steps).len() - 1,
{
    lemma_destroy_is_last(true, steps);
    let later = calls(true, steps);
    let all = life(creation, steps);
    assert forall|i: int| 0 < i < all.len() implies all[i] == later[i - 1] by {}
    assert forall|i: int| 0 <= i < all.len() && #[trigger] all[i] is Destroy implies i == all.len()
        - 1 by {
        if i > 0 {
            assert(later[i - 1] is Destroy);
        }
    }
}

/// The handle is freed exactly once in a life that holds a release,
/// whatever else was asked and whether or not it was refused: the call that
/// frees the handle is the last call of the life and occurs nowhere else.
pub proof fn lemma_destroy_exactly_once(creation: Creation, steps: Seq<Step>, k: int)
    requires
        0 <= k < steps.len(),
        steps[k] is Release,
    ensures
        life(creation, steps).last() is Destroy,
        forall|i: int|
            0 <= i < life(creation, steps).len() - 1 ==> !(#[trigger] life(creation, steps)[i]
                is Destroy),
{
    lemma_release_destroys(steps, k);
    lemma_destroy_at_most_once(creation, steps);
    let later = calls(true, steps);
    let all = life(creation, steps);
    assert(all.last() == later.last());
}

/// A life without a release never frees the handle.
pub proof fn lemma_no_release_no_destroy(creation: Creation, steps: Seq<Step>)
    requires
        forall|k: int| 0 <= k < steps.len() ==> !(#[trigger] steps[k] is Release),
    ensures
        forall|i: int|
            0 <= i < life(creation, steps).len() ==> !(#[trigger] life(creation, steps)[i]
                is Destroy),
{
    lemma_asks_never_destroy(steps);
    let later = calls(true, steps);
    let all = life(creation, steps);
    assert forall|i: int| 0 <= i < all.len() implies !(#[trigger] all[i] is Destroy) by {
        if i > 0 {
            assert(all[i] == later[i - 1]);
        }
    }
}

proof fn lemma_asks_never_destroy(steps: Seq<Step>)
    requires
        forall|k: int| 0 <= k < steps.len() ==> !(#[trigger] steps[k] is Release),
    ensures
        forall|i: int|
            0 <= i < calls(true, steps).len() ==> !(#[trigger] calls(true, steps)[i] is Destroy),
    decreases steps.len(),
{
    if steps.len() > 0 {
        let rest = steps.drop_first();
        assert forall|k: int| 0 <= k < rest.len() implies !(#[trigger] rest[k] is Release) by {
            assert(rest[k] == steps[k + 1]);
        }
        assert(!(steps[0] is Release));
        lemma_asks_never_destroy(rest);
    }
}

} // verus!
