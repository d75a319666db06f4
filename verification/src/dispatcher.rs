//! Dispatcher: which filter of a chain takes up a grant.
//!
//! Filters run sequentially per assigned grant; the first filter that accepts owns
//! the grant for its lifetime. If no filter accepts a grant, the coordinator is asked
//! to revoke it.

use vstd::prelude::*;

use crate::error::ClientError;
use crate::ownership::OwnershipState;

verus! {

/// What is to be done next for a grant.
#[derive(Copy, Clone, Debug, PartialEq, Eq, Structural)]
pub enum ChainStep {
    /// The grant had expired before; nothing is done for it.
    Expired,
    /// Ask the filter at this place in the chain.
    Ask(usize),
    /// The filter at this place in the chain owns the grant.
    Owned(usize),
    /// No filter accepts the grant: ask for it to be revoked.
    Relinquish,
}

/// The filter at a place in a chain is asked, where there is one.
pub open spec fn ask_from(place: int, filters: int) -> ChainStep {
    if place < filters {
        ChainStep::Ask(place as usize)
    } else {
        ChainStep::Relinquish
    }
}

/// How a grant with an ownership starts on a chain of filters.
pub fn start_chain(ownership: &OwnershipState, filters: usize) -> (r: ChainStep)
    ensures
        r == if ownership@.expired {
            ChainStep::Expired
        } else {
            ask_from(0, filters as int)
        },
{
    if ownership.expired {
        return ChainStep::Expired;
    }
    if filters == 0 {
        ChainStep::Relinquish
    } else {
        ChainStep::Ask(0)
    }
}

/// How a grant goes on along a chain once the filter at a place has answered.
pub fn next_in_chain(place: usize, accepted: bool, filters: usize) -> (r: ChainStep)
    requires
        place < filters,
    ensures
        r == after_answer(place as int, accepted, filters as int),
{
    if accepted {
        ChainStep::Owned(place)
    } else if place + 1 < filters {
        ChainStep::Ask(place + 1)
    } else {
        ChainStep::Relinquish
    }
}

/// How a grant goes on along a chain once the filter at a place has answered.
pub open spec fn after_answer(place: int, accepted: bool, filters: int) -> ChainStep {
    if accepted {
        ChainStep::Owned(place as usize)
    } else {
        ask_from(place + 1, filters)
    }
}

/// Where a grant ends up that starts at a place in a chain whose filters answer as
/// given.
pub open spec fn chain_end(answers: Seq<bool>, place: int) -> ChainStep
    decreases answers.len() - place,
{
    if 0 <= place < answers.len() {
        match after_answer(place, answers[place], answers.len() as int) {
            ChainStep::Ask(_) => chain_end(answers, place + 1),
            step => step,
        }
    } else {
        ChainStep::Relinquish
    }
}

/// The first filter that accepts owns the grant, and the grant is relinquished exactly
/// where none does.
pub proof fn law_first_accepting_filter_owns(answers: Seq<bool>, place: int)
    requires
        0 <= place,
        answers.len() <= usize::MAX,
    ensures
        match chain_end(answers, place) {
            ChainStep::Owned(i) => {
                &&& place <= i < answers.len()
                &&& answers[i as int]
                &&& forall|j: int| place <= j < i ==> !#[trigger] answers[j]
            },
            ChainStep::Relinquish => forall|j: int|
                place <= j < answers.len() ==> !#[trigger] answers[j],
            _ => false,
        },
    decreases answers.len() - place,
{
    if place < answers.len() && !answers[place] {
        law_first_accepting_filter_owns(answers, place + 1);
    }
}

/// What draining a dispatcher comes to, given the result of the shutdown, or none
/// where it took longer than the timeout: that is no error.
pub fn drain_result(ended: Option<Result<(), ClientError>>) -> (r: Result<(), ClientError>)
    ensures
        r == match ended {
            Some(result) => result,
            None => Ok(()),
        },
{
    match ended {
        Some(result) => result,
        None => Ok(()),
    }
}

/// A grant that has expired is not dispatched; any other starts with the first filter,
/// and is relinquished at once where there is none.
pub proof fn law_dispatch_starts_with_the_first_filter(
    o: &OwnershipState,
    filters: usize,
    r: ChainStep,
)
    requires
        call_ensures(start_chain, (o, filters), r),
    ensures
        r is Expired <==> o.expired,
        r is Relinquish <==> !o.expired && filters == 0,
        r == ChainStep::Ask(0) <==> !o.expired && filters > 0,
{
}

/// A filter that accepts owns the grant, wherever it stands; one that declines passes it
/// to the next, and the last one to nobody.
pub proof fn law_answers_move_along_the_chain(
    place: usize,
    accepted: bool,
    filters: usize,
    r: ChainStep,
)
    requires
        place < filters,
        call_ensures(next_in_chain, (place, accepted, filters), r),
    ensures
        accepted ==> r == ChainStep::Owned(place),
        !accepted && place + 1 < filters ==> r == ChainStep::Ask((place + 1) as usize),
        !accepted && place + 1 == filters ==> r is Relinquish,
{
}

/// A drain that ended gives its result; one that took too long is no error.
pub proof fn law_drain_gives_its_result(
    ended: Option<Result<(), ClientError>>,
    r: Result<(), ClientError>,
)
    requires
        call_ensures(drain_result, (ended,), r),
    ensures
        ended is None ==> r is Ok,
        ended matches Some(result) ==> r == result,
{
}

} // verus!
