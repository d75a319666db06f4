//! Proxy trait and routing.
//!
//! The routing contract:
//!
//!   1. Fast path — if we locally own the key in `Active` state, the request goes to
//!      that value.
//!   2. Otherwise call `Proxy::resolve`. A successful resolution yields a client for
//!      the remote owner; the request goes to it, and a status that comes back is
//!      translated into a [`ClientError`] via [`ClientError::from_grpc`].
//!   3. If `resolve` returns `NoResolution` (no remote owner known), fall back to a
//!      local lookup across *any* state. If still empty, the key is `NotOwned`.
//!   4. Other resolve errors propagate.

use vstd::prelude::*;

use std::sync::Arc;

use crate::cluster::ClusterMap;
use crate::error::{ClientError, ErrorView, Status};
use crate::ids::{GrantState, Location, QualifiedDomainKey};
use crate::inquiry::{given_by, Answer, Inquiry};

verus! {

/// Unified proxy over local + remote resolution for a domain.
///
/// Implementors decide how to convert their user-level key into a
/// `QualifiedDomainKey`, how to find the remote owner (usually via a
/// [`crate::resolver::DomainResolver`]), and how to look up local ownership
/// (usually via [`crate::grant_map::GrantMap`]).
pub trait Proxy: Send + Sync + 'static {
    type Key: Send + Sync;

    type Client: Send;

    type Value: Send + Sync + Clone;

    /// Return a client for the remote owner, or `Err(NoResolution)` if this key is
    /// not owned by a reachable peer.
    fn resolve(&self, key: &Self::Key) -> Result<Self::Client, ClientError>;

    /// Look up a locally-owned value by key, preferring the given grant states in
    /// order. Pass `&[]` to consider any ownership state.
    fn lookup(&self, key: &Self::Key, states: &[GrantState]) -> Option<Self::Value>;

    fn domain_key(&self, key: &Self::Key) -> QualifiedDomainKey;

    fn location(&self, key: &Self::Key) -> Option<Location>;

    fn cluster(&self) -> Arc<ClusterMap>;
}

/// Where a request goes.
pub enum Route<C, V> {
    /// To a value that is owned here.
    Local(V),
    /// To the client of a peer.
    Remote(C),
}

/// Where a request goes, given what is owned here as active, what resolving the key
/// came to, and what is owned here in any state.
pub open spec fn routed<C, V>(
    active: Option<V>,
    resolved: Result<C, ClientError>,
    any: Option<V>,
) -> Result<Route<C, V>, ClientError> {
    match active {
        Some(v) => Ok(Route::Local(v)),
        None => match resolved {
            Ok(client) => Ok(Route::Remote(client)),
            Err(ClientError::NoResolution) => match any {
                Some(v) => Ok(Route::Local(v)),
                None => Err(ClientError::NotOwned),
            },
            Err(e) => Err(e),
        },
    }
}

/// What to ask a proxy next, or where the request goes.
pub enum RouteStep<C, V> {
    /// Ask for what is owned here as active.
    AskActive,
    /// Ask for the remote owner.
    AskResolve,
    /// Ask for what is owned here in any state.
    AskAny,
    /// It is decided.
    Done(Result<Route<C, V>, ClientError>),
}

/// What follows an answer: the remote owner is asked for only where nothing is owned
/// here as active, and what is owned in any state only where there is no resolution.
pub open spec fn step_after<C, V>(answer: Answer<C, V>) -> RouteStep<C, V> {
    match answer {
        Answer::Active(Some(v)) => RouteStep::Done(Ok(Route::Local(v))),
        Answer::Active(None) => RouteStep::AskResolve,
        Answer::Resolved(Ok(client)) => RouteStep::Done(Ok(Route::Remote(client))),
        Answer::Resolved(Err(ClientError::NoResolution)) => RouteStep::AskAny,
        Answer::Resolved(Err(e)) => RouteStep::Done(Err(e)),
        Answer::Any(Some(v)) => RouteStep::Done(Ok(Route::Local(v))),
        Answer::Any(None) => RouteStep::Done(Err(ClientError::NotOwned)),
    }
}

/// Decides what to ask next, given the last answer.
pub fn next_step<C, V>(answer: Answer<C, V>) -> (r: RouteStep<C, V>)
    ensures
        r == step_after(answer),
{
    match answer {
        Answer::Active(Some(v)) => RouteStep::Done(Ok(Route::Local(v))),
        Answer::Active(None) => RouteStep::AskResolve,
        Answer::Resolved(Ok(client)) => RouteStep::Done(Ok(Route::Remote(client))),
        Answer::Resolved(Err(ClientError::NoResolution)) => RouteStep::AskAny,
        Answer::Resolved(Err(e)) => RouteStep::Done(Err(e)),
        Answer::Any(Some(v)) => RouteStep::Done(Ok(Route::Local(v))),
        Answer::Any(None) => RouteStep::Done(Err(ClientError::NotOwned)),
    }
}

/// The questions that are asked, with their answers: first for what is owned here as
/// active; without that, for the remote owner; and without a resolution, for what is
/// owned here in any state. Nothing else is asked.
pub open spec fn questions<C, V>(
    active: Option<V>,
    resolved: Result<C, ClientError>,
    any: Option<V>,
) -> Seq<Answer<C, V>> {
    if active is Some {
        seq![Answer::Active(active)]
    } else if resolved != Err::<C, ClientError>(ClientError::NoResolution) {
        seq![Answer::Active(active), Answer::Resolved(resolved)]
    } else {
        seq![Answer::Active(active), Answer::Resolved(resolved), Answer::Any(any)]
    }
}

/// Whether a request was routed by exactly these questions: each was answered by the
/// proxy, in this order, none was asked that was not needed, and the answers decide.
pub open spec fn routed_by<P: Proxy>(
    proxy: P,
    key: P::Key,
    asked: Seq<Answer<P::Client, P::Value>>,
    r: Result<Route<P::Client, P::Value>, ClientError>,
) -> bool {
    &&& forall|i: int| 0 <= i < asked.len() ==> given_by(proxy, key, #[trigger] asked[i])
    &&& exists|
        active: Option<P::Value>,
        resolved: Result<P::Client, ClientError>,
        any: Option<P::Value>,
    |
        asked == #[trigger] questions(active, resolved, any) && r == routed(active, resolved, any)
}

/// Decides where a request goes. See module docs for the decision tree.
pub fn route<P: Proxy>(inquiry: &mut Inquiry<'_, P>) -> (r: Result<
    Route<P::Client, P::Value>,
    ClientError,
>)
    ensures
        final(inquiry).proxy() == old(inquiry).proxy(),
        final(inquiry).key() == old(inquiry).key(),
        old(inquiry)@.is_prefix_of(final(inquiry)@),
        routed_by(
            old(inquiry).proxy(),
            old(inquiry).key(),
            final(inquiry)@.skip(old(inquiry)@.len() as int),
            r,
        ),
{
    let ghost proxy = inquiry.proxy();
    let ghost key = inquiry.key();
    let ghost before = inquiry@;
    let ghost mut asked: Seq<Answer<P::Client, P::Value>> = Seq::empty();
    let mut step: RouteStep<P::Client, P::Value> = RouteStep::AskActive;
    assert(before + asked =~= before);
    loop
        invariant
            proxy == old(inquiry).proxy(),
            key == old(inquiry).key(),
            before == old(inquiry)@,
            inquiry.proxy() == proxy,
            inquiry.key() == key,
            inquiry@ == before + asked,
            forall|i: int| 0 <= i < asked.len() ==> given_by(proxy, key, #[trigger] asked[i]),
            asked.len() <= 3,
            asked.len() == 0 ==> step is AskActive,
            asked.len() > 0 ==> step == step_after(asked.last()),
            asked.len() > 0 ==> asked[0] is Active,
            asked.len() > 1 ==> asked[0] == Answer::<P::Client, P::Value>::Active(None)
                && asked[1] is Resolved,
            asked.len() > 2 ==> asked[1] == Answer::<P::Client, P::Value>::Resolved(
                Err(ClientError::NoResolution),
            ) && asked[2] is Any,
        decreases 3 - asked.len(),
    {
        let ghost so_far = asked;
        let answer = match step {
            RouteStep::AskActive => Answer::Active(inquiry.active()),
            RouteStep::AskResolve => Answer::Resolved(inquiry.resolve()),
            RouteStep::AskAny => Answer::Any(inquiry.any()),
            RouteStep::Done(r) => {
                proof {
                    let active = asked[0]->Active_0;
                    let resolved = if asked.len() > 1 {
                        asked[1]->Resolved_0
                    } else {
                        Err(ClientError::NoResolution)
                    };
                    let any = if asked.len() > 2 {
                        asked[2]->Any_0
                    } else {
                        None
                    };
                    assert(asked =~= questions(active, resolved, any));
                    assert((before + asked).skip(before.len() as int) =~= asked);
                    assert(r == routed(active, resolved, any));
                }
                return r;
            },
        };
        proof {
            asked = asked.push(answer);
            assert(before + asked =~= (before + so_far).push(answer));
        }
        step = next_step(answer);
    }
}

/// What the answer of a remote owner comes to.
pub fn finish_remote<T>(answer: Result<T, Status>) -> (r: Result<T, ClientError>)
    ensures
        match answer {
            Ok(v) => r == Ok::<T, ClientError>(v),
            Err(s) => r matches Err(e) && e@ == ErrorView::of_grpc(s@),
        },
{
    match answer {
        Ok(v) => Ok(v),
        Err(status) => Err(ClientError::from_grpc(status)),
    }
}

/// A key that is owned here as active stays here, whatever else is known.
pub proof fn law_active_owner_keeps_the_request<C, V>(
    v: V,
    resolved: Result<C, ClientError>,
    any: Option<V>,
)
    ensures
        routed(Some(v), resolved, any) == Ok::<Route<C, V>, ClientError>(Route::Local(v)),
{
}

/// A request goes to a peer exactly where the key is not owned here as active and
/// resolves.
pub proof fn law_remote_only_where_resolved<C, V>(
    active: Option<V>,
    resolved: Result<C, ClientError>,
    any: Option<V>,
)
    ensures
        (routed(active, resolved, any) matches Ok(Route::Remote(_))) <==> active is None
            && resolved is Ok,
{
}

/// Nobody is asked to serve a key that no one owns: the request fails as not owned
/// where there is no resolution and nothing is owned here, and such a failure can be
/// retried.
pub proof fn law_unowned_requests_can_be_retried<C, V>()
    ensures
        routed::<C, V>(None, Err(ClientError::NoResolution), None) == Err::<
            Route<C, V>,
            ClientError,
        >(ClientError::NotOwned),
        ClientError::NotOwned@.ownership(),
{
}

/// Where a key is owned here as active, nothing else is asked.
pub proof fn law_fast_path_asks_once<P: Proxy>(
    proxy: P,
    key: P::Key,
    asked: Seq<Answer<P::Client, P::Value>>,
    r: Result<Route<P::Client, P::Value>, ClientError>,
    v: P::Value,
)
    requires
        routed_by(proxy, key, asked, r),
        asked[0] == Answer::<P::Client, P::Value>::Active(Some(v)),
    ensures
        asked == seq![Answer::<P::Client, P::Value>::Active(Some(v))],
        r == Ok::<Route<P::Client, P::Value>, ClientError>(Route::Local(v)),
{
}

/// The remote owner is asked for only after it is known that nothing is owned here as
/// active, and what is owned in any state only after there was no resolution; so at
/// most two lookups are made, the first among active values, the second in any state.
pub proof fn law_questions_follow_the_answers<P: Proxy>(
    proxy: P,
    key: P::Key,
    asked: Seq<Answer<P::Client, P::Value>>,
    r: Result<Route<P::Client, P::Value>, ClientError>,
    i: int,
)
    requires
        routed_by(proxy, key, asked, r),
        0 <= i < asked.len(),
    ensures
        asked[i] is Active <==> i == 0,
        asked[i] is Resolved <==> i == 1,
        asked[i] is Any <==> i == 2,
        i == 1 ==> asked[0] == Answer::<P::Client, P::Value>::Active(None),
        i == 2 ==> asked[1] == Answer::<P::Client, P::Value>::Resolved(
            Err(ClientError::NoResolution),
        ),
{
}

/// Each answer decides by itself what follows: a value that is owned here ends the
/// questions and keeps the request here; a client ends them and sends it there; only
/// where nothing is owned as active is the remote owner asked for, and only where there
/// is no resolution what is owned in any state.
pub proof fn law_answers_decide_what_follows<C, V>(answer: Answer<C, V>, r: RouteStep<C, V>)
    requires
        call_ensures(next_step::<C, V>, (answer,), r),
    ensures
        answer matches Answer::Active(Some(v)) ==> (r matches RouteStep::Done(Ok(Route::Local(w)))
            && w == v),
        answer matches Answer::Any(Some(v)) ==> (r matches RouteStep::Done(Ok(Route::Local(w)))
            && w == v),
        answer matches Answer::Resolved(Ok(c)) ==> (r matches RouteStep::Done(
            Ok(Route::Remote(d)),
        ) && d == c),
        answer matches Answer::Any(None) ==> (r matches RouteStep::Done(
            Err(ClientError::NotOwned),
        )),
        answer matches Answer::Resolved(Err(e)) ==> e is NoResolution || (r matches RouteStep::Done(
            Err(f),
        ) && f == e),
        r is AskResolve <==> (answer matches Answer::Active(None)),
        r is AskAny <==> (answer matches Answer::Resolved(Err(ClientError::NoResolution))),
        !(r is AskActive),
{
}

/// Where a request goes follows from the answers, case by case.
pub proof fn law_route_follows_the_answers<P: Proxy>(
    inquiry: &mut Inquiry<'_, P>,
    r: Result<Route<P::Client, P::Value>, ClientError>,
)
    requires
        call_ensures(route::<P>, (inquiry,), r),
    ensures
        ({
            let asked = final(inquiry)@.skip(old(inquiry)@.len() as int);
            &&& 1 <= asked.len() <= 3
            &&& forall|i: int| 0 <= i < asked.len() ==> given_by(
                old(inquiry).proxy(),
                old(inquiry).key(),
                #[trigger] asked[i],
            )
            &&& asked[0] is Active
            &&& asked[0]->Active_0 matches Some(v) ==> asked.len() == 1 && (r matches Ok(
                Route::Local(w),
            ) && w == v)
            &&& asked[0]->Active_0 is None ==> asked.len() >= 2 && asked[1] is Resolved
            &&& asked.len() == 2 ==> !(asked[1]->Resolved_0 matches Err(
                ClientError::NoResolution,
            )) && (asked[1]->Resolved_0 matches Ok(c) ==> (r matches Ok(Route::Remote(d)) && d
                == c)) && (asked[1]->Resolved_0 matches Err(e) ==> (r matches Err(f) && f == e))
            &&& asked.len() == 3 ==> (asked[1]->Resolved_0 matches Err(
                ClientError::NoResolution,
            )) && asked[2] is Any && (asked[2]->Any_0 matches Some(v) ==> (r matches Ok(
                Route::Local(w),
            ) && w == v)) && (asked[2]->Any_0 is None ==> (r matches Err(ClientError::NotOwned)))
        }),
{
}

/// The answer of a remote owner stands, and its status is read as any status of a peer.
pub proof fn law_remote_answer_is_read<T>(
    answer: Result<T, Status>,
    r: Result<T, ClientError>,
    e: ClientError,
)
    requires
        call_ensures(finish_remote::<T>, (answer,), r),
        answer is Err ==> call_ensures(ClientError::from_grpc, (answer->Err_0,), e),
    ensures
        answer matches Ok(v) ==> (r matches Ok(w) && w == v),
        answer is Err ==> r is Err && r->Err_0@ == e@,
{
}

/// Each answer either decides or leads to the next question: what is owned here as active
/// decides, and so does a resolved owner and any error but that there is no resolution;
/// after that, what is owned here in any state decides.
pub proof fn law_each_answer_leads_on<C, V>(answer: Answer<C, V>, r: RouteStep<C, V>)
    requires
        call_ensures(next_step::<C, V>, (answer,), r),
    ensures
        match answer {
            Answer::Active(None) => r is AskResolve,
            Answer::Active(Some(v)) => r matches RouteStep::Done(Ok(Route::Local(w))) && w == v,
            Answer::Resolved(Ok(c)) => r matches RouteStep::Done(Ok(Route::Remote(d))) && d == c,
            Answer::Resolved(Err(e)) => if e is NoResolution {
                r is AskAny
            } else {
                r matches RouteStep::Done(Err(f)) && f == e
            },
            Answer::Any(None) => r matches RouteStep::Done(Err(e)) && e is NotOwned,
            Answer::Any(Some(v)) => r matches RouteStep::Done(Ok(Route::Local(w))) && w == v,
        },
{
}

} // verus!
