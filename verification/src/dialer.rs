//! Dialing peers, with a record of the calls.
//!
//! Whoever holds a [`Dialer`] reaches the dial function only through it, and each
//! call is noted with its outcome. So a contract over the record says which endpoints
//! were dialed, how often, and that no other was.

use vstd::prelude::*;

use crate::error::ClientError;
use crate::ids::Endpoint;

verus! {

/// A call of the dial function.
#[verifier::ext_equal]
pub struct DialCall<C> {
    pub endpoint: Seq<char>,
    pub outcome: Result<C, ClientError>,
}

/// A dial function in use. Its view is what was dialed so far.
#[verifier::reject_recursive_types(C)]
#[verifier::reject_recursive_types(F)]
pub struct Dialer<'a, C, F: Fn(&Endpoint) -> Result<C, ClientError>> {
    dial: &'a F,
    calls: Ghost<Seq<DialCall<C>>>,
}

impl<'a, C, F: Fn(&Endpoint) -> Result<C, ClientError>> View for Dialer<'a, C, F> {
    type V = Seq<DialCall<C>>;

    closed spec fn view(&self) -> Seq<DialCall<C>> {
        self.calls@
    }
}

/// Whether a call is one that a dial function may have answered so.
pub open spec fn dialed_by<C, F: Fn(&Endpoint) -> Result<C, ClientError>>(
    dial: F,
    call: DialCall<C>,
) -> bool {
    exists|e: Endpoint|
        e@ == call.endpoint && #[trigger] call_ensures(dial, (&e,), call.outcome)
}

/// Whether a dial function can be called on every endpoint.
pub open spec fn dials_all<C, F: Fn(&Endpoint) -> Result<C, ClientError>>(dial: F) -> bool {
    forall|e: Endpoint| #[trigger] call_requires(dial, (&e,))
}

impl<'a, C, F: Fn(&Endpoint) -> Result<C, ClientError>> Dialer<'a, C, F> {
    /// The dial function.
    pub closed spec fn dial(self) -> F {
        *self.dial
    }

    /// A dial function that was not called yet.
    pub fn new(dial: &'a F) -> (r: Self)
        ensures
            r.dial() == *dial,
            r@ == Seq::<DialCall<C>>::empty(),
    {
        Dialer { dial, calls: Ghost(Seq::empty()) }
    }

    /// Dials an endpoint.
    pub fn call(&mut self, endpoint: &Endpoint) -> (r: Result<C, ClientError>)
        requires
            dials_all(old(self).dial()),
        ensures
            final(self).dial() == old(self).dial(),
            final(self)@ == old(self)@.push(DialCall { endpoint: endpoint@, outcome: r }),
            dialed_by(old(self).dial(), DialCall { endpoint: endpoint@, outcome: r }),
    {
        let dial = self.dial;
        let r = dial(endpoint);
        self.calls = Ghost(self.calls@.push(DialCall { endpoint: endpoint@, outcome: r }));
        r
    }
}

} // verus!
