//! Making clients of peers, with a record of the calls.
//!
//! Whoever holds a [`RemoteFn`] reaches the function that makes clients only through
//! it, and each call is noted with its result. So a contract over the record says how
//! often the function was called, and on which channels.

use vstd::prelude::*;

verus! {

/// A call of the function that makes clients.
#[verifier::ext_equal]
pub struct RemoteCall<C, T> {
    pub channel: C,
    pub client: T,
}

/// A function in use that maps the channel to a peer into a client. Its view is what it
/// was called on so far.
#[verifier::reject_recursive_types(C)]
#[verifier::reject_recursive_types(T)]
#[verifier::reject_recursive_types(F)]
pub struct RemoteFn<'a, C, T, F: Fn(&C) -> T> {
    make: &'a F,
    calls: Ghost<Seq<RemoteCall<C, T>>>,
}

impl<'a, C, T, F: Fn(&C) -> T> View for RemoteFn<'a, C, T, F> {
    type V = Seq<RemoteCall<C, T>>;

    closed spec fn view(&self) -> Seq<RemoteCall<C, T>> {
        self.calls@
    }
}

impl<'a, C, T, F: Fn(&C) -> T> RemoteFn<'a, C, T, F> {
    /// The function that makes clients.
    pub closed spec fn make(self) -> F {
        *self.make
    }

    /// A function that was not called yet.
    pub fn new(make: &'a F) -> (r: Self)
        ensures
            r.make() == *make,
            r@ == Seq::<RemoteCall<C, T>>::empty(),
    {
        RemoteFn { make, calls: Ghost(Seq::empty()) }
    }

    /// Makes a client from a channel.
    pub fn call(&mut self, channel: &C) -> (client: T)
        requires
            call_requires(old(self).make(), (channel,)),
        ensures
            final(self).make() == old(self).make(),
            final(self)@ == old(self)@.push(RemoteCall { channel: *channel, client }),
            call_ensures(old(self).make(), (channel,), client),
    {
        let make = self.make;
        let client = make(channel);
        self.calls = Ghost(self.calls@.push(RemoteCall { channel: *channel, client }));
        client
    }
}

} // verus!
