//! Questions to a proxy about one key, with a record of what was asked.
//!
//! Whoever holds an [`Inquiry`] reaches the proxy only through it, and each question
//! is noted with its answer. So a contract over the record says which questions were
//! asked, in which order, and that no other was.

use vstd::prelude::*;

use crate::error::ClientError;
use crate::ids::GrantState;
use crate::proxy::Proxy;

verus! {

/// A question about a key, with the answer of the proxy.
pub enum Answer<C, V> {
    /// What is owned here as active.
    Active(Option<V>),
    /// What resolving the key came to.
    Resolved(Result<C, ClientError>),
    /// What is owned here in any state.
    Any(Option<V>),
}

/// Whether a lookup among states may have given a value.
pub open spec fn looked_up<P: Proxy>(
    proxy: P,
    key: P::Key,
    states: Seq<GrantState>,
    value: Option<P::Value>,
) -> bool {
    exists|list: &[GrantState]|
        list@ == states && #[trigger] call_ensures(P::lookup, (&proxy, &key, list), value)
}

/// Whether an answer is one that the proxy may have given to its question.
pub open spec fn given_by<P: Proxy>(
    proxy: P,
    key: P::Key,
    answer: Answer<P::Client, P::Value>,
) -> bool {
    match answer {
        Answer::Active(v) => looked_up(proxy, key, seq![GrantState::Active], v),
        Answer::Resolved(r) => call_ensures(P::resolve, (&proxy, &key), r),
        Answer::Any(v) => looked_up(proxy, key, Seq::empty(), v),
    }
}

/// An inquiry about a key. Its view is what was asked so far.
pub struct Inquiry<'a, P: Proxy> {
    proxy: &'a P,
    key: &'a P::Key,
    asked: Ghost<Seq<Answer<P::Client, P::Value>>>,
}

impl<'a, P: Proxy> View for Inquiry<'a, P> {
    type V = Seq<Answer<P::Client, P::Value>>;

    closed spec fn view(&self) -> Seq<Answer<P::Client, P::Value>> {
        self.asked@
    }
}

impl<'a, P: Proxy> Inquiry<'a, P> {
    /// The proxy that is asked.
    pub closed spec fn proxy(self) -> P {
        *self.proxy
    }

    /// The key that it is asked about.
    pub closed spec fn key(self) -> P::Key {
        *self.key
    }

    /// An inquiry in which nothing was asked.
    pub fn new(proxy: &'a P, key: &'a P::Key) -> (r: Self)
        ensures
            r.proxy() == *proxy,
            r.key() == *key,
            r@ == Seq::<Answer<P::Client, P::Value>>::empty(),
    {
        Inquiry { proxy, key, asked: Ghost(Seq::empty()) }
    }

    /// Asks for what is owned here as active.
    pub fn active(&mut self) -> (v: Option<P::Value>)
        ensures
            final(self).proxy() == old(self).proxy(),
            final(self).key() == old(self).key(),
            final(self)@ == old(self)@.push(Answer::Active(v)),
            given_by(old(self).proxy(), old(self).key(), Answer::Active(v)),
    {
        let only_active: [GrantState; 1] = [GrantState::Active];
        let v = self.proxy.lookup(self.key, &only_active);
        assert(only_active@ =~= seq![GrantState::Active]);
        self.asked = Ghost(self.asked@.push(Answer::Active(v)));
        v
    }

    /// Asks for the remote owner.
    pub fn resolve(&mut self) -> (r: Result<P::Client, ClientError>)
        ensures
            final(self).proxy() == old(self).proxy(),
            final(self).key() == old(self).key(),
            final(self)@ == old(self)@.push(Answer::Resolved(r)),
            given_by(old(self).proxy(), old(self).key(), Answer::Resolved(r)),
    {
        let r = self.proxy.resolve(self.key);
        self.asked = Ghost(self.asked@.push(Answer::Resolved(r)));
        r
    }

    /// Asks for what is owned here in any state.
    pub fn any(&mut self) -> (v: Option<P::Value>)
        ensures
            final(self).proxy() == old(self).proxy(),
            final(self).key() == old(self).key(),
            final(self)@ == old(self)@.push(Answer::Any(v)),
            given_by(old(self).proxy(), old(self).key(), Answer::Any(v)),
    {
        let every: [GrantState; 0] = [];
        let v = self.proxy.lookup(self.key, &every);
        assert(every@ =~= Seq::empty());
        self.asked = Ghost(self.asked@.push(Answer::Any(v)));
        v
    }
}

/// The first question looks up among active values and no others, the last in any
/// state, and the one between resolves the key; each is put to the proxy of the inquiry,
/// about its key, and noted once with its answer.
pub proof fn law_questions_are_put_to_the_proxy<P: Proxy>(
    inquiry: &mut Inquiry<'_, P>,
    v: Option<P::Value>,
    r: Result<P::Client, ClientError>,
)
    ensures
        call_ensures(Inquiry::<P>::active, (inquiry,), v) ==> {
            &&& final(inquiry)@ == old(inquiry)@.push(Answer::Active(v))
            &&& exists|list: &[GrantState]|
                list@.len() == 1 && list@[0] == GrantState::Active && #[trigger] call_ensures(
                    P::lookup,
                    (&old(inquiry).proxy(), &old(inquiry).key(), list),
                    v,
                )
        },
        call_ensures(Inquiry::<P>::any, (inquiry,), v) ==> {
            &&& final(inquiry)@ == old(inquiry)@.push(Answer::Any(v))
            &&& exists|list: &[GrantState]|
                list@.len() == 0 && #[trigger] call_ensures(
                    P::lookup,
                    (&old(inquiry).proxy(), &old(inquiry).key(), list),
                    v,
                )
        },
        call_ensures(Inquiry::<P>::resolve, (inquiry,), r) ==> {
            &&& final(inquiry)@ == old(inquiry)@.push(Answer::Resolved(r))
            &&& call_ensures(P::resolve, (&old(inquiry).proxy(), &old(inquiry).key()), r)
        },
{
}

} // verus!
