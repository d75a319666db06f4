//! Grant-ownership state machine signals.
//!
//! An [`Ownership`] bundles three life-cycle latches (active / revoked / expired)
//! with [`Loader`] and [`Unloader`], which coordinate graceful handover between the
//! previous and next owners of the same shard.
//!
//! ## Naming
//!
//! - `Loader` belongs to a grant transitioning *into* ownership (ALLOCATED).
//!   - [`Loader::unloaded`] closes when the previous owner has unloaded.
//!   - [`Loader::load`] is called by the user once initialization finishes.
//! - `Unloader` belongs to a grant transitioning *out of* ownership (REVOKED).
//!   - [`Unloader::loaded`] closes when the next owner has loaded.
//!   - [`Unloader::unload`] is called by the user once drain finishes.
//!
//! The user only ever closes `load`, `unload` and the request to revoke; the
//! consumer driver closes the others.
//!
//! ## Waiting
//!
//! A `wait_for_*` function answers `None` for as long as the caller has to wait. A
//! caller asks again whenever a latch has closed.

use vstd::prelude::*;

use crate::error::{ClientError, ErrorView};
use crate::ids::GrantState;
use crate::latch::{Latch, LatchReader};
use crate::time::{Duration, SystemTime};

verus! {

/// Handover controls for the "taking over" (ALLOCATED) phase.
#[derive(Debug, PartialEq, Eq)]
pub struct Loader {
    pub(crate) unloaded: Latch,
    pub(crate) load: Latch,
}

/// What a [`Loader`] stands for: which of its latches are closed.
#[verifier::ext_equal]
pub struct LoaderView {
    pub unloaded: bool,
    pub load: bool,
}

impl View for Loader {
    type V = LoaderView;

    closed spec fn view(&self) -> LoaderView {
        LoaderView { unloaded: self.unloaded@, load: self.load@ }
    }
}

impl Loader {
    /// Both latches open.
    pub fn new() -> (l: Self)
        ensures
            l@ == (LoaderView { unloaded: false, load: false }),
    {
        Loader { unloaded: Latch::new(), load: Latch::new() }
    }

    /// Signal that this consumer has finished loading and is ready to take over.
    /// Idempotent. Tells whether it is the first such signal.
    pub fn load(&mut self) -> (first: bool)
        ensures
            final(self)@ == (LoaderView { load: true, ..old(self)@ }),
            first == !old(self)@.load,
    {
        self.load.close()
    }

    /// Observer of the signal of [`Loader::load`].
    pub fn is_loaded(&self) -> (r: bool)
        ensures
            r == self@.load,
    {
        self.load.is_closed()
    }

    /// Observer that closes when the previous owner has unloaded.
    pub fn unloaded(&self) -> (r: LatchReader<'_>)
        ensures
            r@ == self@.unloaded,
    {
        self.unloaded.reader()
    }
}

/// Handover controls for the "giving up" (REVOKED) phase.
#[derive(Debug, PartialEq, Eq)]
pub struct Unloader {
    pub(crate) loaded: Latch,
    pub(crate) unload: Latch,
}

/// What an [`Unloader`] stands for: which of its latches are closed.
#[verifier::ext_equal]
pub struct UnloaderView {
    pub loaded: bool,
    pub unload: bool,
}

impl View for Unloader {
    type V = UnloaderView;

    closed spec fn view(&self) -> UnloaderView {
        UnloaderView { loaded: self.loaded@, unload: self.unload@ }
    }
}

impl Unloader {
    /// Both latches open.
    pub fn new() -> (u: Self)
        ensures
            u@ == (UnloaderView { loaded: false, unload: false }),
    {
        Unloader { loaded: Latch::new(), unload: Latch::new() }
    }

    /// Signal that this consumer has finished unloading. Idempotent. Tells whether it
    /// is the first such signal.
    pub fn unload(&mut self) -> (first: bool)
        ensures
            final(self)@ == (UnloaderView { unload: true, ..old(self)@ }),
            first == !old(self)@.unload,
    {
        self.unload.close()
    }

    /// Observer of the signal of [`Unloader::unload`].
    pub fn is_unloaded(&self) -> (r: bool)
        ensures
            r == self@.unload,
    {
        self.unload.is_closed()
    }

    /// Observer that closes when the next owner has loaded.
    pub fn loaded(&self) -> (r: LatchReader<'_>)
        ensures
            r@ == self@.loaded,
    {
        self.loaded.reader()
    }
}

/// Grant-lifecycle signal bundle (see module docs).
#[derive(PartialEq, Eq)]
pub struct Ownership {
    pub(crate) active: Latch,
    pub(crate) revoked: Latch,
    pub(crate) expired: Latch,
    pub(crate) request_revoke_signal: Latch,
    pub(crate) loader: Loader,
    pub(crate) unloader: Unloader,
    pub(crate) expiration: SystemTime,
}

/// What an [`Ownership`] stands for: which latches are closed, and when the lease
/// ends.
#[verifier::ext_equal]
pub struct OwnershipView {
    pub active: bool,
    pub revoked: bool,
    pub expired: bool,
    pub revoke_requested: bool,
    pub loader: LoaderView,
    pub unloader: UnloaderView,
    pub expiration: int,
}

impl View for Ownership {
    type V = OwnershipView;

    closed spec fn view(&self) -> OwnershipView {
        OwnershipView {
            active: self.active@,
            revoked: self.revoked@,
            expired: self.expired@,
            revoke_requested: self.request_revoke_signal@,
            loader: self.loader@,
            unloader: self.unloader@,
            expiration: self.expiration@,
        }
    }
}

/// What an [`Ownership`] was like at a moment: a plain record, which does not follow
/// the ownership that it was taken from.
#[derive(Clone, Copy, Debug, PartialEq, Eq)]
pub struct OwnershipState {
    pub active: bool,
    pub revoked: bool,
    pub expired: bool,
    /// Whether the user has asked for the grant to be revoked.
    pub revoke_requested: bool,
    /// Whether the previous owner has unloaded.
    pub counterpart_unloaded: bool,
    /// Whether the user has loaded.
    pub loaded: bool,
    /// Whether the next owner has loaded.
    pub counterpart_loaded: bool,
    /// Whether the user has unloaded.
    pub unloaded: bool,
    /// When the lease ends.
    pub expiration: SystemTime,
}

impl View for OwnershipState {
    type V = OwnershipView;

    open spec fn view(&self) -> OwnershipView {
        OwnershipView {
            active: self.active,
            revoked: self.revoked,
            expired: self.expired,
            revoke_requested: self.revoke_requested,
            loader: LoaderView { unloaded: self.counterpart_unloaded, load: self.loaded },
            unloader: UnloaderView { loaded: self.counterpart_loaded, unload: self.unloaded },
            expiration: self.expiration@,
        }
    }
}

/// Whether a grant in a state is on its way out.
pub open spec fn revoked_state(state: GrantState) -> bool {
    state == GrantState::Revoked || state == GrantState::RevokedUnloaded
}

/// The ownership of a grant that comes in a state, with a lease, at a time: latches
/// of states that are already reached are closed.
pub open spec fn fresh_ownership(state: GrantState, expiration: int, now: int) -> OwnershipView {
    OwnershipView {
        active: state == GrantState::Active,
        revoked: revoked_state(state),
        expired: now > expiration,
        revoke_requested: false,
        loader: LoaderView { unloaded: false, load: false },
        unloader: UnloaderView { loaded: false, unload: false },
        expiration,
    }
}

impl OwnershipView {
    /// Whether each latch that is closed here is closed there.
    pub open spec fn grows_to(self, later: OwnershipView) -> bool {
        &&& self.active ==> later.active
        &&& self.revoked ==> later.revoked
        &&& self.expired ==> later.expired
        &&& self.revoke_requested ==> later.revoke_requested
        &&& self.loader.unloaded ==> later.loader.unloaded
        &&& self.loader.load ==> later.loader.load
        &&& self.unloader.loaded ==> later.unloader.loaded
        &&& self.unloader.unload ==> later.unloader.unload
    }

    /// The grant is activated.
    pub open spec fn activated(self) -> OwnershipView {
        OwnershipView { active: true, ..self }
    }

    /// The grant is revoked.
    pub open spec fn after_revoke(self) -> OwnershipView {
        OwnershipView { revoked: true, ..self }
    }

    /// The grant has expired.
    pub open spec fn after_expiry(self) -> OwnershipView {
        OwnershipView { expired: true, ..self }
    }

    /// The user asks for the grant to be revoked.
    pub open spec fn asked_to_revoke(self) -> OwnershipView {
        OwnershipView { revoke_requested: true, ..self }
    }

    /// The user has loaded.
    pub open spec fn after_load(self) -> OwnershipView {
        OwnershipView { loader: LoaderView { load: true, ..self.loader }, ..self }
    }

    /// The user has unloaded.
    pub open spec fn after_unload(self) -> OwnershipView {
        OwnershipView { unloader: UnloaderView { unload: true, ..self.unloader }, ..self }
    }

    /// The next owner has loaded.
    pub open spec fn after_counterpart_loaded(self) -> OwnershipView {
        OwnershipView { unloader: UnloaderView { loaded: true, ..self.unloader }, ..self }
    }

    /// The previous owner has unloaded.
    pub open spec fn after_counterpart_unloaded(self) -> OwnershipView {
        OwnershipView { loader: LoaderView { unloaded: true, ..self.loader }, ..self }
    }

    /// The lease ends at another time.
    pub open spec fn leased_until(self, expiration: int) -> OwnershipView {
        OwnershipView { expiration, ..self }
    }

    /// What a look at the clock does: a lease that is over expires the grant.
    pub open spec fn at(self, now: int) -> OwnershipView {
        if now >= self.expiration {
            self.after_expiry()
        } else {
            self
        }
    }

    /// What waiting for the previous owner to unload comes to. Where several latches
    /// are closed, one that lets the grant go on counts before one that ends it, and a
    /// revocation before an expiry.
    pub open spec fn unload_outcome(self) -> Option<Result<(), ErrorView>> {
        if self.active || self.loader.unloaded {
            Some(Ok(()))
        } else if self.revoked {
            Some(Err(ErrorView::Revoked))
        } else if self.expired {
            Some(Err(ErrorView::Expired))
        } else {
            None
        }
    }

    /// What waiting for the grant to become active comes to, with the same order of
    /// latches.
    pub open spec fn active_outcome(self) -> Option<Result<(), ErrorView>> {
        if self.active {
            Some(Ok(()))
        } else if self.revoked {
            Some(Err(ErrorView::Revoked))
        } else if self.expired {
            Some(Err(ErrorView::Expired))
        } else {
            None
        }
    }

    /// What waiting for a latch comes to, where the grant may expire first.
    pub open spec fn action_outcome(self, action: bool) -> Option<Result<(), ErrorView>> {
        if action {
            Some(Ok(()))
        } else if self.expired {
            Some(Err(ErrorView::Expired))
        } else {
            None
        }
    }
}

/// Whether the answer to a wait is the given outcome.
pub open spec fn answers<T>(
    r: Option<Result<T, ClientError>>,
    outcome: Option<Result<(), ErrorView>>,
) -> bool {
    match r {
        None => outcome is None,
        Some(Ok(_)) => outcome == Some(Ok::<(), ErrorView>(())),
        Some(Err(e)) => outcome == Some(Err::<(), ErrorView>(e@)),
    }
}

/// What the expiration timer of a grant does next.
#[derive(Clone, Copy, Debug)]
pub enum TimerStep {
    /// The grant has expired; the timer is done.
    Stop,
    /// Look again after this long, or as soon as the lease has changed.
    Sleep(Duration),
}

impl Ownership {
    /// A fresh ownership in a given initial state with a given lease expiration.
    pub fn new(initial_state: GrantState, expiration: SystemTime, now: SystemTime) -> (o: Self)
        ensures
            o@ == fresh_ownership(initial_state, expiration@, now@),
    {
        let mut active = Latch::new();
        let mut revoked = Latch::new();
        let mut expired = Latch::new();
        // Latches of states that are already reached start closed.
        match initial_state {
            GrantState::Active => {
                active.close();
            },
            GrantState::Revoked | GrantState::RevokedUnloaded => {
                revoked.close();
            },
            _ => {},
        }
        if now.is_after(expiration) {
            expired.close();
        }
        Ownership {
            active,
            revoked,
            expired,
            request_revoke_signal: Latch::new(),
            loader: Loader::new(),
            unloader: Unloader::new(),
            expiration,
        }
    }

    /// What the ownership is like now. The record does not follow the ownership: ask
    /// again for what it has become.
    pub fn snapshot(&self) -> (r: OwnershipState)
        ensures
            r@ == self@,
    {
        OwnershipState {
            active: self.active.is_closed(),
            revoked: self.revoked.is_closed(),
            expired: self.expired.is_closed(),
            revoke_requested: self.request_revoke_signal.is_closed(),
            counterpart_unloaded: self.loader.unloaded.is_closed(),
            loaded: self.loader.load.is_closed(),
            counterpart_loaded: self.unloader.loaded.is_closed(),
            unloaded: self.unloader.unload.is_closed(),
            expiration: self.expiration,
        }
    }

    /// Observer of the activation.
    pub fn active(&self) -> (r: LatchReader<'_>)
        ensures
            r@ == self@.active,
    {
        self.active.reader()
    }

    /// Observer of the revocation.
    pub fn revoked(&self) -> (r: LatchReader<'_>)
        ensures
            r@ == self@.revoked,
    {
        self.revoked.reader()
    }

    /// Observer of the expiry.
    pub fn expired(&self) -> (r: LatchReader<'_>)
        ensures
            r@ == self@.expired,
    {
        self.expired.reader()
    }

    /// Observer of the request to revoke.
    pub fn revoke_requested(&self) -> (r: LatchReader<'_>)
        ensures
            r@ == self@.revoke_requested,
    {
        self.request_revoke_signal.reader()
    }

    /// The loader.
    pub fn loader(&self) -> (r: &Loader)
        ensures
            r@ == self@.loader,
    {
        &self.loader
    }

    /// The unloader.
    pub fn unloader(&self) -> (r: &Unloader)
        ensures
            r@ == self@.unloader,
    {
        &self.unloader
    }

    /// When the lease ends.
    pub fn expiration(&self) -> (r: SystemTime)
        ensures
            r@ == self@.expiration,
    {
        self.expiration
    }

    /// Request that the coordinator revoke this grant. The consumer should continue
    /// to honour ownership until `revoked()` closes (or the lease lapses). Tells
    /// whether it is the first request.
    pub fn request_revoke(&mut self) -> (first: bool)
        ensures
            final(self)@ == old(self)@.asked_to_revoke(),
            first == !old(self)@.revoke_requested,
    {
        self.request_revoke_signal.close()
    }

    /// Signal that loading has finished. Tells whether it is the first signal.
    pub fn load(&mut self) -> (first: bool)
        ensures
            final(self)@ == old(self)@.after_load(),
            first == !old(self)@.loader.load,
    {
        self.loader.load()
    }

    /// Signal that unloading has finished. Tells whether it is the first signal.
    pub fn unload(&mut self) -> (first: bool)
        ensures
            final(self)@ == old(self)@.after_unload(),
            first == !old(self)@.unloader.unload,
    {
        self.unloader.unload()
    }

    /// Moves the end of the lease.
    pub fn set_expiration(&mut self, deadline: SystemTime)
        ensures
            final(self)@ == old(self)@.leased_until(deadline@),
    {
        self.expiration = deadline;
    }

    /// The grant is active.
    pub fn activate(&mut self)
        ensures
            final(self)@ == old(self)@.activated(),
    {
        self.active.close();
    }

    /// The grant is revoked.
    pub fn revoke(&mut self)
        ensures
            final(self)@ == old(self)@.after_revoke(),
    {
        self.revoked.close();
    }

    /// The grant has expired.
    pub fn expire(&mut self)
        ensures
            final(self)@ == old(self)@.after_expiry(),
    {
        self.expired.close();
    }

    /// The next owner has loaded.
    pub fn counterpart_loaded(&mut self)
        ensures
            final(self)@ == old(self)@.after_counterpart_loaded(),
    {
        self.unloader.loaded.close();
    }

    /// The previous owner has unloaded.
    pub fn counterpart_unloaded(&mut self)
        ensures
            final(self)@ == old(self)@.after_counterpart_unloaded(),
    {
        self.loader.unloaded.close();
    }

    /// One look of the expiration timer at the clock.
    pub fn timer_step(&mut self, now: SystemTime) -> (r: TimerStep)
        ensures
            final(self)@ == old(self)@.at(now@),
            match r {
                TimerStep::Stop => final(self)@.expired,
                TimerStep::Sleep(d) => {
                    &&& !final(self)@.expired
                    &&& d@ == old(self)@.expiration - now@
                    &&& d@ > 0
                },
            },
    {
        let sleep_for = self.expiration.remaining(now);
        if sleep_for.is_zero() {
            self.expire();
            return TimerStep::Stop;
        }
        if self.expired.is_closed() {
            return TimerStep::Stop;
        }
        TimerStep::Sleep(sleep_for)
    }
}

// ---------- Waiting ----------

impl OwnershipState {
    /// The answer to a wait until the previous counterpart has unloaded.
    pub fn unload_answer(&self) -> (r: Option<Result<(), ClientError>>)
        ensures
            answers(r, self@.unload_outcome()),
    {
        if self.active || self.counterpart_unloaded {
            Some(Ok(()))
        } else if self.revoked {
            Some(Err(ClientError::Revoked))
        } else if self.expired {
            Some(Err(ClientError::Expired))
        } else {
            None
        }
    }

    /// The answer to a wait until the grant is activated.
    pub fn active_answer(&self) -> (r: Option<Result<(), ClientError>>)
        ensures
            answers(r, self@.active_outcome()),
    {
        if self.active {
            Some(Ok(()))
        } else if self.revoked {
            Some(Err(ClientError::Revoked))
        } else if self.expired {
            Some(Err(ClientError::Expired))
        } else {
            None
        }
    }

    /// The answer to a wait for an action of the user, given whether it has happened.
    pub fn action_answer(&self, done: bool) -> (r: Option<Result<(), ClientError>>)
        ensures
            answers(r, self@.action_outcome(done)),
    {
        if done {
            Some(Ok(()))
        } else if self.expired {
            Some(Err(ClientError::Expired))
        } else {
            None
        }
    }

    /// The answer to a wait until the grant is revoked.
    pub fn revoke_answer(&self) -> (r: Option<Result<(), ClientError>>)
        ensures
            answers(r, self@.action_outcome(self@.revoked)),
    {
        self.action_answer(self.revoked)
    }

    /// The answer to a wait until the next counterpart has loaded.
    pub fn load_answer(&self) -> (r: Option<Result<(), ClientError>>)
        ensures
            answers(r, self@.action_outcome(self@.unloader.loaded)),
    {
        self.action_answer(self.counterpart_loaded)
    }
}

impl Ownership {
    /// Wait until the previous counterpart has unloaded. If the grant becomes active
    /// before the counterpart unloads it counts as unloaded too (the grant has been
    /// activated outright). Gives the loader on success, or an ownership error if
    /// the grant is revoked or expires first.
    pub fn wait_for_unload(&self) -> (r: Option<Result<&Loader, ClientError>>)
        ensures
            answers(r, self@.unload_outcome()),
            r matches Some(Ok(l)) ==> l@ == self@.loader,
    {
        match self.snapshot().unload_answer() {
            None => None,
            Some(Ok(_)) => Some(Ok(&self.loader)),
            Some(Err(e)) => Some(Err(e)),
        }
    }

    /// Wait until the grant is activated. Errors on revoke or expiration.
    pub fn wait_for_active(&self) -> (r: Option<Result<(), ClientError>>)
        ensures
            answers(r, self@.active_outcome()),
    {
        self.snapshot().active_answer()
    }

    /// Wait until the grant is revoked. Gives the unloader. Errors on expiration.
    pub fn wait_for_revoke(&self) -> (r: Option<Result<&Unloader, ClientError>>)
        ensures
            answers(r, self@.action_outcome(self@.revoked)),
            r matches Some(Ok(u)) ==> u@ == self@.unloader,
    {
        match self.snapshot().revoke_answer() {
            None => None,
            Some(Ok(_)) => Some(Ok(&self.unloader)),
            Some(Err(e)) => Some(Err(e)),
        }
    }

    /// Wait until the next counterpart has loaded. Errors on expiration.
    pub fn wait_for_load(&self) -> (r: Option<Result<(), ClientError>>)
        ensures
            answers(r, self@.action_outcome(self@.unloader.loaded)),
    {
        self.snapshot().load_answer()
    }

    /// Wait on an action latch of the user (for example that a range is initialized
    /// or has drained). Errors on expiration.
    pub fn wait_for_action(&self, action: LatchReader<'_>) -> (r: Option<Result<(), ClientError>>)
        ensures
            answers(r, self@.action_outcome(action@)),
    {
        self.snapshot().action_answer(action.is_closed())
    }
}

// ---------- Laws ----------

/// Nothing that happens to an ownership opens a latch again.
pub proof fn law_latches_never_reopen(o: OwnershipView, deadline: int, now: int)
    ensures
        o.grows_to(o.activated()),
        o.grows_to(o.after_revoke()),
        o.grows_to(o.after_expiry()),
        o.grows_to(o.asked_to_revoke()),
        o.grows_to(o.after_load()),
        o.grows_to(o.after_unload()),
        o.grows_to(o.after_counterpart_loaded()),
        o.grows_to(o.after_counterpart_unloaded()),
        o.grows_to(o.leased_until(deadline)),
        o.grows_to(o.at(now)),
{
}

/// Growth carries over any number of steps.
pub proof fn law_growth_is_transitive(a: OwnershipView, b: OwnershipView, c: OwnershipView)
    requires
        a.grows_to(b),
        b.grows_to(c),
    ensures
        a.grows_to(c),
{
}

/// Signals are idempotent.
pub proof fn law_signals_are_idempotent(o: OwnershipView)
    ensures
        o.activated().activated() == o.activated(),
        o.after_revoke().after_revoke() == o.after_revoke(),
        o.after_expiry().after_expiry() == o.after_expiry(),
        o.asked_to_revoke().asked_to_revoke() == o.asked_to_revoke(),
        o.after_load().after_load() == o.after_load(),
        o.after_unload().after_unload() == o.after_unload(),
        o.after_counterpart_loaded().after_counterpart_loaded() == o.after_counterpart_loaded(),
        o.after_counterpart_unloaded().after_counterpart_unloaded()
            == o.after_counterpart_unloaded(),
{
}

/// A wait that is over stays over.
pub proof fn law_waits_stay_over(o: OwnershipView, later: OwnershipView, action: bool, acted: bool)
    requires
        o.grows_to(later),
        action ==> acted,
    ensures
        o.unload_outcome() is Some ==> later.unload_outcome() is Some,
        o.active_outcome() is Some ==> later.active_outcome() is Some,
        o.action_outcome(action) is Some ==> later.action_outcome(acted) is Some,
{
}

/// Once a grant has expired nobody is kept waiting on it.
pub proof fn law_expiry_ends_every_wait(o: OwnershipView, action: bool)
    requires
        o.expired,
    ensures
        o.unload_outcome() is Some,
        o.active_outcome() is Some,
        o.action_outcome(action) is Some,
{
}

/// A longer lease does not bring an expired grant back, and a shorter one expires
/// the grant at the next look at the clock once it is over.
pub proof fn law_expiry_follows_the_lease(o: OwnershipView, deadline: int, now: int)
    ensures
        o.leased_until(deadline).at(now).expired <==> o.expired || now >= deadline,
{
}

/// Asking for a revocation does not revoke: whoever waits waits as before.
pub proof fn law_asking_to_revoke_does_not_revoke(o: OwnershipView)
    ensures
        o.asked_to_revoke().revoked == o.revoked,
        o.asked_to_revoke().unload_outcome() == o.unload_outcome(),
        o.asked_to_revoke().active_outcome() == o.active_outcome(),
        forall|action: bool|
            o.asked_to_revoke().action_outcome(action) == #[trigger] o.action_outcome(action),
{
}

/// Activating closes the latch of activation, whatever the grant went through, and no other.
pub proof fn law_activation_closes_one_latch(o: &mut Ownership)
    requires
        call_ensures(Ownership::activate, (o,), ()),
    ensures
        final(o)@.active,
        final(o)@.revoked == old(o)@.revoked,
        final(o)@.expired == old(o)@.expired,
        final(o)@.revoke_requested == old(o)@.revoke_requested,
        final(o)@.loader.unloaded == old(o)@.loader.unloaded,
        final(o)@.loader.load == old(o)@.loader.load,
        final(o)@.unloader.loaded == old(o)@.unloader.loaded,
        final(o)@.unloader.unload == old(o)@.unloader.unload,
        final(o)@.expiration == old(o)@.expiration,
{
}

/// Revoking closes the latch of revocation, whatever the grant went through, and no other.
pub proof fn law_revocation_closes_one_latch(o: &mut Ownership)
    requires
        call_ensures(Ownership::revoke, (o,), ()),
    ensures
        final(o)@.revoked,
        final(o)@.active == old(o)@.active,
        final(o)@.expired == old(o)@.expired,
        final(o)@.revoke_requested == old(o)@.revoke_requested,
        final(o)@.loader.unloaded == old(o)@.loader.unloaded,
        final(o)@.loader.load == old(o)@.loader.load,
        final(o)@.unloader.loaded == old(o)@.unloader.loaded,
        final(o)@.unloader.unload == old(o)@.unloader.unload,
        final(o)@.expiration == old(o)@.expiration,
{
}

/// Expiring closes the latch of expiry, whatever the grant went through, and no other.
pub proof fn law_expiry_closes_one_latch(o: &mut Ownership)
    requires
        call_ensures(Ownership::expire, (o,), ()),
    ensures
        final(o)@.expired,
        final(o)@.active == old(o)@.active,
        final(o)@.revoked == old(o)@.revoked,
        final(o)@.revoke_requested == old(o)@.revoke_requested,
        final(o)@.loader.unloaded == old(o)@.loader.unloaded,
        final(o)@.loader.load == old(o)@.loader.load,
        final(o)@.unloader.loaded == old(o)@.unloader.loaded,
        final(o)@.unloader.unload == old(o)@.unloader.unload,
        final(o)@.expiration == old(o)@.expiration,
{
}

/// Asking for a revocation closes the latch of the request and no other, and only the
/// first request counts.
pub proof fn law_request_closes_one_latch(o: &mut Ownership, first: bool)
    requires
        call_ensures(Ownership::request_revoke, (o,), first),
    ensures
        final(o)@.revoke_requested,
        first <==> !old(o)@.revoke_requested,
        final(o)@.active == old(o)@.active,
        final(o)@.revoked == old(o)@.revoked,
        final(o)@.expired == old(o)@.expired,
        final(o)@.loader.unloaded == old(o)@.loader.unloaded,
        final(o)@.loader.load == old(o)@.loader.load,
        final(o)@.unloader.loaded == old(o)@.unloader.loaded,
        final(o)@.unloader.unload == old(o)@.unloader.unload,
        final(o)@.expiration == old(o)@.expiration,
{
}

/// Loading closes the latch of the loader and no other, and only the first signal
/// counts.
pub proof fn law_load_closes_one_latch(o: &mut Ownership, first: bool)
    requires
        call_ensures(Ownership::load, (o,), first),
    ensures
        final(o)@.loader.load,
        first <==> !old(o)@.loader.load,
        final(o)@.active == old(o)@.active,
        final(o)@.revoked == old(o)@.revoked,
        final(o)@.expired == old(o)@.expired,
        final(o)@.revoke_requested == old(o)@.revoke_requested,
        final(o)@.loader.unloaded == old(o)@.loader.unloaded,
        final(o)@.unloader.loaded == old(o)@.unloader.loaded,
        final(o)@.unloader.unload == old(o)@.unloader.unload,
        final(o)@.expiration == old(o)@.expiration,
{
}

/// Unloading closes the latch of the unloader and no other, and only the first signal
/// counts.
pub proof fn law_unload_closes_one_latch(o: &mut Ownership, first: bool)
    requires
        call_ensures(Ownership::unload, (o,), first),
    ensures
        final(o)@.unloader.unload,
        first <==> !old(o)@.unloader.unload,
        final(o)@.active == old(o)@.active,
        final(o)@.revoked == old(o)@.revoked,
        final(o)@.expired == old(o)@.expired,
        final(o)@.revoke_requested == old(o)@.revoke_requested,
        final(o)@.loader.unloaded == old(o)@.loader.unloaded,
        final(o)@.loader.load == old(o)@.loader.load,
        final(o)@.unloader.loaded == old(o)@.unloader.loaded,
        final(o)@.expiration == old(o)@.expiration,
{
}

/// That the next owner has loaded closes that latch, whatever the grant went through, and
/// no other.
pub proof fn law_counterpart_load_closes_one_latch(o: &mut Ownership)
    requires
        call_ensures(Ownership::counterpart_loaded, (o,), ()),
    ensures
        final(o)@.unloader.loaded,
        final(o)@.active == old(o)@.active,
        final(o)@.revoked == old(o)@.revoked,
        final(o)@.expired == old(o)@.expired,
        final(o)@.revoke_requested == old(o)@.revoke_requested,
        final(o)@.loader.unloaded == old(o)@.loader.unloaded,
        final(o)@.loader.load == old(o)@.loader.load,
        final(o)@.unloader.unload == old(o)@.unloader.unload,
        final(o)@.expiration == old(o)@.expiration,
{
}

/// That the previous owner has unloaded closes that latch, whatever the grant went
/// through, and no other.
pub proof fn law_counterpart_unload_closes_one_latch(o: &mut Ownership)
    requires
        call_ensures(Ownership::counterpart_unloaded, (o,), ()),
    ensures
        final(o)@.loader.unloaded,
        final(o)@.active == old(o)@.active,
        final(o)@.revoked == old(o)@.revoked,
        final(o)@.expired == old(o)@.expired,
        final(o)@.revoke_requested == old(o)@.revoke_requested,
        final(o)@.loader.load == old(o)@.loader.load,
        final(o)@.unloader.loaded == old(o)@.unloader.loaded,
        final(o)@.unloader.unload == old(o)@.unloader.unload,
        final(o)@.expiration == old(o)@.expiration,
{
}

/// Moving the end of the lease, forward or back, moves it there and closes nothing.
pub proof fn law_lease_moves_alone(o: &mut Ownership, deadline: SystemTime)
    requires
        call_ensures(Ownership::set_expiration, (o, deadline), ()),
    ensures
        final(o)@.expiration == deadline@,
        final(o)@.active == old(o)@.active,
        final(o)@.revoked == old(o)@.revoked,
        final(o)@.expired == old(o)@.expired,
        final(o)@.revoke_requested == old(o)@.revoke_requested,
        final(o)@.loader.unloaded == old(o)@.loader.unloaded,
        final(o)@.loader.load == old(o)@.loader.load,
        final(o)@.unloader.loaded == old(o)@.unloader.loaded,
        final(o)@.unloader.unload == old(o)@.unloader.unload,
{
}

/// One look at the clock expires a grant exactly where its lease is over, and changes
/// nothing else; until then it says to look again when the lease ends.
pub proof fn law_clock_expires_what_is_over(o: &mut Ownership, now: SystemTime, r: TimerStep)
    requires
        call_ensures(Ownership::timer_step, (o, now), r),
    ensures
        final(o)@.expired <==> old(o)@.expired || now@ >= old(o)@.expiration,
        r is Stop <==> old(o)@.expired || now@ >= old(o)@.expiration,
        r matches TimerStep::Sleep(d) ==> now@ + d@ == old(o)@.expiration,
        final(o)@.active == old(o)@.active,
        final(o)@.revoked == old(o)@.revoked,
        final(o)@.revoke_requested == old(o)@.revoke_requested,
        final(o)@.loader.unloaded == old(o)@.loader.unloaded,
        final(o)@.loader.load == old(o)@.loader.load,
        final(o)@.unloader.loaded == old(o)@.unloader.loaded,
        final(o)@.unloader.unload == old(o)@.unloader.unload,
        final(o)@.expiration == old(o)@.expiration,
{
}

/// A fresh ownership shows what its state has reached, whatever the state: active, on
/// its way out, or neither; expired exactly where the lease was over before; and nothing
/// signalled yet.
pub proof fn law_fresh_ownership_shows_its_state(
    state: GrantState,
    expiration: SystemTime,
    now: SystemTime,
    o: Ownership,
)
    requires
        call_ensures(Ownership::new, (state, expiration, now), o),
    ensures
        o@.active <==> state is Active,
        o@.revoked <==> state is Revoked || state is RevokedUnloaded,
        o@.expired <==> now@ > expiration@,
        o@.expiration == expiration@,
        !o@.revoke_requested,
        !o@.loader.unloaded,
        !o@.loader.load,
        !o@.unloader.loaded,
        !o@.unloader.unload,
{
}

/// Waiting for the previous owner succeeds exactly where it has unloaded or the grant is
/// active; otherwise it fails on a revocation, then on expiry, and goes on without
/// either.
pub proof fn law_waiting_for_unload(o: &Ownership, r: Option<Result<&Loader, ClientError>>)
    requires
        call_ensures(Ownership::wait_for_unload, (o,), r),
    ensures
        (r matches Some(Ok(_))) <==> o@.active || o@.loader.unloaded,
        (r matches Some(Err(ClientError::Revoked))) <==> !o@.active && !o@.loader.unloaded
            && o@.revoked,
        (r matches Some(Err(ClientError::Expired))) <==> !o@.active && !o@.loader.unloaded
            && !o@.revoked && o@.expired,
        r is None <==> !o@.active && !o@.loader.unloaded && !o@.revoked && !o@.expired,
        r matches Some(Ok(l)) ==> l@.unloaded == o@.loader.unloaded && l@.load == o@.loader.load,
{
}

/// Waiting for activation succeeds exactly where the grant is active; otherwise it fails
/// on a revocation, then on expiry, and goes on without either.
pub proof fn law_waiting_for_activation(o: &Ownership, r: Option<Result<(), ClientError>>)
    requires
        call_ensures(Ownership::wait_for_active, (o,), r),
    ensures
        (r matches Some(Ok(_))) <==> o@.active,
        (r matches Some(Err(ClientError::Revoked))) <==> !o@.active && o@.revoked,
        (r matches Some(Err(ClientError::Expired))) <==> !o@.active && !o@.revoked && o@.expired,
        r is None <==> !o@.active && !o@.revoked && !o@.expired,
{
}

/// Waiting for a revocation succeeds exactly where the grant is revoked, fails only on
/// expiry, and goes on without either.
pub proof fn law_waiting_for_revocation(o: &Ownership, r: Option<Result<&Unloader, ClientError>>)
    requires
        call_ensures(Ownership::wait_for_revoke, (o,), r),
    ensures
        (r matches Some(Ok(_))) <==> o@.revoked,
        (r matches Some(Err(ClientError::Expired))) <==> !o@.revoked && o@.expired,
        r is None <==> !o@.revoked && !o@.expired,
        r matches Some(Ok(u)) ==> u@.loaded == o@.unloader.loaded && u@.unload
            == o@.unloader.unload,
{
}

/// Waiting for the next owner succeeds exactly where it has loaded, fails only on expiry,
/// and goes on without either.
pub proof fn law_waiting_for_load(o: &Ownership, r: Option<Result<(), ClientError>>)
    requires
        call_ensures(Ownership::wait_for_load, (o,), r),
    ensures
        (r matches Some(Ok(_))) <==> o@.unloader.loaded,
        (r matches Some(Err(ClientError::Expired))) <==> !o@.unloader.loaded && o@.expired,
        r is None <==> !o@.unloader.loaded && !o@.expired,
{
}

/// Waiting for an action succeeds exactly where it has happened, fails only on expiry,
/// and goes on without either.
pub proof fn law_waiting_for_an_action(
    o: &Ownership,
    action: LatchReader<'_>,
    r: Option<Result<(), ClientError>>,
)
    requires
        call_ensures(Ownership::wait_for_action, (o, action), r),
    ensures
        (r matches Some(Ok(_))) <==> action@,
        (r matches Some(Err(ClientError::Expired))) <==> !action@ && o@.expired,
        r is None <==> !action@ && !o@.expired,
{
}

/// A snapshot shows every part of an ownership under its name, and answers each wait as
/// the ownership does.
pub proof fn law_snapshot_shows_the_ownership(
    o: &Ownership,
    s: OwnershipState,
    unload: Option<Result<(), ClientError>>,
    active: Option<Result<(), ClientError>>,
    revoke: Option<Result<(), ClientError>>,
    load: Option<Result<(), ClientError>>,
    done: bool,
    action: Option<Result<(), ClientError>>,
)
    requires
        call_ensures(Ownership::snapshot, (o,), s),
        call_ensures(OwnershipState::unload_answer, (&s,), unload),
        call_ensures(OwnershipState::active_answer, (&s,), active),
        call_ensures(OwnershipState::revoke_answer, (&s,), revoke),
        call_ensures(OwnershipState::load_answer, (&s,), load),
        call_ensures(OwnershipState::action_answer, (&s, done), action),
    ensures
        s.active == o@.active,
        s.revoked == o@.revoked,
        s.expired == o@.expired,
        s.revoke_requested == o@.revoke_requested,
        s.counterpart_unloaded == o@.loader.unloaded,
        s.loaded == o@.loader.load,
        s.counterpart_loaded == o@.unloader.loaded,
        s.unloaded == o@.unloader.unload,
        s.expiration@ == o@.expiration,
        (unload matches Some(Ok(_))) <==> o@.active || o@.loader.unloaded,
        unload is None <==> !o@.active && !o@.loader.unloaded && !o@.revoked && !o@.expired,
        (unload matches Some(Err(ClientError::Revoked))) <==> !o@.active && !o@.loader.unloaded
            && o@.revoked,
        (active matches Some(Ok(_))) <==> o@.active,
        active is None <==> !o@.active && !o@.revoked && !o@.expired,
        (active matches Some(Err(ClientError::Revoked))) <==> !o@.active && o@.revoked,
        (revoke matches Some(Ok(_))) <==> o@.revoked,
        revoke is None <==> !o@.revoked && !o@.expired,
        (load matches Some(Ok(_))) <==> o@.unloader.loaded,
        load is None <==> !o@.unloader.loaded && !o@.expired,
        (action matches Some(Ok(_))) <==> done,
        action is None <==> !done && !o@.expired,
        action matches Some(Err(e)) ==> e is Expired,
        load matches Some(Err(e)) ==> e is Expired,
        revoke matches Some(Err(e)) ==> e is Expired,
        active matches Some(Err(e)) ==> e is Revoked || e is Expired,
        unload matches Some(Err(e)) ==> e is Revoked || e is Expired,
{
}

/// The observers of an ownership show its latches, each its own.
pub proof fn law_observers_show_their_latches(
    o: &Ownership,
    active: LatchReader<'_>,
    revoked: LatchReader<'_>,
    expired: LatchReader<'_>,
    requested: LatchReader<'_>,
    expiration: SystemTime,
)
    requires
        call_ensures(Ownership::active, (o,), active),
        call_ensures(Ownership::revoked, (o,), revoked),
        call_ensures(Ownership::expired, (o,), expired),
        call_ensures(Ownership::revoke_requested, (o,), requested),
        call_ensures(Ownership::expiration, (o,), expiration),
    ensures
        active@ == o@.active,
        revoked@ == o@.revoked,
        expired@ == o@.expired,
        requested@ == o@.revoke_requested,
        expiration@ == o@.expiration,
{
}

/// A fresh loader or unloader has nothing signalled; a signal closes its own latch alone,
/// and the observers show theirs.
pub proof fn law_loaders_and_unloaders(
    fresh: Loader,
    fresh_too: Unloader,
    l: &mut Loader,
    u: &mut Unloader,
    first: bool,
    first_too: bool,
)
    requires
        call_ensures(Loader::new, (), fresh),
        call_ensures(Unloader::new, (), fresh_too),
        call_ensures(Loader::load, (l,), first),
        call_ensures(Unloader::unload, (u,), first_too),
    ensures
        !fresh@.load && !fresh@.unloaded,
        !fresh_too@.loaded && !fresh_too@.unload,
        final(l)@.load,
        final(l)@.unloaded == old(l)@.unloaded,
        first <==> !old(l)@.load,
        final(u)@.unload,
        final(u)@.loaded == old(u)@.loaded,
        first_too <==> !old(u)@.unload,
{
}

} // verus!
