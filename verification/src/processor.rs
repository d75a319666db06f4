//! Processor: manages a range per grant.
//!
//! For every grant that is taken up, a [`GrantRun`] goes through the ownership state
//! machine:
//!
//!   1. Wait for counterpart unload (or direct activation).
//!   2. Wait for the range to initialize, then signal that it has loaded.
//!   3. Wait for activation.
//!   4. Wait for revocation; drain the range with a timeout.
//!   5. Signal unload, wait for counterpart load.
//!
//! Any step may abort when the grant expires, at which point the range is closed and
//! the grant is tracked no more.

use vstd::prelude::*;

use crate::cluster_model::texts;
use crate::error::ErrorView;
use crate::grant_map::{tracked_with, GrantMap, TrackedGrant};
use crate::ids::{GrantId, GrantState, Shard, ShardView};
use crate::latch::{Latch, LatchReader};
use crate::ownership::{OwnershipState, OwnershipView};
use crate::retry::lesser;
use crate::time::{Duration, SystemTime};

verus! {

/// How far the handover of a grant has come.
#[derive(Copy, Clone, Debug, PartialEq, Eq, Structural)]
pub enum Phase {
    /// The previous owner has to unload.
    AwaitUnload,
    /// The range has to initialize.
    Initialize,
    /// It was signalled that the range has loaded.
    Loaded,
    /// The grant has to become active.
    AwaitActive,
    /// The grant is served until it is revoked.
    Serve,
    /// The range has to drain.
    Drain,
    /// It was signalled that the range has unloaded.
    Unloaded,
    /// The next owner has to load.
    AwaitLoad,
    /// It is over.
    Ended,
}

/// What a range shows of itself.
#[derive(Copy, Clone, Debug)]
pub struct RangeState {
    /// Whether it has finished initialization.
    pub initialized: bool,
    /// Whether the drain that was started for the grant is done.
    pub drained: bool,
    /// Whether it has terminated.
    pub closed: bool,
}

/// What is to be done next for a grant.
#[derive(Copy, Clone, Debug)]
pub enum Action {
    /// Wait until a latch closes.
    Wait,
    /// Look again at once.
    Proceed,
    /// Signal that the range has loaded.
    Load,
    /// Drain the range within this time.
    Drain(Duration),
    /// Signal that the range has unloaded.
    Unload,
    /// Close the range; it is over.
    Close,
}

/// What an [`Action`] stands for.
pub enum ActionView {
    Wait,
    Proceed,
    Load,
    Drain(int),
    Unload,
    Close,
}

impl View for Action {
    type V = ActionView;

    open spec fn view(&self) -> ActionView {
        match *self {
            Action::Wait => ActionView::Wait,
            Action::Proceed => ActionView::Proceed,
            Action::Load => ActionView::Load,
            Action::Drain(d) => ActionView::Drain(d@),
            Action::Unload => ActionView::Unload,
            Action::Close => ActionView::Close,
        }
    }
}

impl Phase {
    /// The state in which a grant is tracked in this phase.
    pub open spec fn tracked_state(self) -> Option<GrantState> {
        match self {
            Phase::AwaitUnload => None,
            Phase::Initialize => Some(GrantState::Allocated),
            Phase::Loaded => Some(GrantState::Allocated),
            Phase::AwaitActive => Some(GrantState::AllocatedLoaded),
            Phase::Serve => Some(GrantState::Active),
            Phase::Drain => Some(GrantState::Revoked),
            Phase::Unloaded => Some(GrantState::Revoked),
            Phase::AwaitLoad => Some(GrantState::RevokedUnloaded),
            Phase::Ended => None,
        }
    }

    /// The place of the phase in the handover.
    pub open spec fn rank(self) -> int {
        match self {
            Phase::AwaitUnload => 0,
            Phase::Initialize => 1,
            Phase::Loaded => 2,
            Phase::AwaitActive => 3,
            Phase::Serve => 4,
            Phase::Drain => 5,
            Phase::Unloaded => 6,
            Phase::AwaitLoad => 7,
            Phase::Ended => 8,
        }
    }
}

/// The phase after a wait: the next one, the end, or the same.
pub open spec fn after_wait(
    outcome: Option<Result<(), ErrorView>>,
    phase: Phase,
    next: Phase,
) -> Phase {
    match outcome {
        None => phase,
        Some(Ok(_)) => next,
        Some(Err(_)) => Phase::Ended,
    }
}

/// The phase that follows.
pub open spec fn next_phase(phase: Phase, o: OwnershipView, range: RangeState) -> Phase {
    match phase {
        Phase::AwaitUnload => after_wait(o.unload_outcome(), phase, Phase::Initialize),
        Phase::Initialize => {
            let outcome = o.action_outcome(range.initialized);
            if outcome is None && range.closed {
                Phase::Ended
            } else {
                after_wait(outcome, phase, Phase::Loaded)
            }
        },
        Phase::Loaded => Phase::AwaitActive,
        Phase::AwaitActive => after_wait(o.active_outcome(), phase, Phase::Serve),
        Phase::Serve => after_wait(o.action_outcome(o.revoked), phase, Phase::Drain),
        Phase::Drain => after_wait(
            o.action_outcome(range.drained),
            phase,
            if range.closed {
                Phase::Ended
            } else {
                Phase::Unloaded
            },
        ),
        Phase::Unloaded => Phase::AwaitLoad,
        Phase::AwaitLoad => after_wait(
            o.action_outcome(o.unloader.loaded),
            phase,
            Phase::Ended,
        ),
        Phase::Ended => Phase::Ended,
    }
}

/// What is left of a lease at a time.
pub open spec fn lease_left(expiration: int, now: int) -> int {
    if now < expiration {
        expiration - now
    } else {
        0
    }
}

/// What is to be done on the way from a phase to the one that follows.
pub open spec fn action_between(
    phase: Phase,
    next: Phase,
    o: OwnershipView,
    now: int,
) -> ActionView {
    match next {
        Phase::Ended => ActionView::Close,
        _ => if next == phase {
            ActionView::Wait
        } else {
            match next {
                Phase::Loaded => ActionView::Load,
                Phase::Drain => ActionView::Drain(lease_left(o.expiration, now)),
                Phase::Unloaded => ActionView::Unload,
                _ => ActionView::Proceed,
            }
        },
    }
}

/// What is tracked after a grant has come from one phase to another: the state of the
/// new phase where it differs, and nothing at the end.
pub open spec fn tracked_after<T>(
    grants: Map<Seq<char>, TrackedGrant<T>>,
    id: Seq<char>,
    shard: ShardView,
    value: T,
    phase: Phase,
    next: Phase,
) -> Map<Seq<char>, TrackedGrant<T>> {
    if next is Ended {
        grants.remove(id)
    } else if next.tracked_state() == phase.tracked_state() {
        grants
    } else {
        match next.tracked_state() {
            Some(state) => grants.insert(id, TrackedGrant { shard, state, value }),
            None => grants,
        }
    }
}

/// The handover of one grant.
pub struct GrantRun {
    id: GrantId,
    shard: Shard,
    phase: Phase,
}

/// What a [`GrantRun`] stands for.
#[verifier::ext_equal]
pub struct RunView {
    pub id: Seq<char>,
    pub shard: ShardView,
    pub phase: Phase,
}

impl View for GrantRun {
    type V = RunView;

    closed spec fn view(&self) -> RunView {
        RunView { id: self.id@, shard: self.shard@, phase: self.phase }
    }
}

impl GrantRun {
    /// The handover of a grant, before anything has happened.
    pub fn new(id: GrantId, shard: Shard) -> (r: Self)
        ensures
            r@ == (RunView { id: id@, shard: shard@, phase: Phase::AwaitUnload }),
    {
        GrantRun { id, shard, phase: Phase::AwaitUnload }
    }

    /// How far the handover has come.
    pub fn phase(&self) -> (r: Phase)
        ensures
            r == self@.phase,
    {
        self.phase
    }

    fn decide(&self, o: &OwnershipState, range: &RangeState) -> (next: Phase)
        ensures
            next == next_phase(self@.phase, o@, *range),
    {
        match self.phase {
            Phase::AwaitUnload => match o.unload_answer() {
                None => self.phase,
                Some(Ok(_)) => Phase::Initialize,
                Some(Err(_)) => Phase::Ended,
            },
            Phase::Initialize => match o.action_answer(range.initialized) {
                None => if range.closed {
                    Phase::Ended
                } else {
                    self.phase
                },
                Some(Ok(_)) => Phase::Loaded,
                Some(Err(_)) => Phase::Ended,
            },
            Phase::Loaded => Phase::AwaitActive,
            Phase::AwaitActive => match o.active_answer() {
                None => self.phase,
                Some(Ok(_)) => Phase::Serve,
                Some(Err(_)) => Phase::Ended,
            },
            Phase::Serve => match o.revoke_answer() {
                None => self.phase,
                Some(Ok(_)) => Phase::Drain,
                Some(Err(_)) => Phase::Ended,
            },
            Phase::Drain => match o.action_answer(range.drained) {
                None => self.phase,
                Some(Ok(_)) => if range.closed {
                    Phase::Ended
                } else {
                    Phase::Unloaded
                },
                Some(Err(_)) => Phase::Ended,
            },
            Phase::Unloaded => Phase::AwaitLoad,
            Phase::AwaitLoad => match o.load_answer() {
                None => self.phase,
                Some(_) => Phase::Ended,
            },
            Phase::Ended => Phase::Ended,
        }
    }

    /// Takes the handover one step further. `value` is what is tracked for the grant.
    pub fn step<T: Clone>(
        &mut self,
        o: &OwnershipState,
        range: &RangeState,
        value: T,
        grants: &mut GrantMap<T>,
        now: SystemTime,
    ) -> (r: Action)
        ensures
            ({
                let next = next_phase(old(self)@.phase, o@, *range);
                &&& final(self)@ == (RunView { phase: next, ..old(self)@ })
                &&& r@ == action_between(old(self)@.phase, next, o@, now@)
                &&& final(grants)@ == tracked_after(
                    old(grants)@,
                    old(self)@.id,
                    old(self)@.shard,
                    value,
                    old(self)@.phase,
                    next,
                )
            }),
    {
        let next = self.decide(o, range);
        let moved = next != self.phase;
        self.phase = next;
        match next {
            Phase::Ended => {
                grants.delete(&self.id);
                Action::Close
            },
            Phase::AwaitUnload => Action::Wait,
            Phase::Initialize => if moved {
                grants.allocated(self.id.clone(), self.shard.clone(), value);
                Action::Proceed
            } else {
                Action::Wait
            },
            Phase::Loaded => Action::Load,
            Phase::AwaitActive => if moved {
                grants.loaded(self.id.clone(), self.shard.clone(), value);
                Action::Proceed
            } else {
                Action::Wait
            },
            Phase::Serve => if moved {
                grants.activate(self.id.clone(), self.shard.clone(), value);
                Action::Proceed
            } else {
                Action::Wait
            },
            Phase::Drain => if moved {
                grants.revoke(self.id.clone(), self.shard.clone(), value);
                Action::Drain(o.expiration.remaining(now))
            } else {
                Action::Wait
            },
            Phase::Unloaded => Action::Unload,
            Phase::AwaitLoad => if moved {
                grants.unloaded(self.id.clone(), self.shard.clone(), value);
                Action::Proceed
            } else {
                Action::Wait
            },
        }
    }

    /// Ends the handover out of turn.
    pub fn abandon<T: Clone>(&mut self, grants: &mut GrantMap<T>)
        ensures
            final(self)@ == (RunView { phase: Phase::Ended, ..old(self)@ }),
            final(grants)@ == old(grants)@.remove(old(self)@.id),
    {
        self.phase = Phase::Ended;
        grants.delete(&self.id);
    }
}

// ---------- Laws ----------

/// Whether a grant is tracked in the state of its phase.
pub open spec fn tracked_as<T>(
    grants: Map<Seq<char>, TrackedGrant<T>>,
    id: Seq<char>,
    phase: Phase,
) -> bool {
    match phase.tracked_state() {
        Some(state) => grants.contains_key(id) && grants[id].state == state,
        None => !grants.contains_key(id),
    }
}

/// A grant is tracked in the state of its phase at every step, and at the end it is
/// tracked no more.
pub proof fn law_grant_is_tracked_as_its_phase<T>(
    grants: Map<Seq<char>, TrackedGrant<T>>,
    id: Seq<char>,
    shard: ShardView,
    value: T,
    phase: Phase,
    o: OwnershipView,
    range: RangeState,
)
    requires
        tracked_as(grants, id, phase),
    ensures
        ({
            let next = next_phase(phase, o, range);
            tracked_as(tracked_after(grants, id, shard, value, phase, next), id, next)
        }),
{
}

/// No step touches what is tracked of other grants.
pub proof fn law_other_grants_are_untouched<T>(
    grants: Map<Seq<char>, TrackedGrant<T>>,
    id: Seq<char>,
    shard: ShardView,
    value: T,
    phase: Phase,
    next: Phase,
    other: Seq<char>,
)
    requires
        other != id,
    ensures
        ({
            let after = tracked_after(grants, id, shard, value, phase, next);
            &&& after.contains_key(other) == grants.contains_key(other)
            &&& grants.contains_key(other) ==> after[other] == grants[other]
        }),
{
}

/// The handover only goes forward: a step stays, takes the next phase, or ends.
pub proof fn law_handover_goes_forward(phase: Phase, o: OwnershipView, range: RangeState)
    ensures
        ({
            let next = next_phase(phase, o, range);
            next == phase || next is Ended || next.rank() == phase.rank() + 1
        }),
{
}

/// A grant that has expired is not waited for.
pub proof fn law_expiry_ends_the_waiting(
    phase: Phase,
    o: OwnershipView,
    range: RangeState,
    now: int,
)
    requires
        o.expired,
    ensures
        !(action_between(phase, next_phase(phase, o, range), o, now) is Wait),
{
}

/// Loading is signalled only when the range has initialized, and unloading only when
/// the grant is being drained, has drained and has not terminated.
pub proof fn law_signals_follow_the_range(
    phase: Phase,
    o: OwnershipView,
    range: RangeState,
    now: int,
)
    ensures
        ({
            let action = action_between(phase, next_phase(phase, o, range), o, now);
            &&& action is Load ==> phase is Initialize && range.initialized
            &&& action is Unload ==> phase is Drain && range.drained && !range.closed
            &&& action is Drain ==> phase is Serve && o.revoked
        }),
{
}

/// A signal comes before what is tracked of it: on the step that asks for it nothing
/// changes in what is tracked, and the grant is tracked as loaded, or as unloaded, on
/// the very next step, whatever has happened meanwhile.
pub proof fn law_signals_come_before_tracking<T>(
    grants: Map<Seq<char>, TrackedGrant<T>>,
    id: Seq<char>,
    shard: ShardView,
    value: T,
    phase: Phase,
    o: OwnershipView,
    range: RangeState,
    now: int,
    later: OwnershipView,
    later_range: RangeState,
)
    ensures
        ({
            let next = next_phase(phase, o, range);
            let action = action_between(phase, next, o, now);
            let after = next_phase(next, later, later_range);
            let noted = tracked_after(grants, id, shard, value, next, after);
            &&& action is Load || action is Unload ==> tracked_after(
                grants,
                id,
                shard,
                value,
                phase,
                next,
            ) == grants
            &&& action is Load ==> noted == grants.insert(
                id,
                TrackedGrant { shard, state: GrantState::AllocatedLoaded, value },
            )
            &&& action is Unload ==> noted == grants.insert(
                id,
                TrackedGrant { shard, state: GrantState::RevokedUnloaded, value },
            )
        }),
{
}

/// A handover that has ended stays ended, and its range stays closed.
pub proof fn law_end_is_final(o: OwnershipView, range: RangeState, now: int)
    ensures
        next_phase(Phase::Ended, o, range) is Ended,
        action_between(Phase::Ended, next_phase(Phase::Ended, o, range), o, now) is Close,
{
}

// ---------- A range that keeps a log ----------

/// A range that records lifecycle events in a log, which it may share with others.
/// Draining takes `drain_delay` (or the timeout, whichever is sooner).
pub struct RecordingRange {
    initialized: Latch,
    drains: Vec<Latch>,
    closed: Latch,
    drain_delay: Duration,
    label: String,
}

/// What a [`RecordingRange`] stands for.
#[verifier::ext_equal]
pub struct RecordingView {
    pub initialized: bool,
    /// Of each drain, in the order in which they started, whether it is done.
    pub drains: Seq<bool>,
    pub closed: bool,
    pub drain_delay: int,
    pub label: Seq<char>,
}

impl View for RecordingRange {
    type V = RecordingView;

    closed spec fn view(&self) -> RecordingView {
        RecordingView {
            initialized: self.initialized@,
            drains: self.drains@.map_values(|l: Latch| l@),
            closed: self.closed@,
            drain_delay: self.drain_delay@,
            label: self.label@,
        }
    }
}

impl RecordingView {
    /// A log with one more entry of the range.
    pub open spec fn logged(self, log: Seq<Seq<char>>, msg: Seq<char>) -> Seq<Seq<char>> {
        log.push(self.label + " "@ + msg)
    }
}

/// A drain that has started.
#[derive(Copy, Clone, Debug)]
pub struct Draining {
    /// The place of the drain among those of its range.
    pub place: usize,
    /// The time after which it is done.
    pub delay: Duration,
}

impl RecordingRange {
    /// A range that has not initialized yet.
    pub fn new<S: Into<String>>(label: S, drain_delay: Duration) -> (r: Self)
        ensures
            exists|text: String| #[trigger]
                call_ensures(<S as Into<String>>::into, (label,), text) && r@ == (RecordingView {
                    initialized: false,
                    drains: Seq::empty(),
                    closed: false,
                    drain_delay: drain_delay@,
                    label: text@,
                }),
    {
        let text: String = label.into();
        let r = RecordingRange {
            initialized: Latch::new(),
            drains: Vec::new(),
            closed: Latch::new(),
            drain_delay,
            label: text,
        };
        assert(r@.drains =~= Seq::empty());
        r
    }

    /// Whether the range has initialized.
    pub fn initialized(&self) -> (r: LatchReader<'_>)
        ensures
            r@ == self@.initialized,
    {
        self.initialized.reader()
    }

    /// Whether the range has terminated.
    pub fn closed(&self) -> (r: LatchReader<'_>)
        ensures
            r@ == self@.closed,
    {
        self.closed.reader()
    }

    /// Whether a drain is done.
    pub fn drained(&self, place: usize) -> (r: LatchReader<'_>)
        requires
            place < self@.drains.len(),
        ensures
            r@ == self@.drains[place as int],
    {
        self.drains[place].reader()
    }

    /// Adds an entry to the log.
    pub fn log(&self, log: &mut Vec<String>, msg: &str)
        ensures
            texts(final(log)@) == self@.logged(texts(old(log)@), msg@),
    {
        let ghost before = log@;
        let entry = self.label.clone().concat(" ").concat(msg);
        log.push(entry);
        assert(texts(log@) =~= texts(before).push(entry@));
    }

    /// Initialization has finished.
    pub fn initialize(&mut self, log: &mut Vec<String>)
        ensures
            final(self)@ == (RecordingView { initialized: true, ..old(self)@ }),
            texts(final(log)@) == old(self)@.logged(texts(old(log)@), "initialized"@),
    {
        self.log(log, "initialized");
        self.initialized.close();
    }

    /// Starts to drain. Each drain has an end of its own.
    pub fn drain(&mut self, timeout: Duration, log: &mut Vec<String>) -> (d: Draining)
        ensures
            final(self)@ == (RecordingView {
                drains: old(self)@.drains.push(false),
                ..old(self)@
            }),
            texts(final(log)@) == old(self)@.logged(texts(old(log)@), "drain start"@),
            d.place == old(self)@.drains.len(),
            d.delay@ == lesser(old(self)@.drain_delay, timeout@),
    {
        let ghost before = self.drains@;
        self.log(log, "drain start");
        let place = self.drains.len();
        self.drains.push(Latch::new());
        assert(self@.drains =~= before.map_values(|l: Latch| l@).push(false));
        Draining { place, delay: self.drain_delay.min(timeout) }
    }

    /// A drain is done.
    pub fn drain_done(&mut self, place: usize, log: &mut Vec<String>)
        requires
            place < old(self)@.drains.len(),
        ensures
            final(self)@ == (RecordingView {
                drains: old(self)@.drains.update(place as int, true),
                ..old(self)@
            }),
            texts(final(log)@) == old(self)@.logged(texts(old(log)@), "drain done"@),
    {
        let ghost before = self.drains@;
        self.log(log, "drain done");
        let mut done = Latch::new();
        done.close();
        self.drains.set(place, done);
        assert(self@.drains =~= before.map_values(|l: Latch| l@).update(place as int, true));
    }

    /// Closes the range. Closing it again does nothing.
    pub fn close(&mut self, log: &mut Vec<String>)
        ensures
            final(self)@ == (RecordingView { closed: true, ..old(self)@ }),
            texts(final(log)@) == if old(self)@.closed {
                texts(old(log)@)
            } else {
                old(self)@.logged(texts(old(log)@), "closed"@)
            },
    {
        if !self.closed.is_closed() {
            self.log(log, "closed");
            self.closed.close();
        }
    }
}

/// The end of one drain does not end another, and no drain starts out as done.
pub proof fn law_drains_end_one_by_one(r: RecordingView, place: int, other: int)
    requires
        0 <= place < r.drains.len(),
        0 <= other < r.drains.len(),
        place != other,
    ensures
        r.drains.update(place, true)[place],
        r.drains.update(place, true)[other] == r.drains[other],
        !r.drains.push(false)[r.drains.len() as int],
{
}

/// A handover starts, and the grant is tracked as allocated, exactly where the previous
/// owner has unloaded or the grant is active; it ends where the grant is revoked or
/// expires first, and waits otherwise.
pub proof fn law_handover_starts_when_the_previous_owner_has_unloaded<T: Clone>(
    run: &mut GrantRun,
    o: &OwnershipState,
    range: &RangeState,
    value: T,
    grants: &mut GrantMap<T>,
    now: SystemTime,
    r: Action,
)
    requires
        call_ensures(GrantRun::step::<T>, (run, o, range, value, grants, now), r),
        run@.phase is AwaitUnload,
    ensures
        o.active || o.counterpart_unloaded ==> final(run)@.phase is Initialize && r is Proceed && tracked_with(
            final(grants)@,
            old(run)@.id,
            old(run)@.shard,
            GrantState::Allocated,
            value,
        ),
        !o.active && !o.counterpart_unloaded && (o.revoked || o.expired) ==> final(run)@.phase is Ended && r is Close
            && !final(grants)@.contains_key(old(run)@.id),
        !o.active && !o.counterpart_unloaded && !o.revoked && !o.expired ==> final(run)@.phase is AwaitUnload && r is Wait
            && final(grants)@ == old(grants)@,
{
}

/// Once the range has initialized, the next step asks for the load signal, whatever the
/// ownership shows; before that the handover ends where the grant expires or the range
/// closes, and waits otherwise.
pub proof fn law_range_that_initialized_is_loaded<T: Clone>(
    run: &mut GrantRun,
    o: &OwnershipState,
    range: &RangeState,
    value: T,
    grants: &mut GrantMap<T>,
    now: SystemTime,
    r: Action,
)
    requires
        call_ensures(GrantRun::step::<T>, (run, o, range, value, grants, now), r),
        run@.phase is Initialize,
    ensures
        range.initialized ==> final(run)@.phase is Loaded && r is Load && final(grants)@ == old(grants)@,
        !range.initialized && (o.expired || range.closed) ==> final(run)@.phase is Ended && r is Close
            && !final(grants)@.contains_key(old(run)@.id),
        !range.initialized && !o.expired && !range.closed ==> final(run)@.phase is Initialize && r is Wait
            && final(grants)@ == old(grants)@,
{
}

/// After the load signal the grant is tracked as loaded, whatever has happened meanwhile.
pub proof fn law_load_is_tracked_after_its_signal<T: Clone>(
    run: &mut GrantRun,
    o: &OwnershipState,
    range: &RangeState,
    value: T,
    grants: &mut GrantMap<T>,
    now: SystemTime,
    r: Action,
)
    requires
        call_ensures(GrantRun::step::<T>, (run, o, range, value, grants, now), r),
        run@.phase is Loaded,
    ensures
        final(run)@.phase is AwaitActive && r is Proceed && tracked_with(
            final(grants)@,
            old(run)@.id,
            old(run)@.shard,
            GrantState::AllocatedLoaded,
            value,
        ),
{
}

/// A loaded grant is served, and tracked as active, exactly where it is active; the
/// handover ends where it is revoked or expires first, and waits otherwise.
pub proof fn law_active_grant_is_served<T: Clone>(
    run: &mut GrantRun,
    o: &OwnershipState,
    range: &RangeState,
    value: T,
    grants: &mut GrantMap<T>,
    now: SystemTime,
    r: Action,
)
    requires
        call_ensures(GrantRun::step::<T>, (run, o, range, value, grants, now), r),
        run@.phase is AwaitActive,
    ensures
        o.active ==> final(run)@.phase is Serve && r is Proceed && tracked_with(
            final(grants)@,
            old(run)@.id,
            old(run)@.shard,
            GrantState::Active,
            value,
        ),
        !o.active && (o.revoked || o.expired) ==> final(run)@.phase is Ended && r is Close
            && !final(grants)@.contains_key(old(run)@.id),
        !o.active && !o.revoked && !o.expired ==> final(run)@.phase is AwaitActive && r is Wait
            && final(grants)@ == old(grants)@,
{
}

/// A grant that is served is drained, and tracked as revoked, exactly where it is
/// revoked, within what is left of its lease; the handover ends where it expires first,
/// and waits otherwise.
pub proof fn law_revoked_grant_is_drained<T: Clone>(
    run: &mut GrantRun,
    o: &OwnershipState,
    range: &RangeState,
    value: T,
    grants: &mut GrantMap<T>,
    now: SystemTime,
    r: Action,
)
    requires
        call_ensures(GrantRun::step::<T>, (run, o, range, value, grants, now), r),
        run@.phase is Serve,
    ensures
        o.revoked ==> final(run)@.phase is Drain && tracked_with(
            final(grants)@,
            old(run)@.id,
            old(run)@.shard,
            GrantState::Revoked,
            value,
        ),
        o.revoked && now@ < o.expiration@ ==> (r matches Action::Drain(d) && d@ == o.expiration@ - now@),
        o.revoked && now@ >= o.expiration@ ==> (r matches Action::Drain(d) && d@ == 0),
        !o.revoked && o.expired ==> final(run)@.phase is Ended && r is Close
            && !final(grants)@.contains_key(old(run)@.id),
        !o.revoked && !o.expired ==> final(run)@.phase is Serve && r is Wait
            && final(grants)@ == old(grants)@,
{
}

/// Once the drain is done while the range is still open, the next step asks for the
/// unload signal, whatever the ownership shows; a handover leaves the drain for the end
/// only where the range has closed or, before the drain is done, the grant has expired.
pub proof fn law_drained_grant_is_unloaded<T: Clone>(
    run: &mut GrantRun,
    o: &OwnershipState,
    range: &RangeState,
    value: T,
    grants: &mut GrantMap<T>,
    now: SystemTime,
    r: Action,
)
    requires
        call_ensures(GrantRun::step::<T>, (run, o, range, value, grants, now), r),
        run@.phase is Drain,
    ensures
        range.drained && !range.closed ==> final(run)@.phase is Unloaded && r is Unload && final(grants)@ == old(grants)@,
        range.drained && range.closed ==> final(run)@.phase is Ended && r is Close
            && !final(grants)@.contains_key(old(run)@.id),
        !range.drained && o.expired ==> final(run)@.phase is Ended && r is Close
            && !final(grants)@.contains_key(old(run)@.id),
        !range.drained && !o.expired ==> final(run)@.phase is Drain && r is Wait
            && final(grants)@ == old(grants)@,
        final(run)@.phase is Ended ==> (range.drained && range.closed) || (!range.drained && o.expired),
{
}

/// After the unload signal the grant is tracked as unloaded, whatever has happened
/// meanwhile.
pub proof fn law_unload_is_tracked_after_its_signal<T: Clone>(
    run: &mut GrantRun,
    o: &OwnershipState,
    range: &RangeState,
    value: T,
    grants: &mut GrantMap<T>,
    now: SystemTime,
    r: Action,
)
    requires
        call_ensures(GrantRun::step::<T>, (run, o, range, value, grants, now), r),
        run@.phase is Unloaded,
    ensures
        final(run)@.phase is AwaitLoad && r is Proceed && tracked_with(
            final(grants)@,
            old(run)@.id,
            old(run)@.shard,
            GrantState::RevokedUnloaded,
            value,
        ),
{
}

/// An unloaded grant is let go exactly where the next owner has loaded or the grant has
/// expired; until then the handover waits, whatever the range does.
pub proof fn law_handover_ends_when_the_next_owner_has_loaded<T: Clone>(
    run: &mut GrantRun,
    o: &OwnershipState,
    range: &RangeState,
    value: T,
    grants: &mut GrantMap<T>,
    now: SystemTime,
    r: Action,
)
    requires
        call_ensures(GrantRun::step::<T>, (run, o, range, value, grants, now), r),
        run@.phase is AwaitLoad,
    ensures
        o.counterpart_loaded || o.expired ==> final(run)@.phase is Ended && r is Close
            && !final(grants)@.contains_key(old(run)@.id),
        !o.counterpart_loaded && !o.expired ==> final(run)@.phase is AwaitLoad && r is Wait
            && final(grants)@ == old(grants)@,
{
}

/// A handover that has ended stays ended, closes the range and tracks nothing.
pub proof fn law_ended_handover_stays_ended<T: Clone>(
    run: &mut GrantRun,
    o: &OwnershipState,
    range: &RangeState,
    value: T,
    grants: &mut GrantMap<T>,
    now: SystemTime,
    r: Action,
)
    requires
        call_ensures(GrantRun::step::<T>, (run, o, range, value, grants, now), r),
        run@.phase is Ended,
    ensures
        final(run)@.phase is Ended && r is Close && !final(grants)@.contains_key(old(run)@.id),
{
}

/// No step changes which grant the handover is about, or what is tracked of any other.
pub proof fn law_handover_keeps_to_its_grant<T: Clone>(
    run: &mut GrantRun,
    o: &OwnershipState,
    range: &RangeState,
    value: T,
    grants: &mut GrantMap<T>,
    now: SystemTime,
    r: Action,
    other: Seq<char>,
)
    requires
        call_ensures(GrantRun::step::<T>, (run, o, range, value, grants, now), r),
        other != run@.id,
    ensures
        final(run)@.id == old(run)@.id,
        final(run)@.shard == old(run)@.shard,
        final(grants)@.contains_key(other) == old(grants)@.contains_key(other),
        old(grants)@.contains_key(other) ==> final(grants)@[other] == old(grants)@[other],
{
}

/// A handover starts with waiting for the previous owner, and one that is abandoned ends
/// at once and leaves nothing tracked of its grant, and of no other.
pub proof fn law_handover_starts_and_is_abandoned<T: Clone>(
    id: GrantId,
    shard: Shard,
    fresh: GrantRun,
    run: &mut GrantRun,
    grants: &mut GrantMap<T>,
    other: Seq<char>,
)
    requires
        call_ensures(GrantRun::new, (id, shard), fresh),
        call_ensures(GrantRun::abandon::<T>, (run, grants), ()),
        other != run@.id,
    ensures
        fresh@.phase is AwaitUnload,
        fresh@.id == id@,
        fresh@.shard == shard@,
        final(run)@.phase is Ended,
        !final(grants)@.contains_key(old(run)@.id),
        final(grants)@.contains_key(other) == old(grants)@.contains_key(other),
        old(grants)@.contains_key(other) ==> final(grants)@[other] == old(grants)@[other],
{
}

/// A recording range notes each of its steps once, with its label before, and each step
/// changes that part of the range alone.
pub proof fn law_recording_range_notes_its_steps(
    range: &mut RecordingRange,
    log: &mut Vec<String>,
    timeout: Duration,
    place: usize,
    d: Draining,
)
    ensures
        call_ensures(RecordingRange::initialize, (range, log), ()) ==> {
            &&& final(range)@.initialized
            &&& final(range)@.closed == old(range)@.closed
            &&& final(range)@.drains == old(range)@.drains
            &&& texts(final(log)@) == texts(old(log)@).push(
                old(range)@.label + " "@ + "initialized"@,
            )
        },
        call_ensures(RecordingRange::drain, (range, timeout, log), d) ==> {
            &&& final(range)@.initialized == old(range)@.initialized
            &&& final(range)@.closed == old(range)@.closed
            &&& final(range)@.drains == old(range)@.drains.push(false)
            &&& d.place == old(range)@.drains.len()
            &&& d.delay@ <= old(range)@.drain_delay
            &&& d.delay@ <= timeout@
            &&& d.delay@ == old(range)@.drain_delay || d.delay@ == timeout@
            &&& texts(final(log)@) == texts(old(log)@).push(
                old(range)@.label + " "@ + "drain start"@,
            )
        },
        place < old(range)@.drains.len() && call_ensures(
            RecordingRange::drain_done,
            (range, place, log),
            (),
        ) ==> {
            &&& final(range)@.initialized == old(range)@.initialized
            &&& final(range)@.closed == old(range)@.closed
            &&& final(range)@.drains == old(range)@.drains.update(place as int, true)
            &&& texts(final(log)@) == texts(old(log)@).push(
                old(range)@.label + " "@ + "drain done"@,
            )
        },
        call_ensures(RecordingRange::close, (range, log), ()) ==> {
            &&& final(range)@.closed
            &&& final(range)@.initialized == old(range)@.initialized
            &&& final(range)@.drains == old(range)@.drains
            &&& !old(range)@.closed ==> texts(final(log)@) == texts(old(log)@).push(
                old(range)@.label + " "@ + "closed"@,
            )
            &&& old(range)@.closed ==> texts(final(log)@) == texts(old(log)@)
        },
{
}

} // verus!
