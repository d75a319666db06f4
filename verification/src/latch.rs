//! One-shot idempotent signal.
//!
//! A latch starts open and can be closed. It never opens again, and closing it
//! twice is the same as closing it once.
//!
//! A latch is one state in one place. It has no copies that could lag behind it: an
//! observer borrows it, and so sees it as it is.

use vstd::prelude::*;

verus! {

/// A one-shot signal. Its view is whether it is closed.
#[derive(Debug, PartialEq, Eq, Structural)]
pub struct Latch {
    closed: bool,
}

impl View for Latch {
    type V = bool;

    closed spec fn view(&self) -> bool {
        self.closed
    }
}

impl Latch {
    /// A latch that is open.
    pub fn new() -> (l: Self)
        ensures
            !l@,
    {
        Latch { closed: false }
    }

    /// Closes the latch. Tells whether it was this call that did, so that observers
    /// are woken once.
    pub fn close(&mut self) -> (first: bool)
        ensures
            final(self)@ == after_close(old(self)@),
            first == !old(self)@,
    {
        let first = !self.closed;
        self.closed = true;
        first
    }

    /// Whether the latch is closed.
    pub fn is_closed(&self) -> (r: bool)
        ensures
            r == self@,
    {
        self.closed
    }

    /// An observer of the latch.
    pub fn reader(&self) -> (r: LatchReader<'_>)
        ensures
            r@ == self@,
    {
        LatchReader { latch: self }
    }
}

impl Default for Latch {
    fn default() -> (l: Self)
        ensures
            !l@,
    {
        Latch::new()
    }
}

/// An observer of a latch: it sees whether the latch is closed and cannot close it.
#[derive(Clone, Copy, Debug)]
pub struct LatchReader<'a> {
    latch: &'a Latch,
}

impl<'a> View for LatchReader<'a> {
    type V = bool;

    closed spec fn view(&self) -> bool {
        self.latch@
    }
}

impl<'a> LatchReader<'a> {
    /// Whether the latch is closed.
    pub fn is_closed(&self) -> (r: bool)
        ensures
            r == self@,
    {
        self.latch.is_closed()
    }
}

/// What closing makes of a latch.
pub open spec fn after_close(closed: bool) -> bool {
    true
}

/// A latch that is closed stays closed, whatever is done to it: the only thing that
/// changes a latch is to close it, and to close it again changes nothing.
pub proof fn law_closed_latch_stays_closed(closed: bool)
    ensures
        after_close(closed),
        closed ==> after_close(closed) == closed,
        after_close(after_close(closed)) == after_close(closed),
{
}

/// Closing a latch closes it whatever it was, and only the first close counts; a reader
/// sees what the latch shows.
pub proof fn law_close_closes(l: &mut Latch, first: bool)
    requires
        call_ensures(Latch::close, (l,), first),
    ensures
        final(l)@,
        first <==> !old(l)@,
        forall|r: bool| #[trigger] call_ensures(Latch::is_closed, (&*final(l),), r) ==> r,
{
}

/// A new latch is open, and an observer sees exactly what the latch shows.
pub proof fn law_new_latch_is_open(l: Latch, m: &Latch, seen: LatchReader<'_>, r: bool)
    requires
        call_ensures(Latch::new, (), l),
        call_ensures(Latch::reader, (m,), seen),
        call_ensures(LatchReader::is_closed, (&seen,), r),
    ensures
        !l@,
        r == m@,
{
}

} // verus!
