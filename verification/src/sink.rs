use vstd::prelude::*;

verus! {

/// One independently lockable output channel of the console.
///
/// The guard is a busy-wait lock on the single hardware thread:
/// `acquire` retries until the flag is free, so it returns only if the
/// sink was unlocked at the call. `force_unlock` is the privileged
/// escape hatch for the failure path: it frees the flag regardless of
/// the current holder, deliberately breaking mutual exclusion so that
/// failure reporting can proceed on a machine already committed to
/// halting.
pub struct Sink<W> {
    pub locked: bool,
    pub writer: W,
}

/// The state of a sink after its lock has been forcibly released:
/// the flag is free, the guarded writer is untouched.
pub open spec fn force_unlocked<W>(s: Sink<W>) -> Sink<W> {
    Sink { locked: false, writer: s.writer }
}

impl<W> Sink<W> {
    pub fn new(writer: W) -> (s: Self)
        ensures
            !s.locked,
            s.writer == writer,
    {
        Sink { locked: false, writer }
    }

    /// Takes the lock flag. The hardware lock is a busy-wait: a caller
    /// that finds the flag held retries until it is freed, and on the
    /// single hardware thread nothing can free it meanwhile, so a call
    /// on a held sink never returns. The precondition records the one
    /// situation in which the acquire comes back.
    pub fn acquire(&mut self)
        requires
            !old(self).locked,
        ensures
            final(self).locked,
            final(self).writer == old(self).writer,
    {
        self.locked = true;
    }

    pub fn release(&mut self)
        requires
            old(self).locked,
        ensures
            !final(self).locked,
            final(self).writer == old(self).writer,
    {
        self.locked = false;
    }

    /// Marks the lock as free regardless of the current holder.
    pub fn force_unlock(&mut self)
        ensures
            *final(self) == force_unlocked(*old(self)),
    {
        self.locked = false;
    }

    pub fn is_locked(&self) -> (r: bool)
        ensures
            r == self.locked,
    {
        self.locked
    }
}

/// A forced release leaves the sink in the one state in which the next
/// `acquire` is owed to return at once — its precondition holds whatever
/// the prior holder did — and the guarded writer is unchanged.
pub proof fn lemma_force_unlock_enables_acquire<W>(s: Sink<W>)
    ensures
        !force_unlocked(s).locked,
        force_unlocked(s).writer == s.writer,
{
}

} // verus!
