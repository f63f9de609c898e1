//! The rate limiter's bookkeeping. Every upstream call takes a slot first; a
//! slot may come with the cooldown (after a throttling sign) or with a pause
//! for the rest of the budget window (once the window's call budget is spent).
//! The waits themselves (the fixed spacing, the cooldown, the window pause)
//! are the caller's.
use vstd::prelude::*;

verus! {

/// What to wait for before the next upstream call.
#[derive(Debug, Clone, Copy, PartialEq, Eq)]
pub struct Wait {
    /// Wait for the limiter's next slot (the fixed spacing between calls).
    pub slot: bool,
    /// First wait out the cooldown that follows a throttling sign.
    pub cooldown: bool,
    /// First wait out a whole budget window: its call budget is spent.
    pub window: bool,
}

pub struct Limiter {
    /// A throttling signal was seen: the next acquire adds the cooldown.
    pub penalized: bool,
    /// Upstream calls made since the last cooldown or window pause.
    pub calls: u64,
    /// Upstream calls made since the last window pause.
    pub window_calls: u64,
    /// The most calls allowed in one budget window.
    pub budget: u64,
}

/// No wait at all: the slot taken earlier is still unused.
pub open spec fn no_wait() -> Wait {
    Wait { slot: false, cooldown: false, window: false }
}

/// What an acquire on `l` asks the caller to wait for.
pub open spec fn wait_of(l: Limiter) -> Wait {
    Wait { slot: true, cooldown: l.penalized, window: l.window_calls >= l.budget }
}

/// The limiter once an acquire has been granted.
pub open spec fn acquired(l: Limiter) -> Limiter {
    let w = wait_of(l);
    Limiter {
        penalized: false,
        calls: if w.cooldown || w.window { 0 } else { l.calls },
        window_calls: if w.window { 0 } else { l.window_calls },
        budget: l.budget,
    }
}

/// The limiter once one call is made.
pub open spec fn counted(l: Limiter) -> Limiter {
    Limiter {
        calls: if l.calls < u64::MAX { (l.calls + 1) as u64 } else { l.calls },
        window_calls: (l.window_calls + 1) as u64,
        ..l
    }
}

impl Limiter {
    /// The limiter's invariant: a budget, never overspent.
    pub open spec fn wf(&self) -> bool {
        self.budget > 0 && self.window_calls <= self.budget
    }

    pub fn new(budget: u64) -> (r: Limiter)
        requires
            budget > 0,
        ensures
            r.wf(),
            r == (Limiter { penalized: false, calls: 0, window_calls: 0, budget }),
    {
        Limiter { penalized: false, calls: 0, window_calls: 0, budget }
    }

    /// Forces the next acquire to wait out the cooldown.
    pub fn penalize(&mut self)
        ensures
            *final(self) == (Limiter { penalized: true, ..*old(self) }),
    {
        self.penalized = true;
    }

    /// Takes a slot for the next call. After it the window has room for that call.
    pub fn acquire(&mut self) -> (w: Wait)
        requires
            old(self).wf(),
        ensures
            w == wait_of(*old(self)),
            *final(self) == acquired(*old(self)),
            final(self).wf(),
            final(self).window_calls < final(self).budget,
    {
        let w = Wait {
            slot: true,
            cooldown: self.penalized,
            window: self.window_calls >= self.budget,
        };
        if w.cooldown || w.window {
            self.calls = 0;
        }
        if w.window {
            self.window_calls = 0;
        }
        self.penalized = false;
        w
    }

    /// Records one upstream call, made on a slot that `acquire` granted.
    pub fn record_call(&mut self)
        requires
            old(self).wf(),
            old(self).window_calls < old(self).budget,
        ensures
            *final(self) == counted(*old(self)),
            final(self).wf(),
    {
        if self.calls < u64::MAX {
            self.calls = self.calls + 1;
        }
        self.window_calls = self.window_calls + 1;
    }
}

} // verus!
