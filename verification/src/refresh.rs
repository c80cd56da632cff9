//! Timing on screen, independent of drawing and network work: when the
//! mailbox refreshes on its own, and how long an offer to undo a move stays.
//! Times are milliseconds on a monotonic clock.

use vstd::prelude::*;

use crate::mailbox::{same_undo, UndoMove};

verus! {

/// How often a mailbox in the foreground is refreshed.
pub const INTERVAL: u64 = 60_000;
/// How long the window must have been away for coming back to refresh at
/// once.
pub const AFTER_IDLE: u64 = 30_000;
/// The longest wait after failures.
pub const MAX_BACKOFF: u64 = 300_000;
/// The shortest wait before the window is drawn again for a refresh.
pub const MIN_REPAINT: u64 = 50;

/// Decides when to refresh the mailbox. Network work still belongs to the
/// app; this only decides when to ask for it.
#[derive(Debug, Clone, Copy, PartialEq, Eq, Structural)]
pub struct AutoRefresh {
    pub active: bool,
    pub focused: bool,
    pub away_since: Option<u64>,
    pub focus_due: bool,
    pub next_at: u64,
    pub pending: Option<u64>,
    pub failures: u32,
}

/// The time `wait` after `now`, held at the end of the clock.
pub open spec fn later(now: u64, wait: u64) -> u64 {
    if now + wait <= u64::MAX { (now + wait) as u64 } else { u64::MAX }
}

/// The wait after this many failures in a row: a minute, doubled for each
/// failure up to three, and never more than five minutes.
pub open spec fn backoff(failures: u32) -> u64 {
    if failures == 0 {
        60_000
    } else if failures == 1 {
        120_000
    } else if failures == 2 {
        240_000
    } else {
        300_000
    }
}

/// Nothing scheduled: what an inactive mailbox holds.
pub open spec fn idle() -> AutoRefresh {
    AutoRefresh {
        active: false,
        focused: false,
        away_since: None,
        focus_due: false,
        next_at: 0,
        pending: None,
        failures: 0,
    }
}

impl AutoRefresh {
    /// What one look at the clock does, and whether a refresh starts now.
    /// An inactive mailbox forgets everything; the first active look only
    /// starts the clock; a window in the background waits; coming back after
    /// half a minute away refreshes at once, unless failures ask to wait.
    pub open spec fn look(self, now: u64, focused: bool, active: bool, available: bool) -> (AutoRefresh, bool) {
        if !active {
            (idle(), false)
        } else if !self.active {
            (AutoRefresh {
                active: true,
                focused,
                away_since: if focused { None } else { Some(now) },
                next_at: later(now, INTERVAL),
                ..self
            }, false)
        } else if !focused {
            (AutoRefresh {
                away_since: if self.focused { Some(now) } else { self.away_since },
                focused: false,
                ..self
            }, false)
        } else {
            let due = if !self.focused {
                match self.away_since {
                    Some(away) => now >= away && now - away >= AFTER_IDLE,
                    None => false,
                }
            } else {
                self.focus_due
            };
            let s = AutoRefresh { focus_due: due, focused: true, away_since: None, ..self };
            if s.pending is Some || !available {
                (s, false)
            } else {
                let focus_allowed = s.failures == 0 || now >= s.next_at;
                if now >= s.next_at || (s.focus_due && focus_allowed) {
                    (AutoRefresh { focus_due: false, ..s }, true)
                } else {
                    (s, false)
                }
            }
        }
    }

    /// A refresh this scheduler asked for has started.
    pub open spec fn after_started(self, request: u64) -> AutoRefresh {
        AutoRefresh { pending: Some(request), ..self }
    }

    /// A refresh could not start: try again after the current wait.
    pub open spec fn after_postponed(self, now: u64) -> AutoRefresh {
        AutoRefresh { focus_due: false, next_at: later(now, backoff(self.failures)), ..self }
    }

    /// A page arrived. The scheduler's own refresh ends, and a failure
    /// lengthens the wait; any other successful page shows the connection
    /// works and the next refresh is a minute away.
    pub open spec fn after_page(self, request: u64, succeeded: bool, now: u64) -> AutoRefresh {
        if self.pending != Some(request) {
            if self.active && succeeded {
                AutoRefresh { failures: 0, focus_due: false, next_at: later(now, INTERVAL), ..self }
            } else {
                self
            }
        } else {
            let failures = if succeeded {
                0u32
            } else if self.failures < u32::MAX {
                (self.failures + 1) as u32
            } else {
                self.failures
            };
            AutoRefresh { pending: None, failures, next_at: later(now, backoff(failures)), ..self }
        }
    }
}

fn later_than(now: u64, wait: u64) -> (r: u64)
    ensures
        r == later(now, wait),
{
    if now <= u64::MAX - wait {
        now + wait
    } else {
        u64::MAX
    }
}

fn backoff_for(failures: u32) -> (r: u64)
    ensures
        r == backoff(failures),
{
    if failures == 0 {
        60_000
    } else if failures == 1 {
        120_000
    } else if failures == 2 {
        240_000
    } else {
        MAX_BACKOFF
    }
}

impl AutoRefresh {
    pub fn new() -> (r: Self)
        ensures
            r == idle(),
    {
        AutoRefresh {
            active: false,
            focused: false,
            away_since: None,
            focus_due: false,
            next_at: 0,
            pending: None,
            failures: 0,
        }
    }

    /// Whether a refresh should start now.
    pub fn should_start(&mut self, now: u64, focused: bool, active: bool, available: bool) -> (r: bool)
        ensures
            (*final(self), r) == old(self).look(now, focused, active, available),
    {
        if !active {
            *self = AutoRefresh::new();
            return false;
        }
        if !self.active {
            self.active = true;
            self.focused = focused;
            self.away_since = if focused { None } else { Some(now) };
            self.next_at = later_than(now, INTERVAL);
            return false;
        }
        if !focused {
            if self.focused {
                self.away_since = Some(now);
            }
            self.focused = false;
            return false;
        }
        if !self.focused {
            self.focus_due = match self.away_since {
                Some(away) => now >= away && now - away >= AFTER_IDLE,
                None => false,
            };
        }
        self.focused = true;
        self.away_since = None;
        if self.pending.is_some() || !available {
            return false;
        }
        let focus_allowed = self.failures == 0 || now >= self.next_at;
        if now >= self.next_at || (self.focus_due && focus_allowed) {
            self.focus_due = false;
            return true;
        }
        false
    }

    pub fn started(&mut self, request: u64)
        ensures
            *final(self) == old(self).after_started(request),
    {
        self.pending = Some(request);
    }

    pub fn postpone(&mut self, now: u64)
        ensures
            *final(self) == old(self).after_postponed(now),
    {
        self.focus_due = false;
        self.next_at = later_than(now, backoff_for(self.failures));
    }

    pub fn page_finished(&mut self, request: u64, succeeded: bool, now: u64)
        ensures
            *final(self) == old(self).after_page(request, succeeded, now),
    {
        let ours = match self.pending {
            Some(p) => p == request,
            None => false,
        };
        if !ours {
            if self.active && succeeded {
                self.failures = 0;
                self.focus_due = false;
                self.next_at = later_than(now, INTERVAL);
            }
            return;
        }
        self.pending = None;
        if succeeded {
            self.failures = 0;
        } else if self.failures < u32::MAX {
            self.failures = self.failures + 1;
        }
        self.next_at = later_than(now, backoff_for(self.failures));
    }

    /// How long until the window should be drawn again to check the clock:
    /// only while a refresh could start, and never sooner than 50 ms.
    pub fn repaint_after(&self, now: u64, available: bool) -> (r: Option<u64>)
        ensures
            r == (if self.active && self.focused && self.pending is None && available {
                Some(if self.next_at >= now && self.next_at - now >= MIN_REPAINT {
                    (self.next_at - now) as u64
                } else {
                    MIN_REPAINT
                })
            } else {
                None
            }),
    {
        if self.active && self.focused && self.pending.is_none() && available {
            if self.next_at >= now && self.next_at - now >= MIN_REPAINT {
                Some(self.next_at - now)
            } else {
                Some(MIN_REPAINT)
            }
        } else {
            None
        }
    }
}

/// A window in the background never starts a refresh, nor does a mailbox
/// that is not active, nor one whose last refresh is still on its way.
pub proof fn law_no_refresh_in_the_background_or_twice(s: AutoRefresh, now: u64, active: bool, available: bool, focused: bool)
    ensures
        !s.look(now, false, active, available).1,
        !s.look(now, focused, false, available).1,
        s.pending is Some ==> !s.look(now, focused, active, available).1,
{
}

/// Failures stretch the wait: each one waits at least as long as the one
/// before, never less than a minute and never more than five.
pub proof fn law_backoff_grows_and_is_capped(failures: u32)
    ensures
        INTERVAL <= backoff(failures) <= MAX_BACKOFF,
        failures < u32::MAX ==> backoff(failures) <= backoff((failures + 1) as u32),
        failures >= 3 ==> backoff(failures) == MAX_BACKOFF,
{
}

/// Without failures and without coming back from away, a refresh that
/// finished at `t` is not followed by another before `t` plus a minute.
pub proof fn law_once_a_minute(s: AutoRefresh, request: u64, t: u64, now: u64)
    requires
        s.active,
        s.focused,
        !s.focus_due,
        s.pending == Some(request),
        t <= u64::MAX - INTERVAL,
        now < t + INTERVAL,
    ensures
        !s.after_page(request, true, t).look(now, true, true, true).1,
{
}

/// How long an offer to undo a move stays on screen.
pub const UNDO_NOTICE: u64 = 6_000;

/// The undo offer on screen and when it goes.
#[derive(Debug, Clone, PartialEq, Eq)]
pub struct UndoNotice {
    pub offer: UndoMove,
    pub expires_at: u64,
}

/// Keeps the notice for the offer the mailbox makes: a new offer gets its
/// own time on screen, the same offer keeps the time it had. Says how long
/// the notice has left, or `None` once it has gone.
pub fn sync_undo_notice(notice: &mut Option<UndoNotice>, offer: &UndoMove, now: u64) -> (r: Option<u64>)
    ensures
        ({
            let kept = match *old(notice) {
                Some(n) => same_undo(n.offer, *offer),
                None => false,
            };
            let expires = if kept { (*old(notice))->0.expires_at } else { later(now, UNDO_NOTICE) };
            &&& *final(notice) is Some
            &&& same_undo((*final(notice))->0.offer, *offer)
            &&& (*final(notice))->0.expires_at == expires
            &&& kept ==> *final(notice) == *old(notice)
            &&& r == (if expires > now { Some((expires - now) as u64) } else { None })
        }),
{
    let kept = match notice {
        Some(n) => n.offer.equals(offer),
        None => false,
    };
    if !kept {
        *notice = Some(UndoNotice { offer: offer.clone(), expires_at: later_than(now, UNDO_NOTICE) });
    }
    let expires = match notice {
        Some(n) => n.expires_at,
        None => now,
    };
    if expires > now {
        Some(expires - now)
    } else {
        None
    }
}

} // verus!
