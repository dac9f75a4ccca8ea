//! What happens once per frame.

use vstd::prelude::*;

use crate::tui::app::{App, AppModel};

verus! {

/// How often the list is loaded anew, in nanoseconds: every thirty seconds.
pub const REFRESH_NANOS: u64 = 30_000_000_000;

/// How long to wait for a key before the next frame, in milliseconds.
pub const TICK_MS: u64 = 80;

impl AppModel {
    /// Whether the list is to be loaded anew: the last time was long enough ago, nothing is under
    /// way, and no dialog is open.
    pub open spec fn refresh_due(self) -> bool {
        &&& !self.loading
        &&& self.now >= self.last_refresh + REFRESH_NANOS
        &&& !self.any_working()
        &&& self.auth_prompt is None
        &&& self.confirm_prompt is None
    }

    /// One tick on, and loading the list anew where that is due.
    pub open spec fn ticked(self) -> AppModel {
        let s = AppModel {
            tick: if self.tick == u64::MAX {
                0
            } else {
                (self.tick + 1) as u64
            },
            ..self
        };
        if s.refresh_due() {
            s.with_refresh()
        } else {
            s
        }
    }

    /// In the next frame: one tick on, and without a notice whose time has passed.
    pub open spec fn next_frame(self) -> AppModel {
        let s = self.ticked();
        if s.notice_is_over() {
            AppModel { notice: None, ..s }
        } else {
            s
        }
    }
}

impl App {
    /// Goes on to the next frame, and says whether it has to be drawn: an idle list is not painted
    /// anew, only one in which something has changed (`changed`), a notice vanishes, or something
    /// moves by itself.
    pub fn begin_frame(&mut self, changed: bool) -> (r: bool)
        ensures
            final(self)@ == old(self)@.next_frame(),
            r == (changed || old(self)@.ticked().notice_is_over()
                || old(self)@.next_frame().is_animating()),
            old(self).wf() ==> final(self).wf(),
    {
        self.tick = self.tick.wrapping_add(1);
        let waited = self.now >= self.last_refresh && self.now - self.last_refresh >= REFRESH_NANOS;
        if !self.loading && waited && !self.any_working() && self.auth_prompt.is_none()
            && self.confirm_prompt.is_none() {
            self.spawn_refresh();
        }
        let over = self.expire_notice();
        changed || over || self.is_animating()
    }

    /// Whether the whole screen has to be painted anew, which is then remembered no longer.
    pub fn take_full_redraw(&mut self) -> (r: bool)
        ensures
            r == old(self)@.needs_full_redraw,
            final(self)@ == (AppModel { needs_full_redraw: false, ..old(self)@ }),
            old(self).wf() ==> final(self).wf(),
    {
        let full = self.needs_full_redraw;
        self.needs_full_redraw = false;
        full
    }
}

/// The list is never loaded anew behind a dialog or while something is under way.
pub proof fn lemma_refresh_waits(app: AppModel)
    requires
        app.loading || app.any_working() || app.auth_prompt is Some || app.confirm_prompt is Some,
    ensures
        app.next_frame().outbox == app.outbox,
        app.next_frame().last_refresh == app.last_refresh,
{
}

} // verus!
