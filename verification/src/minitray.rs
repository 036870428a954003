//! The floating recording overlay: when it is shown or hidden, and how often
//! the input level is pushed to it. Each operation returns whether the
//! overlay itself must be told (the caller makes that call).
use crate::settings::PublicSettings;
use vstd::prelude::*;

verus! {

/// Level updates closer together than this (in nanoseconds) are dropped:
/// about thirty per second get through.
pub const MIN_PUSH_INTERVAL_NS: u64 = 33_000_000;

/// Whether the overlay is visible, and when a level was last pushed
/// (`None` before the first push).
pub struct MinitrayState {
    pub visible: bool,
    pub last_push_nanos: Option<u64>,
}

/// Whether a show request must reach the overlay.
pub open spec fn show_reaches(visible: bool, enabled: bool) -> bool {
    enabled && !visible
}

/// Whether a level taken at `now` reaches a visible overlay that last got
/// one at `last`.
pub open spec fn level_reaches(last: Option<u64>, now: u64) -> bool {
    match last {
        None => true,
        Some(l) => now >= l + MIN_PUSH_INTERVAL_NS,
    }
}

impl MinitrayState {
    /// Hidden, nothing pushed yet.
    pub fn new() -> (s: Self)
        ensures
            !s.visible,
            s.last_push_nanos is None,
    {
        MinitrayState { visible: false, last_push_nanos: None }
    }

    /// Shows the overlay when the setting is on and it is not shown yet;
    /// returns whether it must be shown now.
    pub fn show_if_enabled(&mut self, settings: &PublicSettings) -> (show: bool)
        ensures
            show == show_reaches(old(self).visible, settings.show_minitray_overlay),
            final(self).visible == (old(self).visible || settings.show_minitray_overlay),
            final(self).last_push_nanos == old(self).last_push_nanos,
    {
        if !settings.show_minitray_overlay {
            return false;
        }
        if self.visible {
            return false;
        }
        self.visible = true;
        true
    }

    /// Hides the overlay; returns whether it was shown and must be hidden now.
    pub fn hide_overlay(&mut self) -> (hidden: bool)
        ensures
            hidden == old(self).visible,
            !final(self).visible,
            final(self).last_push_nanos == old(self).last_push_nanos,
    {
        if !self.visible {
            return false;
        }
        self.visible = false;
        true
    }

    pub fn is_visible(&self) -> (b: bool)
        ensures
            b == self.visible,
    {
        self.visible
    }

    /// Whether a level taken at `now_nanos` goes to the overlay: only while
    /// it is visible, and at most once per interval (the first always goes).
    pub fn update_level(&mut self, now_nanos: u64) -> (push: bool)
        ensures
            push == (old(self).visible && level_reaches(old(self).last_push_nanos, now_nanos)),
            push ==> final(self).last_push_nanos == Some(now_nanos),
            !push ==> final(self).last_push_nanos == old(self).last_push_nanos,
            final(self).visible == old(self).visible,
    {
        if !self.visible {
            return false;
        }
        match self.last_push_nanos {
            Some(last) => {
                let elapsed: u64 = if now_nanos >= last {
                    now_nanos - last
                } else {
                    0
                };
                if elapsed < MIN_PUSH_INTERVAL_NS {
                    return false;
                }
            },
            None => {},
        }
        self.last_push_nanos = Some(now_nanos);
        true
    }
}

/// Showing reaches the overlay once: a second request while shown does
/// nothing, hiding while hidden does nothing, and after a hide the next
/// request shows it again.
pub proof fn lemma_show_once(visible: bool, enabled: bool)
    ensures
        !show_reaches(visible || enabled, enabled),
        show_reaches(false, enabled) == enabled,
{
}

/// Two levels that both reach the overlay are at least the interval apart.
pub proof fn lemma_levels_spaced(first: u64, second: u64)
    requires
        level_reaches(Some(first), second),
    ensures
        second - first >= MIN_PUSH_INTERVAL_NS,
{
}

} // verus!
