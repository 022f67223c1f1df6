//! Sliding-sidebar animator.
//!
//! The panel slides between a hidden position (flush with the window's
//! right edge) and a shown position (shifted left by the panel width),
//! easing with a cubic ease-out curve over a fixed duration.  Positions
//! are whole pixels, times are milliseconds; the curve is evaluated in
//! exact integer arithmetic, so the offset snaps exactly to the target
//! when the animation completes.

use vstd::prelude::*;

verus! {

/// Width of the sidebar panel in pixels.
pub const SIDEBAR_WIDTH: i64 = 400;

/// Width of the grab handle beside the panel, in pixels.
pub const HANDLE_WIDTH: i64 = 20;

/// Default slide duration in milliseconds.
pub const DEFAULT_ANIMATION_MS: u64 = 300;

/// Largest window coordinate the animator accepts (far beyond any display).
pub const MAX_COORD: i64 = 0x10_0000;

/// Longest animation duration the animator accepts, in milliseconds.
pub const MAX_ANIMATION_MS: u64 = 10_000;

/// The panel's resting offset for a given open/closed state: flush with
/// the right window edge when closed, one panel width further left when open.
pub open spec fn edge_x(is_open: bool, width: int) -> int {
    if is_open {
        width - SIDEBAR_WIDTH
    } else {
        width
    }
}

pub open spec fn cube(d: int) -> int {
    d * d * d
}

/// Numerator of the cubic ease-out fraction `1 - (1 - e/d)^3`,
/// over the common denominator `d^3`.
pub open spec fn ease_numer(e: int, d: int) -> int {
    cube(d) - cube(d - e)
}

/// Offset along the slide from `start` to `target` after `e` of `d`
/// milliseconds: the distance covered is the eased fraction of the whole,
/// rounded down, and the final millisecond lands exactly on `target`.
pub open spec fn eased_position(start: int, target: int, e: int, d: int) -> int {
    if e >= d {
        target
    } else {
        let dist = if target >= start {
            target - start
        } else {
            start - target
        };
        let moved = dist * ease_numer(e, d) / cube(d);
        if target >= start {
            start + moved
        } else {
            start - moved
        }
    }
}

/// Slide-in/slide-out state for the sidebar panel.
///
/// `animation_start_time` is `None` while the panel is idle and holds the
/// toggle instant (in milliseconds) while a slide is running.
pub struct PanelAnimator {
    pub is_open: bool,
    pub current_x: i64,
    pub target_x: i64,
    pub animation_start_x: i64,
    pub animation_start_time: Option<u64>,
    pub animation_duration_ms: u64,
    pub layout_initialized: bool,
}

impl PanelAnimator {
    /// Well-formedness: coordinates stay in range and the duration is
    /// positive and bounded, which keeps the curve arithmetic exact.
    pub open spec fn wf(self) -> bool {
        &&& 1 <= self.animation_duration_ms <= MAX_ANIMATION_MS
        &&& -MAX_COORD <= self.current_x <= MAX_COORD
        &&& -MAX_COORD <= self.target_x <= MAX_COORD
        &&& -MAX_COORD <= self.animation_start_x <= MAX_COORD
    }

    /// The panel is idle: no slide is running.
    pub open spec fn is_idle(self) -> bool {
        self.animation_start_time is None
    }

    pub fn new() -> (r: Self)
        ensures
            r.wf(),
            r.is_idle(),
            !r.is_open,
            !r.layout_initialized,
            r.current_x == 0,
            r.target_x == 0,
            r.animation_start_x == 0,
            r.animation_duration_ms == DEFAULT_ANIMATION_MS,
    {
        PanelAnimator {
            is_open: false,
            current_x: 0,
            target_x: 0,
            animation_start_x: 0,
            animation_start_time: None,
            animation_duration_ms: DEFAULT_ANIMATION_MS,
            layout_initialized: false,
        }
    }

    pub open spec fn spec_init_layout(self, width: int) -> PanelAnimator {
        PanelAnimator {
            current_x: edge_x(self.is_open, width) as i64,
            target_x: edge_x(self.is_open, width) as i64,
            animation_start_x: edge_x(self.is_open, width) as i64,
            layout_initialized: true,
            ..self
        }
    }

    /// First-frame setup: pin every offset to the resting position for the
    /// current open/closed state, without animating.
    pub fn init_layout(&mut self, width: i64)
        requires
            old(self).wf(),
            0 <= width <= MAX_COORD,
        ensures
            *final(self) == old(self).spec_init_layout(width as int),
            final(self).wf(),
            final(self).current_x == edge_x(old(self).is_open, width as int),
            final(self).is_idle() == old(self).is_idle(),
    {
        let x: i64 = if self.is_open {
            width - SIDEBAR_WIDTH
        } else {
            width
        };
        self.current_x = x;
        self.target_x = x;
        self.animation_start_x = x;
        self.layout_initialized = true;
    }

    pub open spec fn spec_sync_idle(self, width: int) -> PanelAnimator {
        if self.is_idle() && (self.current_x != edge_x(self.is_open, width) || self.target_x
            != edge_x(self.is_open, width)) {
            PanelAnimator {
                current_x: edge_x(self.is_open, width) as i64,
                target_x: edge_x(self.is_open, width) as i64,
                animation_start_x: edge_x(self.is_open, width) as i64,
                ..self
            }
        } else {
            self
        }
    }

    /// Per-frame correction: while idle, keep the panel pinned to the
    /// window edge even if the window was resized; a running slide is
    /// left untouched.
    pub fn sync_idle(&mut self, width: i64)
        requires
            old(self).wf(),
            0 <= width <= MAX_COORD,
        ensures
            *final(self) == old(self).spec_sync_idle(width as int),
            final(self).wf(),
            final(self).animation_start_time == old(self).animation_start_time,
            old(self).is_idle() ==> final(self).current_x == edge_x(
                old(self).is_open,
                width as int,
            ) && final(self).target_x == final(self).current_x,
            !old(self).is_idle() ==> *final(self) == *old(self),
    {
        if self.animation_start_time.is_none() {
            let correct: i64 = if self.is_open {
                width - SIDEBAR_WIDTH
            } else {
                width
            };
            if self.current_x != correct || self.target_x != correct {
                self.current_x = correct;
                self.target_x = correct;
                self.animation_start_x = correct;
            }
        }
    }

    pub open spec fn spec_toggle(self, now_ms: u64, width: int) -> PanelAnimator {
        PanelAnimator {
            is_open: !self.is_open,
            target_x: edge_x(!self.is_open, width) as i64,
            animation_start_x: self.current_x,
            animation_start_time: Some(now_ms),
            ..self
        }
    }

    /// Handle a toggle input: flip the open state, aim at the resting
    /// offset of the new state, and start sliding from wherever the
    /// panel currently is.
    pub fn toggle(&mut self, now_ms: u64, width: i64)
        requires
            old(self).wf(),
            0 <= width <= MAX_COORD,
        ensures
            *final(self) == old(self).spec_toggle(now_ms, width as int),
            final(self).wf(),
            final(self).is_open == !old(self).is_open,
            final(self).target_x == edge_x(final(self).is_open, width as int),
            final(self).animation_start_time == Some(now_ms),
            final(self).current_x == old(self).current_x,
    {
        self.is_open = !self.is_open;
        self.target_x = if self.is_open {
            width - SIDEBAR_WIDTH
        } else {
            width
        };
        self.animation_start_x = self.current_x;
        self.animation_start_time = Some(now_ms);
    }

    pub open spec fn spec_step(self, now_ms: u64) -> PanelAnimator {
        match self.animation_start_time {
            None => self,
            Some(t0) => {
                let e = if now_ms >= t0 {
                    now_ms - t0
                } else {
                    0
                };
                let d = self.animation_duration_ms as int;
                if e >= d {
                    PanelAnimator {
                        current_x: self.target_x,
                        animation_start_x: self.target_x,
                        animation_start_time: None,
                        ..self
                    }
                } else {
                    PanelAnimator {
                        current_x: eased_position(
                            self.animation_start_x as int,
                            self.target_x as int,
                            e,
                            d,
                        ) as i64,
                        ..self
                    }
                }
            },
        }
    }

    /// One animation frame.  While idle nothing changes and no repaint
    /// is needed.  While sliding, the offset follows the eased curve;
    /// once the full duration has elapsed it snaps exactly to the target
    /// and the animator returns to idle.  The render loop must repaint
    /// as long as a slide is running.
    pub fn step(&mut self, now_ms: u64) -> (repaint: bool)
        requires
            old(self).wf(),
        ensures
            *final(self) == old(self).spec_step(now_ms),
            final(self).wf(),
            repaint == !old(self).is_idle(),
            (old(self).animation_start_time matches Some(t0) && now_ms >= t0 + old(self).animation_duration_ms)
                ==> final(self).current_x == old(self).target_x && final(self).is_idle(),
    {
        let t0 = match self.animation_start_time {
            None => {
                return false;
            },
            Some(t0) => t0,
        };
        let e: u64 = if now_ms >= t0 {
            now_ms - t0
        } else {
            0
        };
        let d: u64 = self.animation_duration_ms;
        if e >= d {
            self.current_x = self.target_x;
            self.animation_start_x = self.target_x;
            self.animation_start_time = None;
            return true;
        }
        let start = self.animation_start_x;
        let target = self.target_x;
        let dist: u64 = if target >= start {
            (target - start) as u64
        } else {
            (start - target) as u64
        };
        let rem: u64 = d - e;
        proof {
            assert((d as int) * (d as int) <= 100_000_000 && (rem as int) * (rem as int)
                <= 100_000_000 && (d as int) * (d as int) * (d as int) <= 1_000_000_000_000 && (
            rem as int) * (rem as int) * (rem as int) <= (d as int) * (d as int) * (d as int)
                && (d as int) * (d as int) * (d as int) >= 1) by (nonlinear_arith)
                requires
                    1 <= d <= 10_000,
                    0 <= rem <= d,
            ;
        }
        let cube_d: u64 = d * d * d;
        let num: u64 = cube_d - rem * rem * rem;
        proof {
            assert((dist as int) * (num as int) <= (dist as int) * (cube_d as int))
                by (nonlinear_arith)
                requires
                    num <= cube_d,
                    0 <= dist,
            ;
            assert((dist as int) * (cube_d as int) <= 0x200000 * 1_000_000_000_000)
                by (nonlinear_arith)
                requires
                    dist <= 0x200000,
                    cube_d <= 1_000_000_000_000,
            ;
            assert((dist as int) * (num as int) / (cube_d as int) <= (dist as int) * (cube_d
                as int) / (cube_d as int)) by (nonlinear_arith)
                requires
                    (dist as int) * (num as int) <= (dist as int) * (cube_d as int),
                    cube_d >= 1,
            ;
            assert((dist as int) * (cube_d as int) / (cube_d as int) == dist as int)
                by (nonlinear_arith)
                requires
                    cube_d >= 1,
            ;
        }
        let moved: u64 = dist * num / cube_d;
        self.current_x = if target >= start {
            start + moved as i64
        } else {
            start - moved as i64
        };
        true
    }

    pub open spec fn spec_request_close(self, now_ms: u64, width: int) -> PanelAnimator {
        PanelAnimator {
            is_open: false,
            target_x: width as i64,
            animation_start_x: self.current_x,
            animation_start_time: Some(now_ms),
            ..self
        }
    }

    /// Handle an explicit close request: slide out to the right window
    /// edge from the current position.
    pub fn request_close(&mut self, now_ms: u64, width: i64)
        requires
            old(self).wf(),
            0 <= width <= MAX_COORD,
        ensures
            *final(self) == old(self).spec_request_close(now_ms, width as int),
            final(self).wf(),
            !final(self).is_open,
            final(self).target_x == edge_x(false, width as int),
            final(self).animation_start_time == Some(now_ms),
    {
        self.is_open = false;
        self.target_x = width;
        self.animation_start_x = self.current_x;
        self.animation_start_time = Some(now_ms);
    }
}

/// After any toggle — whatever state a toggle sequence has left the
/// animator in — once the full duration has elapsed, a frame step lands
/// the offset exactly on the resting position of the requested state,
/// open or closed, and the animator is idle: no overshoot persists.
pub proof fn lemma_toggle_completion(a: PanelAnimator, now_ms: u64, width: int, later_ms: u64)
    requires
        a.wf(),
        0 <= width <= MAX_COORD,
        later_ms >= now_ms + a.animation_duration_ms,
    ensures
        ({
            let sliding = a.spec_toggle(now_ms, width);
            let done = sliding.spec_step(later_ms);
            &&& done.current_x == edge_x(sliding.is_open, width)
            &&& done.target_x == edge_x(sliding.is_open, width)
            &&& done.is_idle()
        }),
{
}

/// Resizing the window while the animator is idle repositions both the
/// current and the target offset to the resting position at the new
/// width at once — still idle, so not a single animation frame elapses.
pub proof fn lemma_idle_resize(a: PanelAnimator, width: int)
    requires
        a.wf(),
        a.is_idle(),
        0 <= width <= MAX_COORD,
    ensures
        ({
            let b = a.spec_sync_idle(width);
            &&& b.current_x == edge_x(a.is_open, width)
            &&& b.target_x == edge_x(a.is_open, width)
            &&& b.is_idle()
            &&& b.is_open == a.is_open
        }),
{
}

} // verus!
