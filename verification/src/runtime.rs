use vstd::prelude::*;
use crate::fps::FpsCounter;
use crate::input::{Event, Key, KeyState, RawEvent, spec_key_code, spec_key_from_code,
    key_code, key_from_code};

verus! {

/// Number of samples in the rolling frames-per-second window.
pub const FPS_WINDOW: usize = 32;

/// The native keycode of the key that aborts the pause sub-loop.
pub const ESCAPE_CODE: i32 = 27;

/// The semantic event one raw event translates to, if any: the three
/// recognized raw categories map one-to-one onto the event variants, a raw
/// keycode that decodes to no tracked key symbol is ignored, and the quit
/// category produces no event (it stops the runtime instead).
pub open spec fn event_of_raw(raw: RawEvent) -> Option<Event> {
    match raw {
        RawEvent::KeyDown(c) => match spec_key_from_code(c as int) {
            Some(k) => Some(Event::KeyPress(k)),
            None => None,
        },
        RawEvent::KeyUp(c) => match spec_key_from_code(c as int) {
            Some(k) => Some(Event::KeyRelease(k)),
            None => None,
        },
        RawEvent::MouseMotion(dx, dy) => Some(Event::MouseMove(dx, dy)),
        RawEvent::Quit => None,
        RawEvent::Other => None,
    }
}

/// Whether the runtime is still running after one raw event: only the quit
/// category stops it; no raw event restarts it.
pub open spec fn running_after(running: bool, raw: RawEvent) -> bool {
    running && !(raw matches RawEvent::Quit)
}

/// The pressed state of key `k` after one raw event: a key-down of `k`'s
/// keycode asserts it, a key-up clears it, anything else leaves it alone.
/// Re-asserting an already-pressed key is idempotent.
pub open spec fn pressed_after(was: bool, k: Key, raw: RawEvent) -> bool {
    match raw {
        RawEvent::KeyDown(c) => if spec_key_from_code(c as int) == Some(k) {
            true
        } else {
            was
        },
        RawEvent::KeyUp(c) => if spec_key_from_code(c as int) == Some(k) {
            false
        } else {
            was
        },
        _ => was,
    }
}

/// What the pause sub-loop does with one raw event.
#[derive(Clone, Copy, Debug, PartialEq, Eq, Structural)]
pub enum PauseAction {
    /// The resume key went down: leave the pause loop normally.
    Resume,
    /// Escape went down or the collaborator reported quit: terminate the
    /// process immediately, bypassing the runtime's graceful stop.
    Exit,
    /// Anything else: keep presenting the frozen frame and keep polling.
    Wait,
}

/// The pause sub-loop's decision for one raw event. The resume key is
/// checked before Escape, so pausing with Escape as the resume key resumes
/// rather than exits.
pub open spec fn spec_pause_action(raw: RawEvent, unpause: Key) -> PauseAction {
    match raw {
        RawEvent::KeyDown(c) => if c as int == spec_key_code(unpause) {
            PauseAction::Resume
        } else if c == ESCAPE_CODE {
            PauseAction::Exit
        } else {
            PauseAction::Wait
        },
        RawEvent::Quit => PauseAction::Exit,
        _ => PauseAction::Wait,
    }
}

/// Decides one step of the pause sub-loop. The caller presents the frozen
/// frame and polls raw events at its own cadence; on `Exit` it must
/// terminate the process outright — the deliberate asymmetry with the main
/// loop's graceful stop.
pub fn pause_step(raw: RawEvent, unpause: Key) -> (a: PauseAction)
    ensures
        a == spec_pause_action(raw, unpause),
{
    match raw {
        RawEvent::KeyDown(c) => {
            if c == key_code(unpause) {
                PauseAction::Resume
            } else if c == ESCAPE_CODE {
                PauseAction::Exit
            } else {
                PauseAction::Wait
            }
        },
        RawEvent::Quit => PauseAction::Exit,
        _ => PauseAction::Wait,
    }
}

/// The runtime state of one open window, without the window itself: the
/// surface dimensions, the running flag, the fixed update rate, the live
/// key table and the rolling frames-per-second window. The windowing
/// collaborator's handles stay outside this crate; the embedding loop feeds
/// raw events in through `apply_raw_event` and reads the state back out.
pub struct Framebuffer {
    pub width: u32,
    pub height: u32,
    pub running: bool,
    pub update_rate: u16,
    pub keys: KeyState,
    pub fps_buf: FpsCounter,
}

impl Framebuffer {
    pub open spec fn wf(&self) -> bool {
        &&& self.update_rate >= 1
        &&& self.keys.wf()
        &&& self.fps_buf.wf()
    }

    /// A fresh runtime for a `width` by `height` surface updating
    /// `update_rate` times per simulated second: running, no key pressed,
    /// an empty frames-per-second window.
    pub fn new(width: u32, height: u32, update_rate: u16) -> (fb: Framebuffer)
        requires
            update_rate >= 1,
        ensures
            fb.wf(),
            fb.width == width,
            fb.height == height,
            fb.running,
            fb.update_rate == update_rate,
            forall|k: Key| !fb.keys.is_pressed(k),
            fb.fps_buf.capacity() == FPS_WINDOW,
    {
        Framebuffer {
            width,
            height,
            running: true,
            update_rate,
            keys: KeyState::new(),
            fps_buf: FpsCounter::new(FPS_WINDOW),
        }
    }

    pub fn width(&self) -> (w: u32)
        ensures
            w == self.width,
    {
        self.width
    }

    pub fn height(&self) -> (h: u32)
        ensures
            h == self.height,
    {
        self.height
    }

    /// Requests a graceful stop: the main loop finishes its current phase
    /// and exits without rendering a further frame.
    pub fn close(&mut self)
        ensures
            *final(self) == (Framebuffer { running: false, ..*old(self) }),
    {
        self.running = false;
    }

    /// Whether a key is currently pressed; a key never seen is not pressed.
    pub fn key_pressed(&self, key: Key) -> (down: bool)
        requires
            self.wf(),
        ensures
            down == self.keys.is_pressed(key),
    {
        self.keys.key_pressed(key)
    }

    /// The event-queue bridge: translates one raw external event into its
    /// semantic event (if any), updates the live key table, and stops the
    /// runtime on the quit category. Every recognized raw event produces
    /// exactly one semantic event and one state mutation; unrecognized
    /// keycodes and categories are ignored, never an error.
    ///
    /// The caller dispatches the returned event to its event-handler
    /// callback, after this state change — so each callback observes a key
    /// table consistent with all events handled so far.
    pub fn apply_raw_event(&mut self, raw: RawEvent) -> (e: Option<Event>)
        requires
            old(self).wf(),
        ensures
            final(self).wf(),
            final(self).width == old(self).width,
            final(self).height == old(self).height,
            final(self).update_rate == old(self).update_rate,
            final(self).fps_buf == old(self).fps_buf,
            final(self).running == running_after(old(self).running, raw),
            forall|k: Key|
                final(self).keys.is_pressed(k) == pressed_after(
                    old(self).keys.is_pressed(k),
                    k,
                    raw,
                ),
            e == event_of_raw(raw),
    {
        match raw {
            RawEvent::KeyDown(c) => {
                match key_from_code(c) {
                    Some(k) => {
                        self.keys.set_pressed(k, true);
                        Some(Event::KeyPress(k))
                    },
                    None => None,
                }
            },
            RawEvent::KeyUp(c) => {
                match key_from_code(c) {
                    Some(k) => {
                        self.keys.set_pressed(k, false);
                        Some(Event::KeyRelease(k))
                    },
                    None => None,
                }
            },
            RawEvent::MouseMotion(dx, dy) => Some(Event::MouseMove(dx, dy)),
            RawEvent::Quit => {
                self.running = false;
                None
            },
            RawEvent::Other => None,
        }
    }

    /// Records one instantaneous frames-per-second sample and returns the
    /// rolling average, for the window-title diagnostic.
    pub fn add_fps_measurement(&mut self, fps: u64) -> (avg: u64)
        requires
            old(self).wf(),
        ensures
            final(self).wf(),
            final(self).width == old(self).width,
            final(self).height == old(self).height,
            final(self).update_rate == old(self).update_rate,
            final(self).running == old(self).running,
            final(self).keys == old(self).keys,
            final(self).fps_buf.capacity() == old(self).fps_buf.capacity(),
            final(self).fps_buf.measurements@ == old(self).fps_buf.measurements@.update(
                old(self).fps_buf.idx as int,
                fps,
            ),
            avg == crate::fps::sample_sum(final(self).fps_buf.measurements@)
                / old(self).fps_buf.capacity(),
    {
        self.fps_buf.add_measurement(fps)
    }
}

} // verus!
